# rs_blog

The core of a small blog engine, written in Verus and verified: posts
(drafts and published), categories and tags that posts refer to by id,
static pages with unique slugs, comments that wait for approval, and a
one-time-password login for the single administrator.

- `src/` — the verified library. Each HTTP handler's decision is a
  function from the request's values and the loaded store to the reply
  and the new store, with a contract over the stores' views; the laws
  (what creation, editing and deletion keep, what a read gives back after
  a write, how a login opens the admin routes) are proof functions beside
  the operations they speak of.
- `app/` — the server around it: JSON files on disk, the poem routes,
  mail delivery of login codes, random codes and tokens.
- `tests/` — scenarios and edge cases run against the library.
