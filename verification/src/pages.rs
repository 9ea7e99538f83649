//! Static pages ("About", "Contact"): kept apart from the post feed, each
//! with a slug that no other page shares, looked up by slug once
//! published.

use vstd::prelude::*;
use crate::api::ApiError;
use crate::auth::{admits, header_view, require_admin_session, AppState};
use crate::posts::opt_string_view;
use crate::records::{
    contains_id, copy_all, copy_by_id, find_index, first_where, has_id, ids_below, ids_distinct,
    is_first_where, lemma_first_where, lemma_first_where_push, lemma_position_of, lemma_push_fresh,
    lemma_update_same_id, lemma_without_id_keeps_ids, lemma_without_id_lacks, position_of,
    remove_with_id, views, without_id, Record,
};
use crate::text::{is_blank, is_blank_str};

verus! {

/// Whether a page is only a draft or published.
#[derive(Clone, Copy, Debug, PartialEq, Eq, Structural)]
pub enum PageStatus {
    Draft,
    Published,
}

/// A static page.
pub struct Page {
    pub id: u64,
    pub title: String,
    pub slug: String,
    pub body: String,
    pub status: PageStatus,
    pub created_at: u64,
    pub updated_at: u64,
}

pub struct PageView {
    pub id: u64,
    pub title: Seq<char>,
    pub slug: Seq<char>,
    pub body: Seq<char>,
    pub status: PageStatus,
    pub created_at: u64,
    pub updated_at: u64,
}

impl View for Page {
    type V = PageView;

    open spec fn view(&self) -> PageView {
        PageView {
            id: self.id,
            title: self.title@,
            slug: self.slug@,
            body: self.body@,
            status: self.status,
            created_at: self.created_at,
            updated_at: self.updated_at,
        }
    }
}

impl Record for Page {
    open spec fn key_of(v: PageView) -> u64 {
        v.id
    }

    fn id(&self) -> (r: u64) {
        self.id
    }

    fn duplicate(&self) -> (r: Page) {
        Page {
            id: self.id,
            title: self.title.clone(),
            slug: self.slug.clone(),
            body: self.body.clone(),
            status: self.status,
            created_at: self.created_at,
            updated_at: self.updated_at,
        }
    }
}

/// All pages, and the id that the next one gets.
pub struct PageStore {
    pub next_id: u64,
    pub pages: Vec<Page>,
}

pub struct PageStoreView {
    pub next_id: u64,
    pub pages: Seq<PageView>,
}

impl View for PageStore {
    type V = PageStoreView;

    open spec fn view(&self) -> PageStoreView {
        PageStoreView { next_id: self.next_id, pages: views(self.pages@) }
    }
}

impl PageStore {
    /// A store with no pages, whose first page gets id 0.
    pub fn new() -> (r: PageStore)
        ensures
            r@.next_id == 0,
            r@.pages == Seq::<PageView>::empty(),
    {
        let r = PageStore { next_id: 0, pages: Vec::new() };
        assert(r@.pages =~= Seq::<PageView>::empty());
        r
    }
}

/// The fields of a new page.
pub struct CreatePageRequest {
    pub title: String,
    pub slug: String,
    pub body: String,
}

/// The fields of a page to change; the others stay.
pub struct UpdatePageRequest {
    pub title: Option<String>,
    pub slug: Option<String>,
    pub body: Option<String>,
    pub status: Option<PageStatus>,
}

pub struct UpdatePageView {
    pub title: Option<Seq<char>>,
    pub slug: Option<Seq<char>>,
    pub body: Option<Seq<char>>,
    pub status: Option<PageStatus>,
}

impl View for UpdatePageRequest {
    type V = UpdatePageView;

    open spec fn view(&self) -> UpdatePageView {
        UpdatePageView {
            title: opt_string_view(self.title),
            slug: opt_string_view(self.slug),
            body: opt_string_view(self.body),
            status: self.status,
        }
    }
}

/// Whether some page has the slug.
pub open spec fn slug_taken(pages: Seq<PageView>, slug: Seq<char>) -> bool {
    exists|i: int| 0 <= i < pages.len() && (#[trigger] pages[i]).slug == slug
}

/// Whether some page other than those with id `id` has the slug.
pub open spec fn slug_taken_by_other(pages: Seq<PageView>, slug: Seq<char>, id: u64) -> bool {
    exists|i: int| 0 <= i < pages.len() && (#[trigger] pages[i]).id != id && pages[i].slug == slug
}

/// No two pages share a slug.
pub open spec fn slugs_unique(pages: Seq<PageView>) -> bool {
    forall|i: int, j: int| 0 <= i < j < pages.len() ==> (#[trigger] pages[i]).slug != (
    #[trigger] pages[j]).slug
}

/// The page that a creation at time `now` makes: a draft with the next id.
pub open spec fn new_page(id: u64, title: Seq<char>, slug: Seq<char>, body: Seq<char>, now: u64) -> PageView {
    PageView { id, title, slug, body, status: PageStatus::Draft, created_at: now, updated_at: now }
}

/// The store after a page is created.
pub open spec fn after_create_page(
    s: PageStoreView,
    title: Seq<char>,
    slug: Seq<char>,
    body: Seq<char>,
    now: u64,
) -> PageStoreView {
    PageStoreView {
        next_id: (s.next_id + 1) as u64,
        pages: s.pages.push(new_page(s.next_id, title, slug, body, now)),
    }
}

/// `p` with the fields that `req` names replaced, stamped at `now`.
pub open spec fn updated_page(p: PageView, req: UpdatePageView, now: u64) -> PageView {
    PageView {
        title: match req.title {
            Some(t) => t,
            None => p.title,
        },
        slug: match req.slug {
            Some(s) => s,
            None => p.slug,
        },
        body: match req.body {
            Some(b) => b,
            None => p.body,
        },
        status: match req.status {
            Some(st) => st,
            None => p.status,
        },
        updated_at: now,
        ..p
    }
}

/// Whether a page is published under the slug.
pub open spec fn published_as(slug: Seq<char>) -> spec_fn(PageView) -> bool {
    |p: PageView| p.slug == slug && p.status == PageStatus::Published
}

/// The position of the first page published under the slug, if any.
pub open spec fn page_by_slug(pages: Seq<PageView>, slug: Seq<char>) -> Option<int> {
    first_where(pages, published_as(slug))
}

/// Whether a page in `v` has the slug, other than those with id `id`
/// (when `other_than` is given).
fn slug_in_use(v: &Vec<Page>, slug: &String, other_than: Option<u64>) -> (r: bool)
    ensures
        r == match other_than {
            Some(id) => slug_taken_by_other(views(v@), slug@, id),
            None => slug_taken(views(v@), slug@),
        },
{
    let ghost s = views(v@);
    let n = v.len();
    let mut i: usize = 0;
    while i < n
        invariant
            n == v@.len(),
            s == views(v@),
            i <= n,
            forall|j: int|
                0 <= j < i ==> match other_than {
                    Some(id) => !((#[trigger] s[j]).id != id && s[j].slug == slug@),
                    None => (#[trigger] s[j]).slug != slug@,
                },
        decreases n - i,
    {
        let p = &v[i];
        assert(s[i as int] == p@);
        let other = match other_than {
            Some(id) => p.id != id,
            None => true,
        };
        if other && p.slug == *slug {
            return true;
        }
        i += 1;
    }
    false
}

/// Handles `POST /api/pages`: the administrator creates a draft page at
/// time `now`; title and slug must not be blank, and no page may have the
/// slug already.
pub fn create_page(
    state: &AppState,
    authorization: Option<&str>,
    store: &mut PageStore,
    req: CreatePageRequest,
    now: u64,
) -> (r: Result<Page, ApiError>)
    requires
        admits(state@, header_view(authorization)) && !is_blank(req.title@) && !is_blank(req.slug@)
            && !slug_taken(old(store)@.pages, req.slug@) ==> old(store).next_id < u64::MAX,
    ensures
        !admits(state@, header_view(authorization)) ==> r == Err::<Page, ApiError>(
            ApiError::AdminLoginRequired,
        ) && final(store)@ == old(store)@,
        admits(state@, header_view(authorization)) && (is_blank(req.title@) || is_blank(req.slug@))
            ==> r == Err::<Page, ApiError>(ApiError::TitleOrSlugEmpty) && final(store)@ == old(
            store,
        )@,
        admits(state@, header_view(authorization)) && !is_blank(req.title@) && !is_blank(req.slug@)
            && slug_taken(old(store)@.pages, req.slug@) ==> r == Err::<Page, ApiError>(
            ApiError::SlugInUse,
        ) && final(store)@ == old(store)@,
        admits(state@, header_view(authorization)) && !is_blank(req.title@) && !is_blank(req.slug@)
            && !slug_taken(old(store)@.pages, req.slug@) ==> {
            &&& r matches Ok(p) && p@ == new_page(
                old(store)@.next_id,
                req.title@,
                req.slug@,
                req.body@,
                now,
            )
            &&& final(store)@ == after_create_page(
                old(store)@,
                req.title@,
                req.slug@,
                req.body@,
                now,
            )
        },
{
    if let Err(e) = require_admin_session(state, authorization) {
        return Err(e);
    }
    if is_blank_str(req.title.as_str()) || is_blank_str(req.slug.as_str()) {
        return Err(ApiError::TitleOrSlugEmpty);
    }
    if slug_in_use(&store.pages, &req.slug, None) {
        return Err(ApiError::SlugInUse);
    }
    let id = store.next_id;
    store.next_id = id + 1;
    let page = Page {
        id,
        title: req.title,
        slug: req.slug,
        body: req.body,
        status: PageStatus::Draft,
        created_at: now,
        updated_at: now,
    };
    let answer = page.duplicate();
    let ghost before = store.pages@;
    store.pages.push(page);
    assert(views(store.pages@) =~= views(before).push(answer@));
    Ok(answer)
}

/// Handles `GET /api/pages`: the administrator lists the pages, in order.
pub fn list_pages(state: &AppState, authorization: Option<&str>, store: &PageStore) -> (r: Result<
    Vec<Page>,
    ApiError,
>)
    ensures
        !admits(state@, header_view(authorization)) ==> r == Err::<Vec<Page>, ApiError>(
            ApiError::AdminLoginRequired,
        ),
        admits(state@, header_view(authorization)) ==> (r matches Ok(v) && views(v@)
            == store@.pages),
{
    if let Err(e) = require_admin_session(state, authorization) {
        return Err(e);
    }
    Ok(copy_all(&store.pages))
}

/// Handles `GET /api/pages/:id`: the administrator reads one page.
pub fn get_page(state: &AppState, authorization: Option<&str>, store: &PageStore, id: u64) -> (r:
    Result<Page, ApiError>)
    ensures
        !admits(state@, header_view(authorization)) ==> r == Err::<Page, ApiError>(
            ApiError::AdminLoginRequired,
        ),
        admits(state@, header_view(authorization)) ==> match position_of::<Page>(
            store@.pages,
            id,
        ) {
            Some(i) => r matches Ok(p) && p@ == store@.pages[i],
            None => r == Err::<Page, ApiError>(ApiError::PageNotFound),
        },
{
    if let Err(e) = require_admin_session(state, authorization) {
        return Err(e);
    }
    match copy_by_id(&store.pages, id) {
        Some(p) => Ok(p),
        None => Err(ApiError::PageNotFound),
    }
}

/// Handles `GET /api/pages/by-slug/:slug`, open to anyone: the first page
/// published under the slug; drafts are not shown.
pub fn get_page_by_slug(store: &PageStore, slug: &str) -> (r: Result<Page, ApiError>)
    ensures
        match page_by_slug(store@.pages, slug@) {
            Some(i) => r matches Ok(p) && p@ == store@.pages[i],
            None => r == Err::<Page, ApiError>(ApiError::PageNotFound),
        },
{
    let wanted = slug.to_owned();
    let ghost s = store@.pages;
    let ghost pred = published_as(slug@);
    proof {
        lemma_first_where(s, pred);
    }
    let n = store.pages.len();
    let mut i: usize = 0;
    while i < n
        invariant
            n == store.pages@.len(),
            s == store@.pages,
            pred == published_as(slug@),
            wanted@ == slug@,
            i <= n,
            forall|j: int| 0 <= j < i ==> !pred(#[trigger] s[j]),
        decreases n - i,
    {
        let p = &store.pages[i];
        assert(s[i as int] == p@);
        if p.slug == wanted && p.status == PageStatus::Published {
            assert(is_first_where(s, pred, i as int));
            return Ok(p.duplicate());
        }
        i += 1;
    }
    Err(ApiError::PageNotFound)
}

/// Handles `PUT /api/pages/:id`: the administrator changes the fields of a
/// page that `req` names, at time `now`. A new slug must not belong to
/// another page; that is checked before the page is looked for.
pub fn update_page(
    state: &AppState,
    authorization: Option<&str>,
    store: &mut PageStore,
    id: u64,
    req: UpdatePageRequest,
    now: u64,
) -> (r: Result<Page, ApiError>)
    ensures
        !admits(state@, header_view(authorization)) ==> r == Err::<Page, ApiError>(
            ApiError::AdminLoginRequired,
        ) && final(store)@ == old(store)@,
        admits(state@, header_view(authorization)) && (req@.slug matches Some(sl)
            && slug_taken_by_other(old(store)@.pages, sl, id)) ==> r == Err::<Page, ApiError>(
            ApiError::SlugInUse,
        ) && final(store)@ == old(store)@,
        admits(state@, header_view(authorization)) && !(req@.slug matches Some(sl)
            && slug_taken_by_other(old(store)@.pages, sl, id)) ==> match position_of::<Page>(
            old(store)@.pages,
            id,
        ) {
            Some(i) => {
                &&& r matches Ok(p) && p@ == updated_page(old(store)@.pages[i], req@, now)
                &&& final(store)@ == (PageStoreView {
                    next_id: old(store)@.next_id,
                    pages: old(store)@.pages.update(
                        i,
                        updated_page(old(store)@.pages[i], req@, now),
                    ),
                })
            },
            None => r == Err::<Page, ApiError>(ApiError::PageNotFound) && final(store)@ == old(
                store,
            )@,
        },
{
    if let Err(e) = require_admin_session(state, authorization) {
        return Err(e);
    }
    if let Some(slug) = &req.slug {
        if slug_in_use(&store.pages, slug, Some(id)) {
            return Err(ApiError::SlugInUse);
        }
    }
    proof {
        lemma_position_of::<Page>(views(store.pages@), id);
    }
    let i = match find_index(&store.pages, id) {
        Some(i) => i,
        None => {
            return Err(ApiError::PageNotFound);
        },
    };
    let mut page = store.pages[i].duplicate();
    if let Some(title) = req.title {
        page.title = title;
    }
    if let Some(slug) = req.slug {
        page.slug = slug;
    }
    if let Some(body) = req.body {
        page.body = body;
    }
    if let Some(status) = req.status {
        page.status = status;
    }
    page.updated_at = now;
    let answer = page.duplicate();
    let ghost before = store.pages@;
    store.pages.set(i, page);
    assert(views(store.pages@) =~= views(before).update(i as int, answer@));
    Ok(answer)
}

/// Handles `DELETE /api/pages/:id`: the administrator deletes a page.
pub fn delete_page(state: &AppState, authorization: Option<&str>, store: &mut PageStore, id: u64) -> (r:
    Result<(), ApiError>)
    ensures
        !admits(state@, header_view(authorization)) ==> r == Err::<(), ApiError>(
            ApiError::AdminLoginRequired,
        ) && final(store)@ == old(store)@,
        admits(state@, header_view(authorization)) && !has_id::<Page>(old(store)@.pages, id) ==> r
            == Err::<(), ApiError>(ApiError::PageNotFound) && final(store)@ == old(store)@,
        admits(state@, header_view(authorization)) && has_id::<Page>(old(store)@.pages, id) ==> (r
            is Ok) && final(store)@ == (PageStoreView {
            next_id: old(store)@.next_id,
            pages: without_id::<Page>(old(store)@.pages, id),
        }),
{
    if let Err(e) = require_admin_session(state, authorization) {
        return Err(e);
    }
    if !contains_id(&store.pages, id) {
        return Err(ApiError::PageNotFound);
    }
    remove_with_id(&mut store.pages, id);
    Ok(())
}


/// A store whose pages have distinct ids below the next id to give, and
/// distinct slugs.
pub open spec fn pages_well_formed(s: PageStoreView) -> bool {
    &&& ids_distinct::<Page>(s.pages)
    &&& ids_below::<Page>(s.pages, s.next_id)
    &&& slugs_unique(s.pages)
}

/// Creating a page under a free slug keeps a well-formed store well
/// formed, and the new page is found under its id.
pub proof fn law_create_page_well_formed(
    s: PageStoreView,
    title: Seq<char>,
    slug: Seq<char>,
    body: Seq<char>,
    now: u64,
)
    requires
        pages_well_formed(s),
        s.next_id < u64::MAX,
        !slug_taken(s.pages, slug),
    ensures
        pages_well_formed(after_create_page(s, title, slug, body, now)),
        position_of::<Page>(after_create_page(s, title, slug, body, now).pages, s.next_id) == Some(
            s.pages.len() as int,
        ),
{
    let p = new_page(s.next_id, title, slug, body, now);
    lemma_push_fresh::<Page>(s.pages, p, s.next_id);
    let t = s.pages.push(p);
    assert forall|i: int, j: int| 0 <= i < j < t.len() implies (#[trigger] t[i]).slug != (
    #[trigger] t[j]).slug by {
        assert(t[i] == s.pages[i]);
        if j < s.pages.len() {
            assert(t[j] == s.pages[j]);
        }
    }
}

/// A new page is a draft: lookups by slug answer as before it was made.
pub proof fn law_new_page_hidden_from_slug_lookup(
    s: PageStoreView,
    title: Seq<char>,
    slug: Seq<char>,
    body: Seq<char>,
    now: u64,
    wanted: Seq<char>,
)
    ensures
        page_by_slug(after_create_page(s, title, slug, body, now).pages, wanted) == page_by_slug(
            s.pages,
            wanted,
        ),
{
    lemma_first_where_push(s.pages, published_as(wanted), new_page(s.next_id, title, slug, body, now));
}

/// Editing a page, when its new slug (if any) belongs to no other page,
/// keeps a well-formed store well formed.
pub proof fn law_update_page_well_formed(s: PageStoreView, id: u64, req: UpdatePageView, now: u64)
    requires
        pages_well_formed(s),
        position_of::<Page>(s.pages, id) is Some,
        !(req.slug matches Some(sl) && slug_taken_by_other(s.pages, sl, id)),
    ensures
        ({
            let i = position_of::<Page>(s.pages, id)->0;
            pages_well_formed(
                (PageStoreView {
                    pages: s.pages.update(i, updated_page(s.pages[i], req, now)),
                    ..s
                }),
            )
        }),
{
    lemma_position_of::<Page>(s.pages, id);
    let i = position_of::<Page>(s.pages, id)->0;
    let q = updated_page(s.pages[i], req, now);
    lemma_update_same_id::<Page>(s.pages, i, q, s.next_id);
    let t = s.pages.update(i, q);
    assert forall|a: int, b: int| 0 <= a < b < t.len() implies (#[trigger] t[a]).slug != (
    #[trigger] t[b]).slug by {
        if a == i {
            assert(s.pages[b].id != id);
            assert(t[b] == s.pages[b]);
            if req.slug is None {
                assert(s.pages[a].slug != s.pages[b].slug);
            }
        } else if b == i {
            assert(s.pages[a].id != id);
            assert(t[a] == s.pages[a]);
            if req.slug is None {
                assert(s.pages[a].slug != s.pages[b].slug);
            }
        } else {
            assert(t[a] == s.pages[a] && t[b] == s.pages[b]);
        }
    }
}

/// The lookup by slug only ever finds a published page with that slug.
pub proof fn law_slug_lookup_finds_published(pages: Seq<PageView>, slug: Seq<char>)
    ensures
        page_by_slug(pages, slug) matches Some(i) ==> 0 <= i < pages.len() && pages[i].slug == slug
            && pages[i].status == PageStatus::Published,
{
    lemma_first_where(pages, published_as(slug));
}

/// When slugs are unique, a published page is what the lookup by its
/// slug finds.
pub proof fn law_published_page_found_by_slug(pages: Seq<PageView>, i: int)
    requires
        slugs_unique(pages),
        0 <= i < pages.len(),
        pages[i].status == PageStatus::Published,
    ensures
        page_by_slug(pages, pages[i].slug) == Some(i),
{
    let pred = published_as(pages[i].slug);
    assert forall|j: int| 0 <= j < i implies !pred(#[trigger] pages[j]) by {
        assert(pages[j].slug != pages[i].slug);
    }
    assert(is_first_where(pages, pred, i));
    lemma_first_where(pages, pred);
}

/// When slugs are unique, once the page with a slug is deleted, the
/// lookup by that slug finds nothing.
pub proof fn law_deleted_page_gone_from_slug_lookup(pages: Seq<PageView>, k: int)
    requires
        slugs_unique(pages),
        0 <= k < pages.len(),
    ensures
        page_by_slug(without_id::<Page>(pages, pages[k].id), pages[k].slug) is None,
{
    broadcast use vstd::seq_lib::group_filter_ensures;

    let id = pages[k].id;
    let f = without_id::<Page>(pages, id);
    let pred = published_as(pages[k].slug);
    assert forall|i: int| 0 <= i < f.len() implies !pred(#[trigger] f[i]) by {
        assert(f.contains(f[i]));
        pages.lemma_filter_contains_rev(crate::records::id_differs::<Page>(id), f[i]);
        let j = choose|j: int| 0 <= j < pages.len() && pages[j] == f[i];
        assert(crate::records::id_differs::<Page>(id)(f[i]));
        if f[i].slug == pages[k].slug {
            if j < k {
                assert(pages[j].slug != pages[k].slug);
            } else if k < j {
                assert(pages[k].slug != pages[j].slug);
            }
        }
    }
    lemma_first_where(f, pred);
}

/// Deleting a page keeps the store well formed.
pub proof fn law_delete_page_well_formed(s: PageStoreView, id: u64)
    requires
        pages_well_formed(s),
    ensures
        pages_well_formed((PageStoreView { pages: without_id::<Page>(s.pages, id), ..s })),
        position_of::<Page>(without_id::<Page>(s.pages, id), id) is None,
{
    lemma_without_id_keeps_ids::<Page>(s.pages, id, s.next_id);
    lemma_without_id_lacks::<Page>(s.pages, id);
    lemma_position_of::<Page>(without_id::<Page>(s.pages, id), id);
    lemma_filter_keeps_slugs(s.pages, crate::records::id_differs::<Page>(id));
}

proof fn lemma_filter_keeps_slugs(s: Seq<PageView>, pred: spec_fn(PageView) -> bool)
    requires
        slugs_unique(s),
    ensures
        slugs_unique(s.filter(pred)),
    decreases s.len(),
{
    reveal(Seq::filter);
    if s.len() > 0 {
        let d = s.drop_last();
        assert forall|i: int, j: int| 0 <= i < j < d.len() implies (#[trigger] d[i]).slug != (
        #[trigger] d[j]).slug by {
            assert(d[i] == s[i] && d[j] == s[j]);
        }
        lemma_filter_keeps_slugs(d, pred);
        let fd = d.filter(pred);
        if pred(s.last()) {
            let f = s.filter(pred);
            assert forall|i: int, j: int| 0 <= i < j < f.len() implies (#[trigger] f[i]).slug != (
            #[trigger] f[j]).slug by {
                if j == f.len() - 1 {
                    assert(fd.contains(fd[i]));
                    d.lemma_filter_contains_rev(pred, fd[i]);
                    let k = choose|k: int| 0 <= k < d.len() && d[k] == fd[i];
                    assert(s[k] == d[k]);
                    assert(f[i] == fd[i]);
                } else {
                    assert(f[i] == fd[i] && f[j] == fd[j]);
                }
            }
        }
    }
}


/// An edit sets each field that the request names to the value given,
/// keeps each field it does not name, keeps the id and the creation time,
/// and stamps the edit time.
pub proof fn law_update_page_sets_named_fields(p: PageView, req: UpdatePageView, now: u64)
    ensures
        ({
            let q = updated_page(p, req, now);
            &&& q.id == p.id
            &&& q.created_at == p.created_at
            &&& q.updated_at == now
            &&& (req.title matches Some(t) ==> q.title == t)
            &&& (req.title is None ==> q.title == p.title)
            &&& (req.slug matches Some(sl) ==> q.slug == sl)
            &&& (req.slug is None ==> q.slug == p.slug)
            &&& (req.body matches Some(b) ==> q.body == b)
            &&& (req.body is None ==> q.body == p.body)
            &&& (req.status matches Some(st) ==> q.status == st)
            &&& (req.status is None ==> q.status == p.status)
        }),
{
}

/// A slug counts as taken exactly when some page has that very slug; a
/// slug that merely begins or ends like another page's is free.
pub proof fn law_slug_taken_exact(pages: Seq<PageView>, slug: Seq<char>)
    ensures
        slug_taken(pages, slug) <==> exists|i: int| 0 <= i < pages.len() && pages[i].slug == slug,
        (forall|i: int| 0 <= i < pages.len() ==> (#[trigger] pages[i]).slug != slug) ==> !slug_taken(
            pages,
            slug,
        ),
{
}

/// A new slug clashes on an edit exactly when a page with another id has
/// that very slug.
pub proof fn law_slug_taken_by_other_exact(pages: Seq<PageView>, slug: Seq<char>, id: u64)
    ensures
        slug_taken_by_other(pages, slug, id) <==> exists|i: int|
            0 <= i < pages.len() && pages[i].id != id && pages[i].slug == slug,
        (forall|i: int| 0 <= i < pages.len() && (#[trigger] pages[i]).id != id ==> pages[i].slug
            != slug) ==> !slug_taken_by_other(pages, slug, id),
{
}

/// A new page is a draft with the next id and the request's title, slug
/// and body, created and stamped at `now`; creation appends it after the
/// pages already there, which stay as they were.
pub proof fn law_new_page_fields(
    s: PageStoreView,
    title: Seq<char>,
    slug: Seq<char>,
    body: Seq<char>,
    now: u64,
)
    ensures
        ({
            let t = after_create_page(s, title, slug, body, now);
            let q = t.pages[s.pages.len() as int];
            &&& t.pages.len() == s.pages.len() + 1
            &&& forall|i: int| 0 <= i < s.pages.len() ==> #[trigger] t.pages[i] == s.pages[i]
            &&& q.id == s.next_id
            &&& q.title == title
            &&& q.slug == slug
            &&& q.body == body
            &&& q.status == PageStatus::Draft
            &&& q.created_at == now
            &&& q.updated_at == now
        }),
{
}

} // verus!
