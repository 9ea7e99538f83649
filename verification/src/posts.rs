//! Blog posts: created as drafts by the administrator, listed with
//! optional category and tag filters, edited field by field, deleted.

use vstd::prelude::*;
use crate::api::ApiError;
use crate::auth::{admits, header_view, require_admin_session, AppState};
use crate::records::{
    contains_id, contains_u64, copy_by_id, copy_ids, find_index, has_id, ids_below, ids_distinct,
    lemma_position_of, lemma_push_fresh, lemma_update_same_id, lemma_without_id_keeps_ids,
    lemma_without_id_lacks, position_of, remove_with_id, views, without_id, Record,
};
use crate::text::{is_blank, is_blank_str, query_param, query_param_u64};

verus! {

/// Whether a post is only a draft or published.
#[derive(Clone, Copy, Debug, PartialEq, Eq, Structural)]
pub enum PostStatus {
    Draft,
    Published,
}

/// A blog post.
pub struct Post {
    pub id: u64,
    pub title: String,
    pub body: String,
    pub status: PostStatus,
    pub categories: Vec<u64>,
    pub tags: Vec<u64>,
    pub created_at: u64,
    pub updated_at: u64,
}

pub struct PostView {
    pub id: u64,
    pub title: Seq<char>,
    pub body: Seq<char>,
    pub status: PostStatus,
    pub categories: Seq<u64>,
    pub tags: Seq<u64>,
    pub created_at: u64,
    pub updated_at: u64,
}

impl View for Post {
    type V = PostView;

    open spec fn view(&self) -> PostView {
        PostView {
            id: self.id,
            title: self.title@,
            body: self.body@,
            status: self.status,
            categories: self.categories@,
            tags: self.tags@,
            created_at: self.created_at,
            updated_at: self.updated_at,
        }
    }
}

impl Record for Post {
    open spec fn key_of(v: PostView) -> u64 {
        v.id
    }

    fn id(&self) -> (r: u64) {
        self.id
    }

    fn duplicate(&self) -> (r: Post) {
        Post {
            id: self.id,
            title: self.title.clone(),
            body: self.body.clone(),
            status: self.status,
            categories: copy_ids(&self.categories),
            tags: copy_ids(&self.tags),
            created_at: self.created_at,
            updated_at: self.updated_at,
        }
    }
}

/// All posts, and the id that the next one gets.
pub struct PostStore {
    pub next_id: u64,
    pub posts: Vec<Post>,
}

pub struct PostStoreView {
    pub next_id: u64,
    pub posts: Seq<PostView>,
}

impl View for PostStore {
    type V = PostStoreView;

    open spec fn view(&self) -> PostStoreView {
        PostStoreView { next_id: self.next_id, posts: views(self.posts@) }
    }
}

impl PostStore {
    /// A store with no posts, whose first post gets id 0.
    pub fn new() -> (r: PostStore)
        ensures
            r@.next_id == 0,
            r@.posts == Seq::<PostView>::empty(),
    {
        let r = PostStore { next_id: 0, posts: Vec::new() };
        assert(r@.posts =~= Seq::<PostView>::empty());
        r
    }
}

/// The fields of a new post.
pub struct CreatePostRequest {
    pub title: String,
    pub body: String,
    pub categories: Vec<u64>,
    pub tags: Vec<u64>,
}

pub struct CreatePostView {
    pub title: Seq<char>,
    pub body: Seq<char>,
    pub categories: Seq<u64>,
    pub tags: Seq<u64>,
}

impl View for CreatePostRequest {
    type V = CreatePostView;

    open spec fn view(&self) -> CreatePostView {
        CreatePostView {
            title: self.title@,
            body: self.body@,
            categories: self.categories@,
            tags: self.tags@,
        }
    }
}

/// The fields of a post to change; the others stay.
pub struct UpdatePostRequest {
    pub title: Option<String>,
    pub body: Option<String>,
    pub status: Option<PostStatus>,
    pub categories: Option<Vec<u64>>,
    pub tags: Option<Vec<u64>>,
}

pub struct UpdatePostView {
    pub title: Option<Seq<char>>,
    pub body: Option<Seq<char>>,
    pub status: Option<PostStatus>,
    pub categories: Option<Seq<u64>>,
    pub tags: Option<Seq<u64>>,
}

pub open spec fn opt_string_view(o: Option<String>) -> Option<Seq<char>> {
    match o {
        Some(s) => Some(s@),
        None => None,
    }
}

pub open spec fn opt_ids_view(o: Option<Vec<u64>>) -> Option<Seq<u64>> {
    match o {
        Some(v) => Some(v@),
        None => None,
    }
}

impl View for UpdatePostRequest {
    type V = UpdatePostView;

    open spec fn view(&self) -> UpdatePostView {
        UpdatePostView {
            title: opt_string_view(self.title),
            body: opt_string_view(self.body),
            status: self.status,
            categories: opt_ids_view(self.categories),
            tags: opt_ids_view(self.tags),
        }
    }
}

/// The post that a creation at time `now` makes: a draft with the next id.
pub open spec fn new_post(id: u64, req: CreatePostView, now: u64) -> PostView {
    PostView {
        id,
        title: req.title,
        body: req.body,
        status: PostStatus::Draft,
        categories: req.categories,
        tags: req.tags,
        created_at: now,
        updated_at: now,
    }
}

/// The store after a post is created from `req` at time `now`.
pub open spec fn after_create_post(s: PostStoreView, req: CreatePostView, now: u64) -> PostStoreView {
    PostStoreView {
        next_id: (s.next_id + 1) as u64,
        posts: s.posts.push(new_post(s.next_id, req, now)),
    }
}

/// `p` with the fields that `req` names replaced, stamped at `now`.
pub open spec fn updated_post(p: PostView, req: UpdatePostView, now: u64) -> PostView {
    PostView {
        title: match req.title {
            Some(t) => t,
            None => p.title,
        },
        body: match req.body {
            Some(b) => b,
            None => p.body,
        },
        status: match req.status {
            Some(st) => st,
            None => p.status,
        },
        categories: match req.categories {
            Some(c) => c,
            None => p.categories,
        },
        tags: match req.tags {
            Some(t) => t,
            None => p.tags,
        },
        updated_at: now,
        ..p
    }
}

/// Whether a post passes the optional category and tag filters.
pub open spec fn passes_filters(p: PostView, category: Option<u64>, tag: Option<u64>) -> bool {
    &&& (category matches Some(c) ==> p.categories.contains(c))
    &&& (tag matches Some(t) ==> p.tags.contains(t))
}

/// The posts that a listing with the optional filters shows, in order.
pub open spec fn listed_posts(posts: Seq<PostView>, category: Option<u64>, tag: Option<u64>) -> Seq<
    PostView,
> {
    posts.filter(|p: PostView| passes_filters(p, category, tag))
}

/// The value that an optional query string gives for `key`.
pub open spec fn query_filter(query: Option<Seq<char>>, key: Seq<char>) -> Option<u64> {
    match query {
        Some(q) => query_param(q, key),
        None => None,
    }
}

/// Handles `POST /api/posts`: the administrator creates a draft post at
/// time `now`; its title must not be blank.
pub fn create_post(
    state: &AppState,
    authorization: Option<&str>,
    store: &mut PostStore,
    req: CreatePostRequest,
    now: u64,
) -> (r: Result<Post, ApiError>)
    requires
        admits(state@, header_view(authorization)) && !is_blank(req@.title) ==> old(
            store,
        ).next_id < u64::MAX,
    ensures
        !admits(state@, header_view(authorization)) ==> r == Err::<Post, ApiError>(
            ApiError::AdminLoginRequired,
        ) && final(store)@ == old(store)@,
        admits(state@, header_view(authorization)) && is_blank(req@.title) ==> r == Err::<
            Post,
            ApiError,
        >(ApiError::TitleEmpty) && final(store)@ == old(store)@,
        admits(state@, header_view(authorization)) && !is_blank(req@.title) ==> {
            &&& r matches Ok(p) && p@ == new_post(old(store)@.next_id, req@, now)
            &&& final(store)@ == after_create_post(old(store)@, req@, now)
        },
{
    if let Err(e) = require_admin_session(state, authorization) {
        return Err(e);
    }
    if is_blank_str(req.title.as_str()) {
        return Err(ApiError::TitleEmpty);
    }
    let id = store.next_id;
    store.next_id = id + 1;
    let post = Post {
        id,
        title: req.title,
        body: req.body,
        status: PostStatus::Draft,
        categories: req.categories,
        tags: req.tags,
        created_at: now,
        updated_at: now,
    };
    let answer = post.duplicate();
    let ghost before = store.posts@;
    store.posts.push(post);
    assert(views(store.posts@) =~= views(before).push(answer@));
    Ok(answer)
}

/// Copies of the posts that pass the optional filters, in order.
fn filter_posts(posts: &Vec<Post>, category: Option<u64>, tag: Option<u64>) -> (r: Vec<Post>)
    ensures
        views(r@) == listed_posts(views(posts@), category, tag),
{
    let ghost s = views(posts@);
    let mut r: Vec<Post> = Vec::new();
    let n = posts.len();
    let mut i: usize = 0;
    assert(views(r@) =~= listed_posts(s.take(0), category, tag)) by {
        reveal(Seq::filter);
    }
    while i < n
        invariant
            n == posts@.len(),
            s == views(posts@),
            i <= n,
            views(r@) == listed_posts(s.take(i as int), category, tag),
        decreases n - i,
    {
        let p = &posts[i];
        assert(s[i as int] == p@);
        assert(s.take(i + 1).drop_last() =~= s.take(i as int));
        assert(s.take(i + 1).last() == s[i as int]);
        let in_category = match category {
            Some(c) => contains_u64(&p.categories, c),
            None => true,
        };
        let in_tag = match tag {
            Some(t) => contains_u64(&p.tags, t),
            None => true,
        };
        assert(listed_posts(s.take(i + 1), category, tag) == if passes_filters(
            s[i as int],
            category,
            tag,
        ) {
            listed_posts(s.take(i as int), category, tag).push(s[i as int])
        } else {
            listed_posts(s.take(i as int), category, tag)
        }) by {
            reveal(Seq::filter);
        }
        if in_category && in_tag {
            let ghost before = r@;
            r.push(p.duplicate());
            assert(views(r@) =~= views(before).push(s[i as int]));
        }
        i += 1;
    }
    assert(s.take(n as int) =~= s);
    r
}

/// Handles `GET /api/posts`: the administrator lists the posts, narrowed
/// by the `category=<id>` and `tag=<id>` query parameters when given.
pub fn list_posts(state: &AppState, authorization: Option<&str>, store: &PostStore, query: Option<
    &str,
>) -> (r: Result<Vec<Post>, ApiError>)
    ensures
        !admits(state@, header_view(authorization)) ==> r == Err::<Vec<Post>, ApiError>(
            ApiError::AdminLoginRequired,
        ),
        admits(state@, header_view(authorization)) ==> (r matches Ok(v) && views(v@)
            == listed_posts(
            store@.posts,
            query_filter(header_view(query), "category="@),
            query_filter(header_view(query), "tag="@),
        )),
{
    if let Err(e) = require_admin_session(state, authorization) {
        return Err(e);
    }
    let category = match query {
        Some(q) => query_param_u64(q, "category="),
        None => None,
    };
    let tag = match query {
        Some(q) => query_param_u64(q, "tag="),
        None => None,
    };
    Ok(filter_posts(&store.posts, category, tag))
}

/// Handles `GET /api/posts/:id`: the administrator reads one post.
pub fn get_post(state: &AppState, authorization: Option<&str>, store: &PostStore, id: u64) -> (r:
    Result<Post, ApiError>)
    ensures
        !admits(state@, header_view(authorization)) ==> r == Err::<Post, ApiError>(
            ApiError::AdminLoginRequired,
        ),
        admits(state@, header_view(authorization)) ==> match position_of::<Post>(
            store@.posts,
            id,
        ) {
            Some(i) => r matches Ok(p) && p@ == store@.posts[i],
            None => r == Err::<Post, ApiError>(ApiError::PostNotFound),
        },
{
    if let Err(e) = require_admin_session(state, authorization) {
        return Err(e);
    }
    match copy_by_id(&store.posts, id) {
        Some(p) => Ok(p),
        None => Err(ApiError::PostNotFound),
    }
}

/// Handles `PUT /api/posts/:id`: the administrator changes the fields of a
/// post that `req` names, at time `now`.
pub fn update_post(
    state: &AppState,
    authorization: Option<&str>,
    store: &mut PostStore,
    id: u64,
    req: UpdatePostRequest,
    now: u64,
) -> (r: Result<Post, ApiError>)
    ensures
        !admits(state@, header_view(authorization)) ==> r == Err::<Post, ApiError>(
            ApiError::AdminLoginRequired,
        ) && final(store)@ == old(store)@,
        admits(state@, header_view(authorization)) ==> match position_of::<Post>(
            old(store)@.posts,
            id,
        ) {
            Some(i) => {
                &&& r matches Ok(p) && p@ == updated_post(old(store)@.posts[i], req@, now)
                &&& final(store)@ == (PostStoreView {
                    next_id: old(store)@.next_id,
                    posts: old(store)@.posts.update(
                        i,
                        updated_post(old(store)@.posts[i], req@, now),
                    ),
                })
            },
            None => r == Err::<Post, ApiError>(ApiError::PostNotFound) && final(store)@ == old(
                store,
            )@,
        },
{
    if let Err(e) = require_admin_session(state, authorization) {
        return Err(e);
    }
    proof {
        lemma_position_of::<Post>(views(store.posts@), id);
    }
    let i = match find_index(&store.posts, id) {
        Some(i) => i,
        None => {
            return Err(ApiError::PostNotFound);
        },
    };
    let mut post = store.posts[i].duplicate();
    if let Some(title) = req.title {
        post.title = title;
    }
    if let Some(body) = req.body {
        post.body = body;
    }
    if let Some(status) = req.status {
        post.status = status;
    }
    if let Some(categories) = req.categories {
        post.categories = categories;
    }
    if let Some(tags) = req.tags {
        post.tags = tags;
    }
    post.updated_at = now;
    let answer = post.duplicate();
    let ghost before = store.posts@;
    store.posts.set(i, post);
    assert(views(store.posts@) =~= views(before).update(i as int, answer@));
    Ok(answer)
}

/// Handles `DELETE /api/posts/:id`: the administrator deletes a post.
pub fn delete_post(state: &AppState, authorization: Option<&str>, store: &mut PostStore, id: u64) -> (r:
    Result<(), ApiError>)
    ensures
        !admits(state@, header_view(authorization)) ==> r == Err::<(), ApiError>(
            ApiError::AdminLoginRequired,
        ) && final(store)@ == old(store)@,
        admits(state@, header_view(authorization)) && !has_id::<Post>(old(store)@.posts, id) ==> r
            == Err::<(), ApiError>(ApiError::PostNotFound) && final(store)@ == old(store)@,
        admits(state@, header_view(authorization)) && has_id::<Post>(old(store)@.posts, id) ==> (r
            is Ok) && final(store)@ == (PostStoreView {
            next_id: old(store)@.next_id,
            posts: without_id::<Post>(old(store)@.posts, id),
        }),
{
    if let Err(e) = require_admin_session(state, authorization) {
        return Err(e);
    }
    if !contains_id(&store.posts, id) {
        return Err(ApiError::PostNotFound);
    }
    remove_with_id(&mut store.posts, id);
    Ok(())
}


/// A store whose posts have distinct ids, all below the next id to give.
pub open spec fn posts_well_formed(s: PostStoreView) -> bool {
    ids_distinct::<Post>(s.posts) && ids_below::<Post>(s.posts, s.next_id)
}

/// Creating a post keeps the ids of a well-formed store distinct, and the
/// new post is the one found under its id.
pub proof fn law_create_post_well_formed(s: PostStoreView, req: CreatePostView, now: u64)
    requires
        posts_well_formed(s),
        s.next_id < u64::MAX,
    ensures
        posts_well_formed(after_create_post(s, req, now)),
        position_of::<Post>(after_create_post(s, req, now).posts, s.next_id) == Some(
            s.posts.len() as int,
        ),
        after_create_post(s, req, now).posts[s.posts.len() as int] == new_post(s.next_id, req, now),
{
    lemma_push_fresh::<Post>(s.posts, new_post(s.next_id, req, now), s.next_id);
}

/// Editing a post keeps the store well formed, and the edited post is the
/// one found under its id afterwards.
pub proof fn law_update_post_well_formed(s: PostStoreView, id: u64, req: UpdatePostView, now: u64)
    requires
        position_of::<Post>(s.posts, id) is Some,
    ensures
        ({
            let i = position_of::<Post>(s.posts, id)->0;
            let t = s.posts.update(i, updated_post(s.posts[i], req, now));
            &&& posts_well_formed(s) ==> posts_well_formed(PostStoreView { posts: t, ..s })
            &&& position_of::<Post>(t, id) == Some(i)
            &&& t[i] == updated_post(s.posts[i], req, now)
        }),
{
    lemma_position_of::<Post>(s.posts, id);
    let i = position_of::<Post>(s.posts, id)->0;
    lemma_update_same_id::<Post>(s.posts, i, updated_post(s.posts[i], req, now), s.next_id);
}

/// Deleting a post keeps the store well formed, and no post with its id
/// is left.
pub proof fn law_delete_post_well_formed(s: PostStoreView, id: u64)
    ensures
        posts_well_formed(s) ==> posts_well_formed(
            PostStoreView { posts: without_id::<Post>(s.posts, id), ..s },
        ),
        position_of::<Post>(without_id::<Post>(s.posts, id), id) is None,
{
    if posts_well_formed(s) {
        lemma_without_id_keeps_ids::<Post>(s.posts, id, s.next_id);
    }
    lemma_without_id_lacks::<Post>(s.posts, id);
    lemma_position_of::<Post>(without_id::<Post>(s.posts, id), id);
}

/// A listing without filters shows every post, in order.
pub proof fn law_unfiltered_listing_shows_all(posts: Seq<PostView>)
    ensures
        listed_posts(posts, None, None) == posts,
    decreases posts.len(),
{
    reveal(Seq::filter);
    if posts.len() > 0 {
        law_unfiltered_listing_shows_all(posts.drop_last());
        assert(posts.drop_last().push(posts.last()) =~= posts);
    }
}

/// A new post shows in a filtered listing, at its end, exactly when it
/// has the category and tag asked for.
pub proof fn law_listing_after_create(
    s: PostStoreView,
    req: CreatePostView,
    now: u64,
    category: Option<u64>,
    tag: Option<u64>,
)
    ensures
        ({
            let p = new_post(s.next_id, req, now);
            listed_posts(after_create_post(s, req, now).posts, category, tag) == if passes_filters(
                p,
                category,
                tag,
            ) {
                listed_posts(s.posts, category, tag).push(p)
            } else {
                listed_posts(s.posts, category, tag)
            }
        }),
{
    reveal(Seq::filter);
    let p = new_post(s.next_id, req, now);
    assert(s.posts.push(p).drop_last() =~= s.posts);
}

/// A listing filtered by category shows exactly the posts with that
/// category.
pub proof fn law_category_filter_exact(posts: Seq<PostView>, c: u64, p: PostView)
    ensures
        listed_posts(posts, Some(c), None).contains(p) <==> posts.contains(p)
            && p.categories.contains(c),
{
    broadcast use vstd::seq_lib::group_filter_ensures;

    let f = |q: PostView| passes_filters(q, Some(c), None);
    if listed_posts(posts, Some(c), None).contains(p) {
        posts.lemma_filter_contains_rev(f, p);
        let i = choose|i: int|
            0 <= i < listed_posts(posts, Some(c), None).len() && listed_posts(
                posts,
                Some(c),
                None,
            )[i] == p;
        assert(f(listed_posts(posts, Some(c), None)[i]));
    }
    if posts.contains(p) && p.categories.contains(c) {
        let i = choose|i: int| 0 <= i < posts.len() && posts[i] == p;
        assert(f(posts[i]));
    }
}


/// A listing with optional category and tag filters shows a post exactly
/// when the post is in the store, has the category asked for (if any) and
/// carries the tag asked for (if any).
pub proof fn law_listing_filters_exact(
    posts: Seq<PostView>,
    category: Option<u64>,
    tag: Option<u64>,
    p: PostView,
)
    ensures
        listed_posts(posts, category, tag).contains(p) <==> {
            &&& posts.contains(p)
            &&& (category matches Some(c) ==> p.categories.contains(c))
            &&& (tag matches Some(t) ==> p.tags.contains(t))
        },
{
    broadcast use vstd::seq_lib::group_filter_ensures;

    let f = |q: PostView| passes_filters(q, category, tag);
    let l = listed_posts(posts, category, tag);
    if l.contains(p) {
        posts.lemma_filter_contains_rev(f, p);
        let i = choose|i: int| 0 <= i < l.len() && l[i] == p;
        assert(f(l[i]));
    }
    if posts.contains(p) && (category matches Some(c) ==> p.categories.contains(c)) && (
    tag matches Some(t) ==> p.tags.contains(t)) {
        let i = choose|i: int| 0 <= i < posts.len() && posts[i] == p;
        assert(f(posts[i]));
    }
}

/// A listing filtered by tag alone shows exactly the posts that carry the
/// tag, wherever it stands among their tags.
pub proof fn law_tag_filter_exact(posts: Seq<PostView>, t: u64, p: PostView)
    ensures
        listed_posts(posts, None, Some(t)).contains(p) <==> posts.contains(p) && p.tags.contains(t),
{
    law_listing_filters_exact(posts, None, Some(t), p);
}

/// An edit sets each field that the request names to the value given,
/// keeps each field it does not name, keeps the id and the creation time,
/// and stamps the edit time.
pub proof fn law_update_post_sets_named_fields(p: PostView, req: UpdatePostView, now: u64)
    ensures
        ({
            let q = updated_post(p, req, now);
            &&& q.id == p.id
            &&& q.created_at == p.created_at
            &&& q.updated_at == now
            &&& (req.title matches Some(t) ==> q.title == t)
            &&& (req.title is None ==> q.title == p.title)
            &&& (req.body matches Some(b) ==> q.body == b)
            &&& (req.body is None ==> q.body == p.body)
            &&& (req.status matches Some(st) ==> q.status == st)
            &&& (req.status is None ==> q.status == p.status)
            &&& (req.categories matches Some(c) ==> q.categories == c)
            &&& (req.categories is None ==> q.categories == p.categories)
            &&& (req.tags matches Some(t) ==> q.tags == t)
            &&& (req.tags is None ==> q.tags == p.tags)
        }),
{
}

/// A new post is a draft with the next id, the request's title, body,
/// categories and tags, created and stamped at `now`; creation appends it
/// after the posts already there, which stay as they were.
pub proof fn law_new_post_fields(s: PostStoreView, req: CreatePostView, now: u64)
    ensures
        ({
            let t = after_create_post(s, req, now);
            let q = t.posts[s.posts.len() as int];
            &&& t.posts.len() == s.posts.len() + 1
            &&& forall|i: int| 0 <= i < s.posts.len() ==> #[trigger] t.posts[i] == s.posts[i]
            &&& q.id == s.next_id
            &&& q.title == req.title
            &&& q.body == req.body
            &&& q.status == PostStatus::Draft
            &&& q.categories == req.categories
            &&& q.tags == req.tags
            &&& q.created_at == now
            &&& q.updated_at == now
            &&& t.next_id == s.next_id + 1 || s.next_id == u64::MAX
        }),
{
}

} // verus!
