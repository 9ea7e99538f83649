//! Comments on posts: anyone may write one, but it waits unapproved, out
//! of the public listing, until the administrator approves it.

use vstd::prelude::*;
use crate::api::ApiError;
use crate::auth::{admits, header_view, require_admin_session, AppState};
use crate::posts::{Post, PostStore};
use crate::records::{
    contains_id, copy_all, find_index, has_id, ids_below, ids_distinct, lemma_position_of,
    lemma_push_fresh, lemma_update_same_id, lemma_without_id_keeps_ids, lemma_without_id_lacks,
    position_of, remove_with_id, views, without_id, Record,
};
use crate::text::{is_blank, is_blank_str};

verus! {

/// A comment on a post.
pub struct Comment {
    pub id: u64,
    pub post_id: u64,
    pub author_name: String,
    pub body: String,
    pub created_at: u64,
    pub approved: bool,
}

pub struct CommentView {
    pub id: u64,
    pub post_id: u64,
    pub author_name: Seq<char>,
    pub body: Seq<char>,
    pub created_at: u64,
    pub approved: bool,
}

impl View for Comment {
    type V = CommentView;

    open spec fn view(&self) -> CommentView {
        CommentView {
            id: self.id,
            post_id: self.post_id,
            author_name: self.author_name@,
            body: self.body@,
            created_at: self.created_at,
            approved: self.approved,
        }
    }
}

impl Record for Comment {
    open spec fn key_of(v: CommentView) -> u64 {
        v.id
    }

    fn id(&self) -> (r: u64) {
        self.id
    }

    fn duplicate(&self) -> (r: Comment) {
        Comment {
            id: self.id,
            post_id: self.post_id,
            author_name: self.author_name.clone(),
            body: self.body.clone(),
            created_at: self.created_at,
            approved: self.approved,
        }
    }
}

/// All comments, and the id that the next one gets.
pub struct CommentStore {
    pub next_id: u64,
    pub comments: Vec<Comment>,
}

pub struct CommentStoreView {
    pub next_id: u64,
    pub comments: Seq<CommentView>,
}

impl View for CommentStore {
    type V = CommentStoreView;

    open spec fn view(&self) -> CommentStoreView {
        CommentStoreView { next_id: self.next_id, comments: views(self.comments@) }
    }
}

impl CommentStore {
    /// A store with no comments, whose first comment gets id 0.
    pub fn new() -> (r: CommentStore)
        ensures
            r@.next_id == 0,
            r@.comments == Seq::<CommentView>::empty(),
    {
        let r = CommentStore { next_id: 0, comments: Vec::new() };
        assert(r@.comments =~= Seq::<CommentView>::empty());
        r
    }
}

/// The fields of a new comment.
pub struct CreateCommentRequest {
    pub author_name: String,
    pub body: String,
}

/// The comment that a creation at time `now` makes: unapproved, with the
/// next id.
pub open spec fn new_comment(id: u64, post_id: u64, author_name: Seq<char>, body: Seq<char>, now: u64) -> CommentView {
    CommentView { id, post_id, author_name, body, created_at: now, approved: false }
}

/// The store after a comment is created.
pub open spec fn after_create_comment(
    s: CommentStoreView,
    post_id: u64,
    author_name: Seq<char>,
    body: Seq<char>,
    now: u64,
) -> CommentStoreView {
    CommentStoreView {
        next_id: (s.next_id + 1) as u64,
        comments: s.comments.push(new_comment(s.next_id, post_id, author_name, body, now)),
    }
}

/// The comment once approved.
pub open spec fn approved(c: CommentView) -> CommentView {
    CommentView { approved: true, ..c }
}

/// Whether a comment is on the post and approved.
pub open spec fn shown_on(post_id: u64) -> spec_fn(CommentView) -> bool {
    |c: CommentView| c.post_id == post_id && c.approved
}

/// The comments that the public listing of a post shows, in order.
pub open spec fn visible_comments(comments: Seq<CommentView>, post_id: u64) -> Seq<CommentView> {
    comments.filter(shown_on(post_id))
}

/// Handles `POST /api/posts/:id/comments`, open to anyone: adds an
/// unapproved comment to an existing post at time `now`; author name and
/// body must not be blank.
pub fn create_comment(
    posts: &PostStore,
    store: &mut CommentStore,
    post_id: u64,
    req: CreateCommentRequest,
    now: u64,
) -> (r: Result<Comment, ApiError>)
    requires
        !is_blank(req.author_name@) && !is_blank(req.body@) && has_id::<Post>(posts@.posts, post_id)
            ==> old(store).next_id < u64::MAX,
    ensures
        is_blank(req.author_name@) || is_blank(req.body@) ==> r == Err::<Comment, ApiError>(
            ApiError::AuthorOrBodyEmpty,
        ) && final(store)@ == old(store)@,
        !is_blank(req.author_name@) && !is_blank(req.body@) && !has_id::<Post>(
            posts@.posts,
            post_id,
        ) ==> r == Err::<Comment, ApiError>(ApiError::PostNotFound) && final(store)@ == old(
            store,
        )@,
        !is_blank(req.author_name@) && !is_blank(req.body@) && has_id::<Post>(posts@.posts, post_id)
            ==> {
            &&& r matches Ok(c) && c@ == new_comment(
                old(store)@.next_id,
                post_id,
                req.author_name@,
                req.body@,
                now,
            )
            &&& final(store)@ == after_create_comment(
                old(store)@,
                post_id,
                req.author_name@,
                req.body@,
                now,
            )
        },
{
    if is_blank_str(req.author_name.as_str()) || is_blank_str(req.body.as_str()) {
        return Err(ApiError::AuthorOrBodyEmpty);
    }
    if !contains_id(&posts.posts, post_id) {
        return Err(ApiError::PostNotFound);
    }
    let id = store.next_id;
    store.next_id = id + 1;
    let comment = Comment {
        id,
        post_id,
        author_name: req.author_name,
        body: req.body,
        created_at: now,
        approved: false,
    };
    let answer = comment.duplicate();
    let ghost before = store.comments@;
    store.comments.push(comment);
    assert(views(store.comments@) =~= views(before).push(answer@));
    Ok(answer)
}

/// Handles `GET /api/posts/:id/comments`, open to anyone: the approved
/// comments of the post, in order; unapproved ones are never shown here.
pub fn list_post_comments(store: &CommentStore, post_id: u64) -> (r: Vec<Comment>)
    ensures
        views(r@) == visible_comments(store@.comments, post_id),
{
    let ghost s = store@.comments;
    let mut r: Vec<Comment> = Vec::new();
    let n = store.comments.len();
    let mut i: usize = 0;
    assert(views(r@) =~= visible_comments(s.take(0), post_id)) by {
        reveal(Seq::filter);
    }
    while i < n
        invariant
            n == store.comments@.len(),
            s == store@.comments,
            i <= n,
            views(r@) == visible_comments(s.take(i as int), post_id),
        decreases n - i,
    {
        let c = &store.comments[i];
        assert(s[i as int] == c@);
        assert(s.take(i + 1).drop_last() =~= s.take(i as int));
        assert(s.take(i + 1).last() == s[i as int]);
        assert(visible_comments(s.take(i + 1), post_id) == if shown_on(post_id)(s[i as int]) {
            visible_comments(s.take(i as int), post_id).push(s[i as int])
        } else {
            visible_comments(s.take(i as int), post_id)
        }) by {
            reveal(Seq::filter);
        }
        if c.post_id == post_id && c.approved {
            let ghost before = r@;
            r.push(c.duplicate());
            assert(views(r@) =~= views(before).push(s[i as int]));
        }
        i += 1;
    }
    assert(s.take(n as int) =~= s);
    r
}

/// Handles `GET /api/comments`: the administrator lists every comment,
/// approved or not, in order.
pub fn list_all_comments(state: &AppState, authorization: Option<&str>, store: &CommentStore) -> (r:
    Result<Vec<Comment>, ApiError>)
    ensures
        !admits(state@, header_view(authorization)) ==> r == Err::<Vec<Comment>, ApiError>(
            ApiError::AdminLoginRequired,
        ),
        admits(state@, header_view(authorization)) ==> (r matches Ok(v) && views(v@)
            == store@.comments),
{
    if let Err(e) = require_admin_session(state, authorization) {
        return Err(e);
    }
    Ok(copy_all(&store.comments))
}

/// Handles `POST /api/comments/:id/approve`: the administrator approves a
/// comment.
pub fn approve_comment(state: &AppState, authorization: Option<&str>, store: &mut CommentStore, id: u64) -> (r:
    Result<Comment, ApiError>)
    ensures
        !admits(state@, header_view(authorization)) ==> r == Err::<Comment, ApiError>(
            ApiError::AdminLoginRequired,
        ) && final(store)@ == old(store)@,
        admits(state@, header_view(authorization)) ==> match position_of::<Comment>(
            old(store)@.comments,
            id,
        ) {
            Some(i) => {
                &&& r matches Ok(c) && c@ == approved(old(store)@.comments[i])
                &&& final(store)@ == (CommentStoreView {
                    next_id: old(store)@.next_id,
                    comments: old(store)@.comments.update(i, approved(old(store)@.comments[i])),
                })
            },
            None => r == Err::<Comment, ApiError>(ApiError::CommentNotFound) && final(store)@
                == old(store)@,
        },
{
    if let Err(e) = require_admin_session(state, authorization) {
        return Err(e);
    }
    proof {
        lemma_position_of::<Comment>(views(store.comments@), id);
    }
    let i = match find_index(&store.comments, id) {
        Some(i) => i,
        None => {
            return Err(ApiError::CommentNotFound);
        },
    };
    let mut comment = store.comments[i].duplicate();
    comment.approved = true;
    let answer = comment.duplicate();
    let ghost before = store.comments@;
    store.comments.set(i, comment);
    assert(views(store.comments@) =~= views(before).update(i as int, answer@));
    Ok(answer)
}

/// Handles `DELETE /api/comments/:id`: the administrator deletes a comment.
pub fn delete_comment(state: &AppState, authorization: Option<&str>, store: &mut CommentStore, id: u64) -> (r:
    Result<(), ApiError>)
    ensures
        !admits(state@, header_view(authorization)) ==> r == Err::<(), ApiError>(
            ApiError::AdminLoginRequired,
        ) && final(store)@ == old(store)@,
        admits(state@, header_view(authorization)) && !has_id::<Comment>(old(store)@.comments, id)
            ==> r == Err::<(), ApiError>(ApiError::CommentNotFound) && final(store)@ == old(
            store,
        )@,
        admits(state@, header_view(authorization)) && has_id::<Comment>(old(store)@.comments, id)
            ==> (r is Ok) && final(store)@ == (CommentStoreView {
            next_id: old(store)@.next_id,
            comments: without_id::<Comment>(old(store)@.comments, id),
        }),
{
    if let Err(e) = require_admin_session(state, authorization) {
        return Err(e);
    }
    if !contains_id(&store.comments, id) {
        return Err(ApiError::CommentNotFound);
    }
    remove_with_id(&mut store.comments, id);
    Ok(())
}

/// A store whose comments have distinct ids, all below the next id to
/// give.
pub open spec fn comments_well_formed(s: CommentStoreView) -> bool {
    ids_distinct::<Comment>(s.comments) && ids_below::<Comment>(s.comments, s.next_id)
}

/// A new comment is unapproved, so the public listing of every post is
/// as it was before.
pub proof fn law_new_comment_hidden(
    s: CommentStoreView,
    post_id: u64,
    author_name: Seq<char>,
    body: Seq<char>,
    now: u64,
    shown_post: u64,
)
    ensures
        visible_comments(
            after_create_comment(s, post_id, author_name, body, now).comments,
            shown_post,
        ) == visible_comments(s.comments, shown_post),
{
    reveal(Seq::filter);
    let c = new_comment(s.next_id, post_id, author_name, body, now);
    assert(s.comments.push(c).drop_last() =~= s.comments);
}

/// The public listing of a post shows only approved comments on that
/// post, and every one of them.
pub proof fn law_public_listing_only_approved(comments: Seq<CommentView>, post_id: u64, c: CommentView)
    ensures
        visible_comments(comments, post_id).contains(c) <==> comments.contains(c) && c.post_id
            == post_id && c.approved,
{
    broadcast use vstd::seq_lib::group_filter_ensures;

    let f = visible_comments(comments, post_id);
    if f.contains(c) {
        comments.lemma_filter_contains_rev(shown_on(post_id), c);
        let i = choose|i: int| 0 <= i < f.len() && f[i] == c;
        assert(shown_on(post_id)(f[i]));
    }
    if comments.contains(c) && c.post_id == post_id && c.approved {
        let i = choose|i: int| 0 <= i < comments.len() && comments[i] == c;
        assert(shown_on(post_id)(comments[i]));
    }
}

/// Once approved, a comment shows in the public listing of its post.
pub proof fn law_approved_comment_shown(s: CommentStoreView, id: u64)
    requires
        position_of::<Comment>(s.comments, id) is Some,
    ensures
        ({
            let i = position_of::<Comment>(s.comments, id)->0;
            let t = s.comments.update(i, approved(s.comments[i]));
            visible_comments(t, s.comments[i].post_id).contains(approved(s.comments[i]))
        }),
{
    broadcast use vstd::seq_lib::group_filter_ensures;

    lemma_position_of::<Comment>(s.comments, id);
    let i = position_of::<Comment>(s.comments, id)->0;
    let t = s.comments.update(i, approved(s.comments[i]));
    assert(shown_on(s.comments[i].post_id)(t[i]));
}

/// Approving a comment keeps a well-formed store well formed.
pub proof fn law_approve_comment_well_formed(s: CommentStoreView, id: u64)
    requires
        comments_well_formed(s),
        position_of::<Comment>(s.comments, id) is Some,
    ensures
        ({
            let i = position_of::<Comment>(s.comments, id)->0;
            comments_well_formed(
                (CommentStoreView {
                    comments: s.comments.update(i, approved(s.comments[i])),
                    ..s
                }),
            )
        }),
{
    lemma_position_of::<Comment>(s.comments, id);
    let i = position_of::<Comment>(s.comments, id)->0;
    lemma_update_same_id::<Comment>(s.comments, i, approved(s.comments[i]), s.next_id);
}

/// Creating a comment keeps a well-formed store well formed, and the new
/// comment is found under its id.
pub proof fn law_create_comment_well_formed(
    s: CommentStoreView,
    post_id: u64,
    author_name: Seq<char>,
    body: Seq<char>,
    now: u64,
)
    requires
        comments_well_formed(s),
        s.next_id < u64::MAX,
    ensures
        comments_well_formed(after_create_comment(s, post_id, author_name, body, now)),
        position_of::<Comment>(
            after_create_comment(s, post_id, author_name, body, now).comments,
            s.next_id,
        ) == Some(s.comments.len() as int),
{
    lemma_push_fresh::<Comment>(
        s.comments,
        new_comment(s.next_id, post_id, author_name, body, now),
        s.next_id,
    );
}

/// Deleting a comment keeps the store well formed, and none with its id
/// is left.
pub proof fn law_delete_comment_well_formed(s: CommentStoreView, id: u64)
    ensures
        comments_well_formed(s) ==> comments_well_formed(
            (CommentStoreView { comments: without_id::<Comment>(s.comments, id), ..s }),
        ),
        position_of::<Comment>(without_id::<Comment>(s.comments, id), id) is None,
{
    if comments_well_formed(s) {
        lemma_without_id_keeps_ids::<Comment>(s.comments, id, s.next_id);
    }
    lemma_without_id_lacks::<Comment>(s.comments, id);
    lemma_position_of::<Comment>(without_id::<Comment>(s.comments, id), id);
}


/// A new comment is unapproved, on the post it was written for, with the
/// next id, the author and body given and the time `now`; creation appends
/// it after the comments already there, which stay as they were.
pub proof fn law_new_comment_fields(
    s: CommentStoreView,
    post_id: u64,
    author_name: Seq<char>,
    body: Seq<char>,
    now: u64,
)
    ensures
        ({
            let t = after_create_comment(s, post_id, author_name, body, now);
            let c = t.comments[s.comments.len() as int];
            &&& t.comments.len() == s.comments.len() + 1
            &&& forall|i: int| 0 <= i < s.comments.len() ==> #[trigger] t.comments[i] == s.comments[i]
            &&& c.id == s.next_id
            &&& c.post_id == post_id
            &&& c.author_name == author_name
            &&& c.body == body
            &&& c.created_at == now
            &&& !c.approved
        }),
{
}

/// Approving a comment sets its approval and changes nothing else of it.
pub proof fn law_approval_changes_only_the_flag(c: CommentView)
    ensures
        approved(c).approved,
        approved(c).id == c.id,
        approved(c).post_id == c.post_id,
        approved(c).author_name == c.author_name,
        approved(c).body == c.body,
        approved(c).created_at == c.created_at,
{
}

} // verus!
