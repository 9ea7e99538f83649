//! Tags that posts carry (many to many), a flat labelling beside the
//! categories, kept by the administrator.

use vstd::prelude::*;
use crate::api::ApiError;
use crate::auth::{admits, header_view, require_admin_session, AppState};
use crate::records::{
    contains_id, copy_all, has_id, ids_below, ids_distinct, lemma_position_of, lemma_push_fresh,
    lemma_without_id_keeps_ids, lemma_without_id_lacks, position_of, remove_with_id, views,
    without_id, Record,
};
use crate::text::{is_blank, is_blank_str};

verus! {

/// A tag that posts carry, with a display name and a URL slug.
pub struct Tag {
    pub id: u64,
    pub name: String,
    pub slug: String,
}

pub struct TagView {
    pub id: u64,
    pub name: Seq<char>,
    pub slug: Seq<char>,
}

impl View for Tag {
    type V = TagView;

    open spec fn view(&self) -> TagView {
        TagView { id: self.id, name: self.name@, slug: self.slug@ }
    }
}

impl Record for Tag {
    open spec fn key_of(v: TagView) -> u64 {
        v.id
    }

    fn id(&self) -> (r: u64) {
        self.id
    }

    fn duplicate(&self) -> (r: Tag) {
        Tag { id: self.id, name: self.name.clone(), slug: self.slug.clone() }
    }
}

/// All tags, and the id that the next one gets.
pub struct TagStore {
    pub next_id: u64,
    pub tags: Vec<Tag>,
}

pub struct TagStoreView {
    pub next_id: u64,
    pub tags: Seq<TagView>,
}

impl View for TagStore {
    type V = TagStoreView;

    open spec fn view(&self) -> TagStoreView {
        TagStoreView { next_id: self.next_id, tags: views(self.tags@) }
    }
}

impl TagStore {
    /// A store with none, whose first gets id 0.
    pub fn new() -> (r: TagStore)
        ensures
            r@.next_id == 0,
            r@.tags == Seq::<TagView>::empty(),
    {
        let r = TagStore { next_id: 0, tags: Vec::new() };
        assert(r@.tags =~= Seq::<TagView>::empty());
        r
    }
}

/// The fields of a new tag.
pub struct CreateTagRequest {
    pub name: String,
    pub slug: String,
}

/// The store after a tag named `name` with slug `slug` is created.
pub open spec fn after_create_tag(s: TagStoreView, name: Seq<char>, slug: Seq<char>) -> TagStoreView {
    TagStoreView {
        next_id: (s.next_id + 1) as u64,
        tags: s.tags.push(TagView { id: s.next_id, name, slug }),
    }
}

/// Handles `GET /api/tags`: the administrator lists the tags, in order.
pub fn list_tags(state: &AppState, authorization: Option<&str>, store: &TagStore) -> (r: Result<
    Vec<Tag>,
    ApiError,
>)
    ensures
        !admits(state@, header_view(authorization)) ==> r == Err::<Vec<Tag>, ApiError>(
            ApiError::AdminLoginRequired,
        ),
        admits(state@, header_view(authorization)) ==> (r matches Ok(v) && views(v@)
            == store@.tags),
{
    if let Err(e) = require_admin_session(state, authorization) {
        return Err(e);
    }
    Ok(copy_all(&store.tags))
}

/// Handles `POST /api/tags`: the administrator creates a tag; its
/// name and slug must not be blank.
pub fn create_tag(
    state: &AppState,
    authorization: Option<&str>,
    store: &mut TagStore,
    req: CreateTagRequest,
) -> (r: Result<Tag, ApiError>)
    requires
        admits(state@, header_view(authorization)) && !is_blank(req.name@) && !is_blank(req.slug@)
            ==> old(store).next_id < u64::MAX,
    ensures
        !admits(state@, header_view(authorization)) ==> r == Err::<Tag, ApiError>(
            ApiError::AdminLoginRequired,
        ) && final(store)@ == old(store)@,
        admits(state@, header_view(authorization)) && (is_blank(req.name@) || is_blank(req.slug@))
            ==> r == Err::<Tag, ApiError>(ApiError::NameOrSlugEmpty) && final(store)@ == old(
            store,
        )@,
        admits(state@, header_view(authorization)) && !is_blank(req.name@) && !is_blank(req.slug@)
            ==> {
            &&& r matches Ok(c) && c@ == (TagView {
                id: old(store)@.next_id,
                name: req.name@,
                slug: req.slug@,
            })
            &&& final(store)@ == after_create_tag(old(store)@, req.name@, req.slug@)
        },
{
    if let Err(e) = require_admin_session(state, authorization) {
        return Err(e);
    }
    if is_blank_str(req.name.as_str()) || is_blank_str(req.slug.as_str()) {
        return Err(ApiError::NameOrSlugEmpty);
    }
    let id = store.next_id;
    store.next_id = id + 1;
    let item = Tag { id, name: req.name, slug: req.slug };
    let answer = item.duplicate();
    let ghost before = store.tags@;
    store.tags.push(item);
    assert(views(store.tags@) =~= views(before).push(answer@));
    Ok(answer)
}

/// Handles `DELETE /api/tags/:id`: the administrator deletes a tag.
/// Posts that name it keep the id.
pub fn delete_tag(state: &AppState, authorization: Option<&str>, store: &mut TagStore, id: u64) -> (r:
    Result<(), ApiError>)
    ensures
        !admits(state@, header_view(authorization)) ==> r == Err::<(), ApiError>(
            ApiError::AdminLoginRequired,
        ) && final(store)@ == old(store)@,
        admits(state@, header_view(authorization)) && !has_id::<Tag>(old(store)@.tags, id)
            ==> r == Err::<(), ApiError>(ApiError::TagNotFound) && final(store)@ == old(store)@,
        admits(state@, header_view(authorization)) && has_id::<Tag>(old(store)@.tags, id)
            ==> (r is Ok) && final(store)@ == (TagStoreView {
            next_id: old(store)@.next_id,
            tags: without_id::<Tag>(old(store)@.tags, id),
        }),
{
    if let Err(e) = require_admin_session(state, authorization) {
        return Err(e);
    }
    if !contains_id(&store.tags, id) {
        return Err(ApiError::TagNotFound);
    }
    remove_with_id(&mut store.tags, id);
    Ok(())
}

/// A store whose tags have distinct ids, all below the next id to give.
pub open spec fn tags_well_formed(s: TagStoreView) -> bool {
    ids_distinct::<Tag>(s.tags) && ids_below::<Tag>(s.tags, s.next_id)
}

/// Creating a tag keeps a well-formed store well formed, and the new one
/// is found under its id.
pub proof fn law_create_tag_well_formed(s: TagStoreView, name: Seq<char>, slug: Seq<char>)
    requires
        tags_well_formed(s),
        s.next_id < u64::MAX,
    ensures
        tags_well_formed(after_create_tag(s, name, slug)),
        position_of::<Tag>(after_create_tag(s, name, slug).tags, s.next_id) == Some(
            s.tags.len() as int,
        ),
{
    lemma_push_fresh::<Tag>(s.tags, TagView { id: s.next_id, name, slug }, s.next_id);
}

/// Deleting a tag keeps the store well formed, and none with its id is
/// left.
pub proof fn law_delete_tag_well_formed(s: TagStoreView, id: u64)
    ensures
        tags_well_formed(s) ==> tags_well_formed(
            (TagStoreView { tags: without_id::<Tag>(s.tags, id), ..s }),
        ),
        position_of::<Tag>(without_id::<Tag>(s.tags, id), id) is None,
{
    if tags_well_formed(s) {
        lemma_without_id_keeps_ids::<Tag>(s.tags, id, s.next_id);
    }
    lemma_without_id_lacks::<Tag>(s.tags, id);
    lemma_position_of::<Tag>(without_id::<Tag>(s.tags, id), id);
}


/// A new tag has the next id and the name and slug given; creation
/// appends it after the tags already there, which stay as they were.
pub proof fn law_new_tag_fields(s: TagStoreView, name: Seq<char>, slug: Seq<char>)
    ensures
        ({
            let t = after_create_tag(s, name, slug);
            let c = t.tags[s.tags.len() as int];
            &&& t.tags.len() == s.tags.len() + 1
            &&& forall|i: int| 0 <= i < s.tags.len() ==> #[trigger] t.tags[i] == s.tags[i]
            &&& c.id == s.next_id
            &&& c.name == name
            &&& c.slug == slug
        }),
{
}

} // verus!
