//! Categories that posts are filed under (many to many), kept by the
//! administrator.

use vstd::prelude::*;
use crate::api::ApiError;
use crate::auth::{admits, header_view, require_admin_session, AppState};
use crate::records::{
    contains_id, copy_all, has_id, ids_below, ids_distinct, lemma_position_of, lemma_push_fresh,
    lemma_without_id_keeps_ids, lemma_without_id_lacks, position_of, remove_with_id, views,
    without_id, Record,
};
use crate::text::{is_blank, is_blank_str};

verus! {

/// A category that posts are filed under, with a display name and a URL slug.
pub struct Category {
    pub id: u64,
    pub name: String,
    pub slug: String,
}

pub struct CategoryView {
    pub id: u64,
    pub name: Seq<char>,
    pub slug: Seq<char>,
}

impl View for Category {
    type V = CategoryView;

    open spec fn view(&self) -> CategoryView {
        CategoryView { id: self.id, name: self.name@, slug: self.slug@ }
    }
}

impl Record for Category {
    open spec fn key_of(v: CategoryView) -> u64 {
        v.id
    }

    fn id(&self) -> (r: u64) {
        self.id
    }

    fn duplicate(&self) -> (r: Category) {
        Category { id: self.id, name: self.name.clone(), slug: self.slug.clone() }
    }
}

/// All categories, and the id that the next one gets.
pub struct CategoryStore {
    pub next_id: u64,
    pub categories: Vec<Category>,
}

pub struct CategoryStoreView {
    pub next_id: u64,
    pub categories: Seq<CategoryView>,
}

impl View for CategoryStore {
    type V = CategoryStoreView;

    open spec fn view(&self) -> CategoryStoreView {
        CategoryStoreView { next_id: self.next_id, categories: views(self.categories@) }
    }
}

impl CategoryStore {
    /// A store with none, whose first gets id 0.
    pub fn new() -> (r: CategoryStore)
        ensures
            r@.next_id == 0,
            r@.categories == Seq::<CategoryView>::empty(),
    {
        let r = CategoryStore { next_id: 0, categories: Vec::new() };
        assert(r@.categories =~= Seq::<CategoryView>::empty());
        r
    }
}

/// The fields of a new category.
pub struct CreateCategoryRequest {
    pub name: String,
    pub slug: String,
}

/// The store after a category named `name` with slug `slug` is created.
pub open spec fn after_create_category(s: CategoryStoreView, name: Seq<char>, slug: Seq<char>) -> CategoryStoreView {
    CategoryStoreView {
        next_id: (s.next_id + 1) as u64,
        categories: s.categories.push(CategoryView { id: s.next_id, name, slug }),
    }
}

/// Handles `GET /api/categories`: the administrator lists the categories, in order.
pub fn list_categories(state: &AppState, authorization: Option<&str>, store: &CategoryStore) -> (r: Result<
    Vec<Category>,
    ApiError,
>)
    ensures
        !admits(state@, header_view(authorization)) ==> r == Err::<Vec<Category>, ApiError>(
            ApiError::AdminLoginRequired,
        ),
        admits(state@, header_view(authorization)) ==> (r matches Ok(v) && views(v@)
            == store@.categories),
{
    if let Err(e) = require_admin_session(state, authorization) {
        return Err(e);
    }
    Ok(copy_all(&store.categories))
}

/// Handles `POST /api/categories`: the administrator creates a category; its
/// name and slug must not be blank.
pub fn create_category(
    state: &AppState,
    authorization: Option<&str>,
    store: &mut CategoryStore,
    req: CreateCategoryRequest,
) -> (r: Result<Category, ApiError>)
    requires
        admits(state@, header_view(authorization)) && !is_blank(req.name@) && !is_blank(req.slug@)
            ==> old(store).next_id < u64::MAX,
    ensures
        !admits(state@, header_view(authorization)) ==> r == Err::<Category, ApiError>(
            ApiError::AdminLoginRequired,
        ) && final(store)@ == old(store)@,
        admits(state@, header_view(authorization)) && (is_blank(req.name@) || is_blank(req.slug@))
            ==> r == Err::<Category, ApiError>(ApiError::NameOrSlugEmpty) && final(store)@ == old(
            store,
        )@,
        admits(state@, header_view(authorization)) && !is_blank(req.name@) && !is_blank(req.slug@)
            ==> {
            &&& r matches Ok(c) && c@ == (CategoryView {
                id: old(store)@.next_id,
                name: req.name@,
                slug: req.slug@,
            })
            &&& final(store)@ == after_create_category(old(store)@, req.name@, req.slug@)
        },
{
    if let Err(e) = require_admin_session(state, authorization) {
        return Err(e);
    }
    if is_blank_str(req.name.as_str()) || is_blank_str(req.slug.as_str()) {
        return Err(ApiError::NameOrSlugEmpty);
    }
    let id = store.next_id;
    store.next_id = id + 1;
    let item = Category { id, name: req.name, slug: req.slug };
    let answer = item.duplicate();
    let ghost before = store.categories@;
    store.categories.push(item);
    assert(views(store.categories@) =~= views(before).push(answer@));
    Ok(answer)
}

/// Handles `DELETE /api/categories/:id`: the administrator deletes a category.
/// Posts that name it keep the id.
pub fn delete_category(state: &AppState, authorization: Option<&str>, store: &mut CategoryStore, id: u64) -> (r:
    Result<(), ApiError>)
    ensures
        !admits(state@, header_view(authorization)) ==> r == Err::<(), ApiError>(
            ApiError::AdminLoginRequired,
        ) && final(store)@ == old(store)@,
        admits(state@, header_view(authorization)) && !has_id::<Category>(old(store)@.categories, id)
            ==> r == Err::<(), ApiError>(ApiError::CategoryNotFound) && final(store)@ == old(store)@,
        admits(state@, header_view(authorization)) && has_id::<Category>(old(store)@.categories, id)
            ==> (r is Ok) && final(store)@ == (CategoryStoreView {
            next_id: old(store)@.next_id,
            categories: without_id::<Category>(old(store)@.categories, id),
        }),
{
    if let Err(e) = require_admin_session(state, authorization) {
        return Err(e);
    }
    if !contains_id(&store.categories, id) {
        return Err(ApiError::CategoryNotFound);
    }
    remove_with_id(&mut store.categories, id);
    Ok(())
}

/// A store whose categories have distinct ids, all below the next id to give.
pub open spec fn categories_well_formed(s: CategoryStoreView) -> bool {
    ids_distinct::<Category>(s.categories) && ids_below::<Category>(s.categories, s.next_id)
}

/// Creating a category keeps a well-formed store well formed, and the new one
/// is found under its id.
pub proof fn law_create_category_well_formed(s: CategoryStoreView, name: Seq<char>, slug: Seq<char>)
    requires
        categories_well_formed(s),
        s.next_id < u64::MAX,
    ensures
        categories_well_formed(after_create_category(s, name, slug)),
        position_of::<Category>(after_create_category(s, name, slug).categories, s.next_id) == Some(
            s.categories.len() as int,
        ),
{
    lemma_push_fresh::<Category>(s.categories, CategoryView { id: s.next_id, name, slug }, s.next_id);
}

/// Deleting a category keeps the store well formed, and none with its id is
/// left.
pub proof fn law_delete_category_well_formed(s: CategoryStoreView, id: u64)
    ensures
        categories_well_formed(s) ==> categories_well_formed(
            (CategoryStoreView { categories: without_id::<Category>(s.categories, id), ..s }),
        ),
        position_of::<Category>(without_id::<Category>(s.categories, id), id) is None,
{
    if categories_well_formed(s) {
        lemma_without_id_keeps_ids::<Category>(s.categories, id, s.next_id);
    }
    lemma_without_id_lacks::<Category>(s.categories, id);
    lemma_position_of::<Category>(without_id::<Category>(s.categories, id), id);
}


/// A new category has the next id and the name and slug given; creation
/// appends it after the categories already there, which stay as they were.
pub proof fn law_new_category_fields(s: CategoryStoreView, name: Seq<char>, slug: Seq<char>)
    ensures
        ({
            let t = after_create_category(s, name, slug);
            let c = t.categories[s.categories.len() as int];
            &&& t.categories.len() == s.categories.len() + 1
            &&& forall|i: int| 0 <= i < s.categories.len() ==> #[trigger] t.categories[i] == s.categories[i]
            &&& c.id == s.next_id
            &&& c.name == name
            &&& c.slug == slug
        }),
{
}

} // verus!
