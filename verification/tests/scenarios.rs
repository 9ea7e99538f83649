use rs_blog::api::{index, ApiError};
use rs_blog::auth::{AppState, AuthStore, RequestOtpOutcome};
use rs_blog::categories::{create_category, delete_category, CategoryStore, CreateCategoryRequest};
use rs_blog::comments::{
    approve_comment, create_comment, list_all_comments, list_post_comments, CommentStore,
    CreateCommentRequest,
};
use rs_blog::pages::{
    create_page, delete_page, get_page_by_slug, list_pages, update_page, CreatePageRequest,
    PageStatus, PageStore, UpdatePageRequest,
};
use rs_blog::posts::{
    create_post, delete_post, get_post, list_posts, update_post, CreatePostRequest, PostStatus,
    PostStore, UpdatePostRequest,
};
use rs_blog::tags::{create_tag, delete_tag, CreateTagRequest, TagStore};

fn test_state() -> AppState {
    AppState { auth: AuthStore::new(), admin_email: "admin@example.com".to_string() }
}

/// Logs the administrator in and gives the `Authorization` header to send.
fn admin_header(state: &mut AppState) -> String {
    let email = state.admin_email.clone();
    let RequestOtpOutcome::Issued(code) = state.auth.request_otp(&email, "493017".to_string());
    state.auth.consume_otp(&email, &code).unwrap();
    let token = state.auth.create_session(&email, "session-token-1".to_string());
    format!("Bearer {token}")
}

fn post_req(title: &str, body: &str, categories: Vec<u64>, tags: Vec<u64>) -> CreatePostRequest {
    CreatePostRequest { title: title.to_string(), body: body.to_string(), categories, tags }
}

#[test]
fn root_returns_landing_page_with_key_markers() {
    let body = index();
    assert!(body.contains("RS-Blog"));
    assert!(body.contains("/api/posts"));
    assert!(body.contains("https://github.com/aon-co-jp/RS-Blog/releases/latest"));
}

#[test]
fn listing_posts_without_auth_is_rejected() {
    let state = test_state();
    let store = PostStore::new();
    let r = list_posts(&state, None, &store, None);
    assert!(matches!(r, Err(ApiError::AdminLoginRequired)));
    assert_eq!(ApiError::AdminLoginRequired.status(), 401);
}

#[test]
fn create_then_list_then_get_post_roundtrips() {
    let mut state = test_state();
    let header = admin_header(&mut state);
    let auth = Some(header.as_str());
    let mut store = PostStore::new();

    let created = create_post(&state, auth, &mut store, post_req("Hello", "World", vec![], vec![]), 100).unwrap();
    assert_eq!(created.status, PostStatus::Draft);

    let posts = list_posts(&state, auth, &store, None).unwrap();
    assert_eq!(posts.len(), 1);

    let got = get_post(&state, auth, &store, created.id).unwrap();
    assert_eq!(got.title, "Hello");
}

#[test]
fn updating_a_post_changes_status_and_fields() {
    let mut state = test_state();
    let header = admin_header(&mut state);
    let auth = Some(header.as_str());
    let mut store = PostStore::new();

    let created = create_post(&state, auth, &mut store, post_req("Draft post", "...", vec![], vec![]), 100).unwrap();
    let req = UpdatePostRequest { title: None, body: None, status: Some(PostStatus::Published), categories: None, tags: None };
    let updated = update_post(&state, auth, &mut store, created.id, req, 200).unwrap();
    assert_eq!(updated.status, PostStatus::Published);
}

#[test]
fn deleting_a_post_removes_it() {
    let mut state = test_state();
    let header = admin_header(&mut state);
    let auth = Some(header.as_str());
    let mut store = PostStore::new();

    let created = create_post(&state, auth, &mut store, post_req("To delete", "...", vec![], vec![]), 100).unwrap();
    assert!(delete_post(&state, auth, &mut store, created.id).is_ok());
    let r = get_post(&state, auth, &store, created.id);
    assert!(matches!(r, Err(ApiError::PostNotFound)));
    assert_eq!(ApiError::PostNotFound.status(), 404);
}

#[test]
fn creating_a_post_with_empty_title_is_rejected() {
    let mut state = test_state();
    let header = admin_header(&mut state);
    let auth = Some(header.as_str());
    let mut store = PostStore::new();

    let r = create_post(&state, auth, &mut store, post_req("  ", "...", vec![], vec![]), 100);
    assert!(matches!(r, Err(ApiError::TitleEmpty)));
    assert_eq!(ApiError::TitleEmpty.status(), 400);
}

#[test]
fn category_crud_and_post_filtering_by_category() {
    let mut state = test_state();
    let header = admin_header(&mut state);
    let auth = Some(header.as_str());
    let mut categories = CategoryStore::new();
    let mut posts = PostStore::new();

    let category = create_category(
        &state,
        auth,
        &mut categories,
        CreateCategoryRequest { name: "News".to_string(), slug: "news".to_string() },
    )
    .unwrap();

    create_post(&state, auth, &mut posts, post_req("Categorized", "...", vec![category.id], vec![]), 1).unwrap();
    create_post(&state, auth, &mut posts, post_req("Uncategorized", "...", vec![], vec![]), 2).unwrap();

    let query = format!("category={}", category.id);
    let listed = list_posts(&state, auth, &posts, Some(query.as_str())).unwrap();
    assert_eq!(listed.len(), 1);
    assert_eq!(listed[0].title, "Categorized");

    assert!(delete_category(&state, auth, &mut categories, category.id).is_ok());
}

#[test]
fn comment_moderation_queue_hides_unapproved_until_admin_approves() {
    let mut state = test_state();
    let header = admin_header(&mut state);
    let auth = Some(header.as_str());
    let mut posts = PostStore::new();
    let mut comments = CommentStore::new();

    let post = create_post(&state, auth, &mut posts, post_req("With comments", "...", vec![], vec![]), 1).unwrap();

    // Anyone may comment; the comment starts unapproved.
    let comment = create_comment(
        &posts,
        &mut comments,
        post.id,
        CreateCommentRequest { author_name: "Alice".to_string(), body: "Nice post!".to_string() },
        2,
    )
    .unwrap();
    assert!(!comment.approved);

    // Not shown publicly before approval.
    let visible = list_post_comments(&comments, post.id);
    assert!(visible.is_empty());

    // The administrator sees every comment.
    let all = list_all_comments(&state, auth, &comments).unwrap();
    assert_eq!(all.len(), 1);

    // Once approved, it is shown.
    assert!(approve_comment(&state, auth, &mut comments, comment.id).is_ok());
    let visible = list_post_comments(&comments, post.id);
    assert_eq!(visible.len(), 1);
}

#[test]
fn page_crud_slug_uniqueness_and_by_slug_lookup() {
    let mut state = test_state();
    let header = admin_header(&mut state);
    let auth = Some(header.as_str());
    let mut pages = PageStore::new();

    let page = create_page(
        &state,
        auth,
        &mut pages,
        CreatePageRequest { title: "About".to_string(), slug: "about".to_string(), body: "We are...".to_string() },
        1,
    )
    .unwrap();
    assert_eq!(page.status, PageStatus::Draft);

    // A second page with the same slug is refused with 409.
    let r = create_page(
        &state,
        auth,
        &mut pages,
        CreatePageRequest { title: "About Again".to_string(), slug: "about".to_string(), body: "...".to_string() },
        2,
    );
    assert!(matches!(r, Err(ApiError::SlugInUse)));
    assert_eq!(ApiError::SlugInUse.status(), 409);

    // A draft is not found by the public slug lookup.
    assert!(matches!(get_page_by_slug(&pages, "about"), Err(ApiError::PageNotFound)));

    // Once published it is.
    let req = UpdatePageRequest { title: None, slug: None, body: None, status: Some(PageStatus::Published) };
    assert!(update_page(&state, auth, &mut pages, page.id, req, 3).is_ok());
    let found = get_page_by_slug(&pages, "about").unwrap();
    assert_eq!(found.title, "About");

    let listed = list_pages(&state, auth, &pages).unwrap();
    assert_eq!(listed.len(), 1);

    assert!(delete_page(&state, auth, &mut pages, page.id).is_ok());
    assert!(matches!(get_page_by_slug(&pages, "about"), Err(ApiError::PageNotFound)));
}

#[test]
fn tag_crud_and_post_filtering_by_tag() {
    let mut state = test_state();
    let header = admin_header(&mut state);
    let auth = Some(header.as_str());
    let mut tags = TagStore::new();
    let mut posts = PostStore::new();

    let tag = create_tag(&state, auth, &mut tags, CreateTagRequest { name: "Rust".to_string(), slug: "rust".to_string() }).unwrap();

    create_post(&state, auth, &mut posts, post_req("Tagged", "...", vec![], vec![tag.id]), 1).unwrap();
    create_post(&state, auth, &mut posts, post_req("Untagged", "...", vec![], vec![]), 2).unwrap();

    let query = format!("tag={}", tag.id);
    let listed = list_posts(&state, auth, &posts, Some(query.as_str())).unwrap();
    assert_eq!(listed.len(), 1);
    assert_eq!(listed[0].title, "Tagged");

    assert!(delete_tag(&state, auth, &mut tags, tag.id).is_ok());
}
