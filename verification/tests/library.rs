use rs_blog::api::{healthz, ApiError, OtpError};
use rs_blog::auth::{
    logout, otp_mail_answer, request_otp, require_admin_session, verify_otp, AppState, AuthStore,
    Table,
};
use rs_blog::categories::{create_category, delete_category, list_categories, CategoryStore, CreateCategoryRequest};
use rs_blog::comments::{approve_comment, create_comment, delete_comment, CommentStore, CreateCommentRequest};
use rs_blog::files::{categories_path, comments_path, now_unix, pages_path, posts_path, tags_path};
use rs_blog::pages::{
    create_page, get_page, get_page_by_slug, update_page, CreatePageRequest, PageStatus, PageStore,
    UpdatePageRequest,
};
use rs_blog::posts::{create_post, delete_post, list_posts, update_post, CreatePostRequest, PostStatus, PostStore, UpdatePostRequest};
use rs_blog::tags::{create_tag, list_tags, CreateTagRequest, TagStore};
use rs_blog::text::{is_blank_str, is_whitespace, parse_u64, query_param_u64, strip_prefix, trim};

fn state() -> AppState {
    AppState { auth: AuthStore::new(), admin_email: "admin@example.com".to_string() }
}

fn logged_in() -> (AppState, String) {
    let mut st = state();
    st.auth.request_otp("admin@example.com", "111222".to_string());
    st.auth.consume_otp("admin@example.com", "111222").unwrap();
    st.auth.create_session("admin@example.com", "tok".to_string());
    (st, "Bearer tok".to_string())
}

#[test]
fn whitespace_follows_unicode_white_space() {
    for c in [' ', '\t', '\n', '\r', '\u{0b}', '\u{0c}', '\u{85}', '\u{a0}', '\u{1680}', '\u{2000}', '\u{200a}', '\u{2028}', '\u{2029}', '\u{202f}', '\u{205f}', '\u{3000}'] {
        assert!(is_whitespace(c), "{:?}", c);
        assert_eq!(is_whitespace(c), c.is_whitespace());
    }
    for c in ['a', '0', '\u{200b}', '\u{feff}', '越', '_'] {
        assert!(!is_whitespace(c));
        assert_eq!(is_whitespace(c), c.is_whitespace());
    }
}

#[test]
fn blank_and_trim() {
    assert!(is_blank_str(""));
    assert!(is_blank_str("  \t\u{3000}"));
    assert!(!is_blank_str("  x "));
    assert_eq!(trim("  admin@example.com \n"), "admin@example.com");
    assert_eq!(trim("\u{3000}a b\u{a0}"), "a b");
    assert_eq!(trim("   "), "");
    assert_eq!(trim(""), "");
}

#[test]
fn strip_prefix_matches_std() {
    assert_eq!(strip_prefix("Bearer abc", "Bearer "), Some("abc"));
    assert_eq!(strip_prefix("Bearer ", "Bearer "), Some(""));
    assert_eq!(strip_prefix("bearer abc", "Bearer "), None);
    assert_eq!(strip_prefix("Bear", "Bearer "), None);
    assert_eq!(strip_prefix("カテゴリ=1", "カテゴリ="), Some("1"));
}

#[test]
fn parse_u64_matches_std() {
    for s in ["0", "7", "+42", "0042", "18446744073709551615", "18446744073709551616", "", "+", "-1", "1a", " 1", "99999999999999999999999", "+-1"] {
        assert_eq!(parse_u64(s), s.parse::<u64>().ok(), "{:?}", s);
    }
    assert_eq!(parse_u64("18446744073709551615"), Some(u64::MAX));
}

#[test]
fn query_parameters_take_the_first_that_parses() {
    assert_eq!(query_param_u64("category=7", "category="), Some(7));
    assert_eq!(query_param_u64("a=1&category=7&tag=3", "tag="), Some(3));
    assert_eq!(query_param_u64("category=x&category=3", "category="), Some(3));
    assert_eq!(query_param_u64("category=", "category="), None);
    assert_eq!(query_param_u64("", "category="), None);
    assert_eq!(query_param_u64("&&category=5&", "category="), Some(5));
    assert_eq!(query_param_u64("xcategory=5", "category="), None);
    assert_eq!(query_param_u64("category=1&category=2", "category="), Some(1));
}

#[test]
fn table_keeps_the_latest_value() {
    let mut t = Table::new();
    t.insert("k".to_string(), "v1".to_string());
    t.insert("k".to_string(), "v2".to_string());
    t.insert("j".to_string(), "w".to_string());
    assert_eq!(t.get(&"k".to_string()), Some("v2".to_string()));
    t.remove(&"k".to_string());
    assert_eq!(t.get(&"k".to_string()), None);
    assert_eq!(t.get(&"j".to_string()), Some("w".to_string()));
}

#[test]
fn issued_code_is_accepted_once() {
    let mut a = AuthStore::new();
    a.request_otp("admin@example.com", "123456".to_string());
    assert_eq!(a.consume_otp("admin@example.com", "000000"), Err(OtpError::Mismatch));
    assert_eq!(a.consume_otp("admin@example.com", "123456"), Ok(()));
    assert_eq!(a.consume_otp("admin@example.com", "123456"), Err(OtpError::NotRequested));
    assert_eq!(a.consume_otp("other@example.com", "123456"), Err(OtpError::NotRequested));
}

#[test]
fn newer_code_replaces_older() {
    let mut a = AuthStore::new();
    a.request_otp("admin@example.com", "111111".to_string());
    a.request_otp("admin@example.com", "222222".to_string());
    assert_eq!(a.consume_otp("admin@example.com", "111111"), Err(OtpError::Mismatch));
    assert_eq!(a.consume_otp("admin@example.com", "222222"), Ok(()));
}

#[test]
fn request_otp_only_for_the_admin_with_mail() {
    let mut st = state();
    let r = request_otp(&mut st, Some("someone@example.com"), true, "1".to_string());
    assert!(matches!(r, Err(ApiError::EmailNotRegistered)));
    assert_eq!(ApiError::EmailNotRegistered.status(), 403);
    let r = request_otp(&mut st, None, true, "1".to_string());
    assert!(matches!(r, Err(ApiError::EmailNotRegistered)));
    let r = request_otp(&mut st, Some("admin@example.com"), false, "1".to_string());
    assert!(matches!(r, Err(ApiError::SmtpNotConfigured)));
    assert_eq!(ApiError::SmtpNotConfigured.status(), 503);
    let d = request_otp(&mut st, Some("  admin@example.com  "), true, "654321".to_string()).unwrap();
    assert_eq!(d.email, "admin@example.com");
    assert_eq!(d.code, "654321");
    assert_eq!(st.auth.consume_otp("admin@example.com", "654321"), Ok(()));
}

#[test]
fn verify_otp_opens_a_session() {
    let mut st = state();
    request_otp(&mut st, Some("admin@example.com"), true, "777".to_string()).unwrap();
    let r = verify_otp(&mut st, "admin@example.com", "778", "t1".to_string());
    assert!(matches!(r, Err(ApiError::Otp(OtpError::Mismatch))));
    assert_eq!(r.unwrap_err().message(), "invalid code");
    let token = verify_otp(&mut st, "admin@example.com", "777", "t1".to_string()).unwrap();
    assert_eq!(token, "t1");
    assert!(require_admin_session(&st, Some("Bearer t1")).is_ok());
    assert!(require_admin_session(&st, Some("t1")).is_err());
    assert!(require_admin_session(&st, None).is_err());
    let r = verify_otp(&mut st, "admin@example.com", "777", "t2".to_string());
    assert!(matches!(r, Err(ApiError::Otp(OtpError::NotRequested))));
}

#[test]
fn logout_closes_the_session() {
    let (mut st, header) = logged_in();
    assert!(require_admin_session(&st, Some(header.as_str())).is_ok());
    logout(&mut st, Some("tok"));
    assert!(require_admin_session(&st, Some(header.as_str())).is_ok());
    logout(&mut st, Some(header.as_str()));
    assert_eq!(require_admin_session(&st, Some(header.as_str())), Err(ApiError::AdminLoginRequired));
    assert_eq!(st.auth.session_email("tok"), None);
}

#[test]
fn a_session_of_another_email_is_not_admin() {
    let mut st = state();
    st.auth.create_session("someone@example.com", "tok".to_string());
    assert_eq!(st.auth.session_email("tok"), Some("someone@example.com".to_string()));
    assert_eq!(require_admin_session(&st, Some("Bearer tok")), Err(ApiError::AdminLoginRequired));
}

#[test]
fn errors_answer_with_status_and_message() {
    let cases = [
        (ApiError::AdminLoginRequired, 401, "admin login required"),
        (ApiError::TitleEmpty, 400, "title must not be empty"),
        (ApiError::NameOrSlugEmpty, 400, "name and slug must not be empty"),
        (ApiError::TitleOrSlugEmpty, 400, "title and slug must not be empty"),
        (ApiError::AuthorOrBodyEmpty, 400, "author_name and body must not be empty"),
        (ApiError::PostNotFound, 404, "post not found"),
        (ApiError::CategoryNotFound, 404, "category not found"),
        (ApiError::PageNotFound, 404, "page not found"),
        (ApiError::TagNotFound, 404, "tag not found"),
        (ApiError::CommentNotFound, 404, "comment not found"),
        (ApiError::SlugInUse, 409, "slug already in use"),
        (ApiError::EmailNotRegistered, 403, "email not registered"),
        (ApiError::SmtpNotConfigured, 503, "SMTP not configured"),
        (ApiError::MailNotSent, 502, "failed to send mail"),
        (ApiError::Otp(OtpError::NotRequested), 403, "no code was requested for this email"),
    ];
    for (e, status, message) in cases {
        assert_eq!(e.status(), status);
        assert_eq!(e.message(), message);
    }
    assert_eq!(healthz(), "ok");
}

#[test]
fn posts_get_consecutive_ids_and_timestamps() {
    let (st, h) = logged_in();
    let auth = Some(h.as_str());
    let mut store = PostStore::new();
    let a = create_post(&st, auth, &mut store, CreatePostRequest { title: "A".into(), body: "x".into(), categories: vec![1, 2], tags: vec![] }, 10).unwrap();
    let b = create_post(&st, auth, &mut store, CreatePostRequest { title: "B".into(), body: "y".into(), categories: vec![], tags: vec![3] }, 20).unwrap();
    assert_eq!((a.id, b.id, store.next_id), (0, 1, 2));
    assert_eq!((a.created_at, a.updated_at), (10, 10));
    assert_eq!(a.categories, vec![1, 2]);
    let r = create_post(&st, None, &mut store, CreatePostRequest { title: "C".into(), body: "z".into(), categories: vec![], tags: vec![] }, 30);
    assert_eq!(r.err(), Some(ApiError::AdminLoginRequired));
    assert_eq!(store.posts.len(), 2);
}

#[test]
fn update_changes_only_named_fields() {
    let (st, h) = logged_in();
    let auth = Some(h.as_str());
    let mut store = PostStore::new();
    let p = create_post(&st, auth, &mut store, CreatePostRequest { title: "T".into(), body: "B".into(), categories: vec![5], tags: vec![6] }, 1).unwrap();
    let req = UpdatePostRequest { title: Some("T2".into()), body: None, status: None, categories: Some(vec![]), tags: None };
    let u = update_post(&st, auth, &mut store, p.id, req, 9).unwrap();
    assert_eq!(u.title, "T2");
    assert_eq!(u.body, "B");
    assert_eq!(u.status, PostStatus::Draft);
    assert!(u.categories.is_empty());
    assert_eq!(u.tags, vec![6]);
    assert_eq!((u.created_at, u.updated_at), (1, 9));
    assert_eq!(store.posts[0].title, "T2");
    let req = UpdatePostRequest { title: None, body: None, status: None, categories: None, tags: None };
    assert_eq!(update_post(&st, auth, &mut store, 99, req, 9).err(), Some(ApiError::PostNotFound));
}

#[test]
fn deleting_a_missing_post_is_not_found() {
    let (st, h) = logged_in();
    let auth = Some(h.as_str());
    let mut store = PostStore::new();
    assert_eq!(delete_post(&st, auth, &mut store, 3), Err(ApiError::PostNotFound));
}

#[test]
fn listing_filters_by_category_and_tag_together() {
    let (st, h) = logged_in();
    let auth = Some(h.as_str());
    let mut store = PostStore::new();
    for (title, cats, tags) in [("a", vec![1], vec![7]), ("b", vec![1], vec![]), ("c", vec![], vec![7]), ("d", vec![2], vec![7])] {
        create_post(&st, auth, &mut store, CreatePostRequest { title: title.into(), body: "".into(), categories: cats, tags }, 0).unwrap();
    }
    let titles = |q: Option<&str>| -> Vec<String> { list_posts(&st, auth, &store, q).unwrap().into_iter().map(|p| p.title).collect() };
    assert_eq!(titles(None), vec!["a", "b", "c", "d"]);
    assert_eq!(titles(Some("category=1")), vec!["a", "b"]);
    assert_eq!(titles(Some("tag=7")), vec!["a", "c", "d"]);
    assert_eq!(titles(Some("category=1&tag=7")), vec!["a"]);
    assert_eq!(titles(Some("category=oops")), vec!["a", "b", "c", "d"]);
}

#[test]
fn categories_and_tags_need_name_and_slug() {
    let (st, h) = logged_in();
    let auth = Some(h.as_str());
    let mut cats = CategoryStore::new();
    let r = create_category(&st, auth, &mut cats, CreateCategoryRequest { name: "News".into(), slug: " ".into() });
    assert_eq!(r.err(), Some(ApiError::NameOrSlugEmpty));
    create_category(&st, auth, &mut cats, CreateCategoryRequest { name: "News".into(), slug: "news".into() }).unwrap();
    assert_eq!(list_categories(&st, auth, &cats).unwrap().len(), 1);
    assert_eq!(delete_category(&st, auth, &mut cats, 5), Err(ApiError::CategoryNotFound));
    let mut tags = TagStore::new();
    let r = create_tag(&st, auth, &mut tags, CreateTagRequest { name: "".into(), slug: "x".into() });
    assert_eq!(r.err(), Some(ApiError::NameOrSlugEmpty));
    assert!(list_tags(&st, None, &tags).is_err());
}

#[test]
fn page_slug_conflicts_on_update() {
    let (st, h) = logged_in();
    let auth = Some(h.as_str());
    let mut pages = PageStore::new();
    let a = create_page(&st, auth, &mut pages, CreatePageRequest { title: "A".into(), slug: "a".into(), body: "".into() }, 1).unwrap();
    let b = create_page(&st, auth, &mut pages, CreatePageRequest { title: "B".into(), slug: "b".into(), body: "".into() }, 1).unwrap();
    let req = UpdatePageRequest { title: None, slug: Some("a".into()), body: None, status: None };
    assert_eq!(update_page(&st, auth, &mut pages, b.id, req, 2).err(), Some(ApiError::SlugInUse));
    // Keeping its own slug is no conflict.
    let req = UpdatePageRequest { title: None, slug: Some("a".into()), body: None, status: Some(PageStatus::Published) };
    assert!(update_page(&st, auth, &mut pages, a.id, req, 2).is_ok());
    // The slug check comes before the page is looked for.
    let req = UpdatePageRequest { title: None, slug: Some("b".into()), body: None, status: None };
    assert_eq!(update_page(&st, auth, &mut pages, 42, req, 2).err(), Some(ApiError::SlugInUse));
    let req = UpdatePageRequest { title: None, slug: Some("c".into()), body: None, status: None };
    assert_eq!(update_page(&st, auth, &mut pages, 42, req, 2).err(), Some(ApiError::PageNotFound));
    let r = create_page(&st, auth, &mut pages, CreatePageRequest { title: " ".into(), slug: "z".into(), body: "".into() }, 1);
    assert_eq!(r.err(), Some(ApiError::TitleOrSlugEmpty));
    assert_eq!(get_page(&st, auth, &pages, a.id).unwrap().status, PageStatus::Published);
    assert_eq!(get_page_by_slug(&pages, "a").unwrap().id, a.id);
    assert!(get_page_by_slug(&pages, "b").is_err());
}

#[test]
fn comments_need_an_existing_post_and_text() {
    let (st, h) = logged_in();
    let auth = Some(h.as_str());
    let mut posts = PostStore::new();
    let mut comments = CommentStore::new();
    let r = create_comment(&posts, &mut comments, 0, CreateCommentRequest { author_name: "A".into(), body: "b".into() }, 1);
    assert_eq!(r.err(), Some(ApiError::PostNotFound));
    let p = create_post(&st, auth, &mut posts, CreatePostRequest { title: "P".into(), body: "".into(), categories: vec![], tags: vec![] }, 0).unwrap();
    let r = create_comment(&posts, &mut comments, p.id, CreateCommentRequest { author_name: " ".into(), body: "b".into() }, 1);
    assert_eq!(r.err(), Some(ApiError::AuthorOrBodyEmpty));
    let c = create_comment(&posts, &mut comments, p.id, CreateCommentRequest { author_name: "A".into(), body: "b".into() }, 5).unwrap();
    assert_eq!((c.id, c.post_id, c.created_at, c.approved), (0, p.id, 5, false));
    assert_eq!(approve_comment(&st, auth, &mut comments, 9).err(), Some(ApiError::CommentNotFound));
    assert!(approve_comment(&st, auth, &mut comments, c.id).unwrap().approved);
    assert!(delete_comment(&st, auth, &mut comments, c.id).is_ok());
    assert_eq!(delete_comment(&st, auth, &mut comments, c.id), Err(ApiError::CommentNotFound));
}

#[test]
fn store_files_sit_under_the_data_directory() {
    let root = std::path::Path::new("/srv/blog");
    assert_eq!(posts_path(root), root.join("posts.json"));
    assert_eq!(categories_path(root), root.join("categories.json"));
    assert_eq!(pages_path(root), root.join("pages.json"));
    assert_eq!(tags_path(root), root.join("tags.json"));
    assert_eq!(comments_path(root), root.join("comments.json"));
}

#[test]
fn the_clock_is_past_the_epoch() {
    assert!(now_unix() > 1_600_000_000);
}

#[test]
fn mail_outcome_decides_the_answer() {
    assert_eq!(otp_mail_answer(true), (200, "otp sent"));
    assert_eq!(otp_mail_answer(false), (502, "failed to send mail"));
}

#[test]
fn store_files_are_distinct() {
    let root = std::path::Path::new("data");
    let all = [posts_path(root), categories_path(root), pages_path(root), tags_path(root), comments_path(root)];
    for i in 0..all.len() {
        for j in 0..all.len() {
            assert_eq!(i == j, all[i] == all[j]);
        }
    }
    assert_eq!(comments_path(root).file_name().unwrap(), "comments.json");
}
