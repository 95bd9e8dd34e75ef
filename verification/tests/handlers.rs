use mugunghwa::auth::{login, logout_user, refresh, register, AuthUser, User};
use mugunghwa::commons::{api_key_header, check_key, cors_headers, ApiError};
use mugunghwa::files::{file_search_pattern, get_file, upload_file};
use mugunghwa::jwt::verify_token;
use mugunghwa::password::{check_password, hash_password, u32_from_le, u64_from_le, GetRandomWrapper, PasswordCheck};
use mugunghwa::pattern::{generate_slug, summarize, Pattern};
use mugunghwa::snowflake::{generate_snowflake, EPOCH_MS};
use mugunghwa::writings::{add_writings, get_writings, update_writing, Writing, WritingEdit};

fn writing(id: Option<&str>, title: &str, body: &str) -> Writing {
    Writing {
        id: id.map(|s| s.to_string()),
        title: title.to_string(),
        slug: None,
        hero: Some("https://example.com/hero.png".to_string()),
        body: body.to_string(),
        created: Some("2025-01-02T00:00:00.000Z".to_string()),
        updated: None,
        deleted: None,
    }
}

#[test]
fn api_key_check() {
    assert_eq!(check_key(Some("secret"), "secret"), None);
    assert_eq!(check_key(Some("wrong"), "secret"), Some(ApiError::Unauthorized));
    assert_eq!(check_key(None, "secret"), Some(ApiError::Unauthorized));
    assert_eq!(check_key(Some(""), "secret"), Some(ApiError::Unauthorized));
    // a missing header is refused, even where the configured key is empty
    assert_eq!(check_key(None, ""), Some(ApiError::Unauthorized));
    assert_eq!(check_key(Some(""), ""), None);
    assert_eq!(api_key_header(), "x-mugunghwa-key");
    assert_eq!(ApiError::Unauthorized.status(), 401);
    assert_eq!(ApiError::Unauthorized.message(), "Unauthorized");
}

#[test]
fn error_statuses_and_messages() {
    let all = [
        (ApiError::UserNotFound, 404, "User not found"),
        (ApiError::InvalidPasswordHash, 500, "Invalid password hash"),
        (ApiError::InvalidCredentials, 401, "Invalid credentials"),
        (ApiError::InvalidToken, 401, "Token missing or invalid"),
        (ApiError::NotFound, 404, "Not found"),
        (ApiError::FileRequired, 400, " file required"),
        (ApiError::RefreshTokenInvalid, 401, "Refresh token expired or not found"),
        (ApiError::Internal, 500, "Internal error"),
    ];
    for (e, status, message) in all {
        assert_eq!(e.status(), status);
        assert_eq!(e.message(), message);
    }
}

#[test]
fn cors_headers_as_documented() {
    assert_eq!(
        cors_headers(),
        vec![
            ("Access-Control-Allow-Origin", "*"),
            ("Access-Control-Allow-Methods", "GET, OPTIONS, POST, PATCH"),
            ("Access-Control-Allow-Headers", "Content-Type, x-mugunghwa-key"),
        ]
    );
}

#[test]
fn slugs() {
    assert_eq!(generate_slug(&"Writing Title".to_string()), Some("writing-title".to_string()));
    assert_eq!(generate_slug(&"Hello World!".to_string()), Some("hello-world-".to_string()));
    assert_eq!(generate_slug(&"a  --  b".to_string()), Some("a-b".to_string()));
    assert_eq!(generate_slug(&"Ünïcode wörds_ok".to_string()), Some("ünïcode-wörds_ok".to_string()));
    assert_eq!(generate_slug(&"".to_string()), Some("".to_string()));
}

#[test]
fn summaries_strip_images_and_cut_at_150_chars() {
    let p = Pattern::image_markdown().unwrap();
    assert_eq!(summarize(&p, "![alt text](img.png) Hello"), "Hello");
    assert_eq!(summarize(&p, "short"), "short");
    // only the images go: the text between two of them stays
    assert_eq!(summarize(&p, "![one cat](a.png) keep this ![two cats](b.jpg) end"), "keep this end");
    let long: String = "é".repeat(200);
    assert_eq!(summarize(&p, &long), "é".repeat(150));
    assert_eq!(summarize(&p, &"x".repeat(150)), "x".repeat(150));
}

#[test]
fn writing_list_keeps_everything_but_the_body() {
    let rows = vec![writing(Some("1"), "First", "![my cat](cat.jpg) about cats"), writing(None, "Second", &"b".repeat(151))];
    let list = get_writings(&rows).unwrap();
    assert_eq!(list.len(), 2);
    assert_eq!(list[0].body, "about cats");
    assert_eq!(list[0].id.as_deref(), Some("1"));
    assert_eq!(list[0].title, "First");
    assert_eq!(list[0].hero, rows[0].hero);
    assert_eq!(list[0].created, rows[0].created);
    assert_eq!(list[1].body, "b".repeat(150));
    assert_eq!(list[1].id, None);
    assert!(get_writings(&vec![]).unwrap().is_empty());
}

#[test]
fn new_writing_row() {
    let w = writing(None, "My First Post!", "body text");
    let row = add_writings(&w, EPOCH_MS + 1000, None).unwrap();
    assert_eq!(row.id, "4196392960");
    assert_eq!(row.title, "My First Post!");
    assert_eq!(row.slug, "my-first-post-");
    assert_eq!(row.hero.as_deref(), Some("https://example.com/hero.png"));
    assert_eq!(row.body, "body text");
    let mut plain = writing(None, "x", "y");
    plain.hero = None;
    assert_eq!(add_writings(&plain, EPOCH_MS, Some("a")).unwrap().hero, None);
}

#[test]
fn writing_update() {
    let edit = WritingEdit { id: Some("99".to_string()), title: "New Title".to_string(), body: Some("new body".to_string()) };
    let u = update_writing(&edit).unwrap();
    assert_eq!(u.id, "99");
    assert_eq!(u.title, "New Title");
    assert_eq!(u.slug, "new-title");
    assert_eq!(u.body.as_deref(), Some("new body"));
    // the body is optional and then stays as it was
    let edit = WritingEdit { id: Some("7".to_string()), title: "Only The Title".to_string(), body: None };
    let u = update_writing(&edit).unwrap();
    assert_eq!(u.slug, "only-the-title");
    assert_eq!(u.body, None);
}

#[test]
fn files() {
    let up = upload_file("photo.png");
    assert_eq!(up.key, "photo.png");
    assert_eq!(up.path, "/utils/file/photo.png");
    assert_eq!(get_file(true, true), Ok(()));
    assert_eq!(get_file(false, true), Err(ApiError::NotFound));
    assert_eq!(get_file(true, false), Err(ApiError::NotFound));
    assert_eq!(file_search_pattern("cat"), "%cat%");
    assert_eq!(file_search_pattern(""), "%%");
}

#[test]
fn little_endian_words() {
    assert_eq!(u32_from_le([1, 0, 0, 0]), 1);
    assert_eq!(u32_from_le([0x78, 0x56, 0x34, 0x12]), 0x12345678);
    assert_eq!(u32_from_le([0x78, 0x56, 0x34, 0x12]), u32::from_le_bytes([0x78, 0x56, 0x34, 0x12]));
    assert_eq!(u64_from_le([1, 2, 3, 4, 5, 6, 7, 8]), u64::from_le_bytes([1, 2, 3, 4, 5, 6, 7, 8]));
    assert_eq!(u64_from_le([0xff; 8]), u64::MAX);
}

#[test]
fn random_source_fills_buffers() {
    let mut rng = GetRandomWrapper;
    let mut buf = [0u8; 64];
    assert!(rng.try_fill_bytes(&mut buf).is_ok());
    assert!(buf.iter().any(|b| *b != 0));
    assert!(rng.next_u32().is_some());
    assert!(rng.next_u64().is_some());
}

#[test]
fn registered_password_logs_in() {
    let salt = [7u8; 16];
    let creds = AuthUser { username: "ana".to_string(), password: "hunter42".to_string() };
    let now = EPOCH_MS + 1000;
    let row = register(&creds, now, None, &salt).unwrap();
    assert_eq!(row.id, "4196392960");
    assert_eq!(row.username, "ana");
    assert!(row.password.starts_with("$argon2id$v=19$"));
    assert_eq!(Some(row.password.clone()), hash_password("hunter42", &salt));
    assert_eq!(check_password("hunter42", &row.password), PasswordCheck::Match);
    assert_eq!(check_password("hunter43", &row.password), PasswordCheck::Mismatch);
    assert_eq!(check_password("hunter42", "not a hash"), PasswordCheck::Malformed);

    let user = User {
        id: row.id.clone(),
        username: row.username.clone(),
        password: row.password.clone(),
        created: None,
        updated: None,
        deleted: None,
    };
    let later = now + 60_000;
    let auth = login(Some(&user), &creds, later, Some("worker-1")).unwrap();
    assert_eq!(auth.refresh, generate_snowflake(later, Some("worker-1")).to_string());
    assert_eq!(verify_token(&auth.token, later / 1000), Some(row.id.clone()));

    let wrong = AuthUser { username: "ana".to_string(), password: "nope".to_string() };
    assert!(matches!(login(Some(&user), &wrong, later, None), Err(ApiError::InvalidCredentials)));
    assert!(matches!(login(None, &creds, later, None), Err(ApiError::UserNotFound)));
    let broken = User { password: "plaintext".to_string(), ..user };
    assert!(matches!(login(Some(&broken), &creds, later, None), Err(ApiError::InvalidPasswordHash)));
}

#[test]
fn empty_buffer_fills_at_once() {
    let mut rng = GetRandomWrapper;
    let mut empty: [u8; 0] = [];
    assert!(rng.try_fill_bytes(&mut empty).is_ok());
}

#[test]
fn refresh_issues_a_new_pair_for_the_stored_user() {
    let now = EPOCH_MS + 2000;
    let auth = refresh(Some("4196392960"), now, None).unwrap();
    assert_eq!(verify_token(&auth.token, now / 1000), Some("4196392960".to_string()));
    assert_eq!(auth.refresh, generate_snowflake(now, None).to_string());
    assert!(matches!(refresh(None, now, None), Err(ApiError::RefreshTokenInvalid)));
}

#[test]
fn logout_needs_a_stored_user() {
    assert_eq!(logout_user(true), Ok(()));
    assert_eq!(logout_user(false), Err(ApiError::UserNotFound));
    assert_eq!(ApiError::UserNotFound.status(), 404);
}

#[test]
fn refusals_need_no_clock() {
    let creds = AuthUser { username: "nobody".to_string(), password: "x".to_string() };
    assert!(matches!(login(None, &creds, 0, None), Err(ApiError::UserNotFound)));
    assert!(matches!(refresh(None, 0, None), Err(ApiError::RefreshTokenInvalid)));
}
