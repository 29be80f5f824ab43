use fpm::auth::{
    auth_code_and_state, code_and_state, get_identities, handle_auth, identities_of, request_url,
    AuthRoute,
};
use fpm::error::{checked_response, Error};
use fpm::file::{Document, File, ServePlan, Static};

fn pairs(list: &[(&str, &str)]) -> Vec<(String, String)> {
    list.iter().map(|(k, v)| (k.to_string(), v.to_string())).collect()
}

#[test]
fn paths_name_routes() {
    assert_eq!(handle_auth("/auth/"), AuthRoute::Index);
    assert_eq!(handle_auth("/auth/login/"), AuthRoute::Login);
    assert_eq!(handle_auth("/auth/logout/"), AuthRoute::Logout);
    assert_eq!(handle_auth("/auth/auth/"), AuthRoute::Auth);
    assert_eq!(handle_auth("/auth/get-identities/"), AuthRoute::GetIdentities);
    assert_eq!(handle_auth("/auth"), AuthRoute::NotFound);
    assert_eq!(handle_auth("/auth/login"), AuthRoute::NotFound);
    assert_eq!(handle_auth(""), AuthRoute::NotFound);
}

#[test]
fn the_address_of_a_request() {
    assert_eq!(request_url("http", "localhost:8000", "/auth/auth/?code=1"), "http://localhost:8000/auth/auth/?code=1");
}

#[test]
fn the_last_code_and_state_count() {
    assert_eq!(
        code_and_state(&pairs(&[("code", "a"), ("x", "y"), ("state", "s"), ("code", "b")])),
        ("b".to_string(), "s".to_string())
    );
    assert_eq!(code_and_state(&pairs(&[("Code", "a")])), (String::new(), String::new()));
    assert_eq!(code_and_state(&pairs(&[])), (String::new(), String::new()));
}

#[test]
fn the_code_and_state_of_an_address() {
    assert_eq!(
        auth_code_and_state("http://localhost:8000/auth/auth/?code=a%20b&state=x+y&other=1"),
        Some(("a b".to_string(), "x y".to_string()))
    );
    assert_eq!(auth_code_and_state("http://localhost/"), Some((String::new(), String::new())));
    assert_eq!(auth_code_and_state("not an address"), None);
}

#[test]
fn every_pair_is_an_identity() {
    let list = identities_of(&pairs(&[("github-team", "a"), ("github-team", "b"), ("", "")]));
    assert_eq!(list.len(), 3);
    assert_eq!((list[0].key.as_str(), list[0].value.as_str()), ("github-team", "a"));
    assert_eq!((list[1].key.as_str(), list[1].value.as_str()), ("github-team", "b"));
    assert_eq!((list[2].key.as_str(), list[2].value.as_str()), ("", ""));
}

#[test]
fn the_identities_of_an_address() {
    let list = get_identities("https://fpm.dev/auth/get-identities/?github-starred=fpm&email=a%40b.c").unwrap();
    assert_eq!(list.len(), 2);
    assert_eq!((list[0].key.as_str(), list[0].value.as_str()), ("github-starred", "fpm"));
    assert_eq!((list[1].key.as_str(), list[1].value.as_str()), ("email", "a@b.c"));
    assert!(get_identities("https://fpm.dev/").unwrap().is_empty());
    assert!(get_identities("/auth/").is_none());
}

#[test]
fn answers_of_a_remote_service() {
    assert_eq!(checked_response(true, None, Some(5)).unwrap(), 5);
    assert_eq!(checked_response(true, Some("ignored".to_string()), Some(5)).unwrap(), 5);
    match checked_response::<u8>(true, None, None) {
        Err(Error::PackageError { message }) => assert_eq!(message, "Unexpected API behaviour"),
        other => panic!("unexpected {:?}", other),
    }
    match checked_response(false, Some("denied".to_string()), Some(5)) {
        Err(Error::PackageError { message }) => assert_eq!(message, "denied"),
        other => panic!("unexpected {:?}", other),
    }
    match checked_response::<u8>(false, None, None) {
        Err(Error::PackageError { message }) => assert_eq!(message, "Some Error occurred"),
        other => panic!("unexpected {:?}", other),
    }
}

fn document(id: &str) -> Document {
    Document { package_name: "p".to_string(), id: id.to_string(), content: "c".to_string(), parent_path: "/".to_string() }
}

fn fixed(id: &str) -> Static {
    Static { package_name: "p".to_string(), id: id.to_string(), content: vec![1, 2], base_path: "/".to_string() }
}

#[test]
fn files_are_served_by_kind() {
    assert!(matches!(File::Ftd(document("index.ftd")).serve_plan(), ServePlan::Render));
    match File::Image(fixed("images/logo.png")).serve_plan() {
        ServePlan::Content { content_type } => assert_eq!(content_type.as_deref(), Some("image/png")),
        other => panic!("unexpected {:?}", other),
    }
    match File::Image(fixed("images/logo")).serve_plan() {
        ServePlan::Content { content_type } => {
            assert_eq!(content_type.as_deref(), Some("application/octet-stream"))
        }
        other => panic!("unexpected {:?}", other),
    }
    match File::Static(fixed("a.css")).serve_plan() {
        ServePlan::Content { content_type } => assert_eq!(content_type, None),
        other => panic!("unexpected {:?}", other),
    }
    assert!(matches!(File::Markdown(document("a.md")).serve_plan(), ServePlan::UnknownHandler));
    assert!(matches!(File::Code(document("a.rs")).serve_plan(), ServePlan::UnknownHandler));
}

#[test]
fn kinds_and_names_of_files() {
    assert!(File::Static(fixed("a.css")).is_static());
    assert!(File::Image(fixed("a.png")).is_static());
    assert!(!File::Ftd(document("a.ftd")).is_static());
    assert!(!File::Markdown(document("a.md")).is_static());
    assert!(!File::Code(document("a.rs")).is_static());
    assert_eq!(File::Code(document("a.rs")).get_id(), "a.rs");
    assert_eq!(File::Image(fixed("a.png")).get_id(), "a.png");
    let copy = File::Static(fixed("a.css")).clone();
    match copy {
        File::Static(s) => assert_eq!((s.id.as_str(), s.content.as_slice()), ("a.css", [1u8, 2].as_slice())),
        other => panic!("unexpected {:?}", other),
    }
}

#[test]
fn kinds_and_statuses_of_errors() {
    let not_found = Error::NotFound { path: "a".to_string(), version: Some(1) };
    let usage = Error::UsageError { message: "m".to_string() };
    let package = Error::PackageError { message: "m".to_string() };
    let conflict = Error::ConflictError { conflicts: Vec::new() };
    assert_eq!((not_found.kind(), not_found.status_code()), ("NotFound", 404));
    assert_eq!((usage.kind(), usage.status_code()), ("UsageError", 400));
    assert_eq!((package.kind(), package.status_code()), ("PackageError", 500));
    assert_eq!((conflict.kind(), conflict.status_code()), ("ConflictError", 409));
}
