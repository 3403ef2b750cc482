use arui_core::errors::IOError;
use arui_core::utils::{check_path, generate_id};

#[test]
fn test_generate_id() {
    let id = generate_id();
    assert_eq!(id.len(), 36);
}

#[test]
fn test_check_path_valid() {
    let valid_path = check_path("./src");
    assert!(valid_path.is_ok());
}

#[test]
fn test_check_path_invalid() {
    let invalid_path = check_path("/not_exist");
    match invalid_path {
        Err(IOError::InvalidPath(p)) => assert_eq!(p, "/not_exist"),
        _ => panic!("expected InvalidPath"),
    }
}

#[test]
fn test_is_invalid_path() {
    let e = IOError::InvalidPath("/not_exist".to_string());
    assert!(e.is_invalid_path());
    let e = IOError::NotBuilt;
    assert!(!e.is_invalid_path());
}
