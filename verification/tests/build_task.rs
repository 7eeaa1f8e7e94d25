use qi_lsp::build_task::{uri_to_path, uri_to_windows_path, UriError};
use std::path::PathBuf;

#[test]
fn test_uri_to_path_unix() {
    let uri = "file:///home/user/project/main.qi";
    let path = uri_to_path(uri).unwrap();
    assert_eq!(PathBuf::from(path), PathBuf::from("/home/user/project/main.qi"));
}

#[test]
fn test_uri_to_path_windows() {
    let uri = "file:///C:/Users/user/project/main.qi";
    let path = uri_to_windows_path(uri).unwrap();
    assert_eq!(path, "C:\\Users\\user\\project\\main.qi");
}

#[test]
fn uri_without_file_scheme_is_rejected() {
    assert_eq!(uri_to_path("http://x/y"), Err(UriError::InvalidFormat));
    assert_eq!(uri_to_windows_path("file:/x"), Err(UriError::InvalidFormat));
    assert_eq!(UriError::InvalidFormat.message(), "Invalid URI format");
}
