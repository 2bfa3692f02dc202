use websocketz::options::{ConnectOptions, ConnectOptionsError};

#[test]
fn empty_path() {
    let error = ConnectOptions::new(b"".to_vec()).unwrap_err();
    assert!(matches!(error, ConnectOptionsError::EmptyPath));

    let error = ConnectOptions::new(b"    ".to_vec()).unwrap_err();
    assert!(matches!(error, ConnectOptionsError::EmptyPath));
}

#[test]
fn path_is_trimmed() {
    let options = ConnectOptions::new(b"  /test  ".to_vec()).unwrap();
    assert_eq!(options.path(), &b"/test".to_vec());

    let options = ConnectOptions::new(b"/test".to_vec()).unwrap();
    assert_eq!(options.path(), &b"/test".to_vec());
}
