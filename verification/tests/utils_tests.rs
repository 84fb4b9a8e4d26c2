use transmuta::error::TransmutaError;
use transmuta::utils::{choose_thread_count, get_file_extension, get_thread_count};

#[test]
fn file_extension_is_lowered() {
    assert_eq!(get_file_extension("book.XLSX"), Ok("xlsx".to_string()));
    assert_eq!(get_file_extension("a/b/c.Csv"), Ok("csv".to_string()));
    assert_eq!(get_file_extension("archive.tar.GZ"), Ok("gz".to_string()));
}

#[test]
fn file_extension_may_be_missing() {
    assert_eq!(get_file_extension("book"), Err(TransmutaError::MissingExtension));
    assert_eq!(get_file_extension(".hidden"), Err(TransmutaError::MissingExtension));
    assert_eq!(get_file_extension(""), Err(TransmutaError::MissingExtension));
}

#[test]
fn thread_count_asked_for() {
    assert_eq!(choose_thread_count(Some(3), 8), 3);
    assert_eq!(get_thread_count(Some(5)), 5);
    assert_eq!(get_thread_count(Some(1)), 1);
}

#[test]
fn thread_count_from_processors() {
    assert_eq!(choose_thread_count(None, 8), 8);
    assert_eq!(choose_thread_count(Some(0), 6), 6);
    assert!(get_thread_count(None) >= 1);
    assert_eq!(get_thread_count(Some(0)), get_thread_count(None));
}
