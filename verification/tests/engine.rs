use std::sync::atomic::AtomicU32;

use ropey::Rope;
use rem::editor_core::{Document, Engine, Error};
use rem::pane::PaneID;

#[test]
fn name_less_document_is_empty() {
    let d = Document::name_less().unwrap();
    assert!(d.path().is_none());
    assert_eq!(d.content().len_chars(), 0);
}

#[test]
fn document_from_path() {
    let d = Document::from_path("/tmp/a.txt".to_string(), Some(Rope::from_str("hello\nworld")));
    assert_eq!(d.path().unwrap(), "/tmp/a.txt");
    assert_eq!(d.content().to_string(), "hello\nworld");
    let e = Document::from_path("/tmp/new.txt".to_string(), None);
    assert_eq!(e.content().len_chars(), 0);
    let copy = d.clone();
    assert_eq!(copy.content().to_string(), "hello\nworld");
}

#[test]
fn open_document_shows_it_on_the_pane() {
    let ids = AtomicU32::new(0);
    let p1 = PaneID::next(&ids);
    let p2 = PaneID::next(&ids);
    assert_ne!(p1, p2);
    let mut engine = Engine::new();
    assert!(engine.get_document(p1).is_none());
    engine.open_document(p1, Ok(Document::from_path("one".to_string(), Some(Rope::from_str("1"))))).unwrap();
    engine.open_document(p2, Ok(Document::from_path("two".to_string(), Some(Rope::from_str("2"))))).unwrap();
    assert_eq!(engine.get_document(p1).unwrap().path().unwrap(), "one");
    assert_eq!(engine.get_document(p2).unwrap().path().unwrap(), "two");
    // opening again on p1 replaces what p1 shows and leaves p2 alone
    engine.open_document(p1, Ok(Document::from_path("three".to_string(), None))).unwrap();
    assert_eq!(engine.get_document(p1).unwrap().path().unwrap(), "three");
    assert_eq!(engine.get_document(p2).unwrap().path().unwrap(), "two");
}

#[test]
fn open_document_error_changes_nothing() {
    let ids = AtomicU32::new(40);
    let p = PaneID::next(&ids);
    let mut engine = Engine::new();
    let err = std::io::Error::new(std::io::ErrorKind::NotFound, "missing");
    match engine.open_document(p, Err(Error::FileError(err))) {
        Err(Error::FileError(e)) => assert_eq!(e.kind(), std::io::ErrorKind::NotFound),
        other => panic!("unexpected {:?}", other),
    }
    assert!(engine.get_document(p).is_none());
    assert!(matches!(engine.open_document(p, Err(Error::InsertError)), Err(Error::InsertError)));
    assert!(matches!(engine.open_document(p, Err(Error::DeleteError)), Err(Error::DeleteError)));
    assert!(matches!(engine.open_document(p, Err(Error::FileExists)), Err(Error::FileExists)));
    assert!(engine.get_document(p).is_none());
}
