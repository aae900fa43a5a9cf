use pastebin::memory::{MemoryDb, MemoryError, DEFAULT_MAX_DATA_SIZE};
use pastebin::paste::{DbInterface, PasteEntry};

fn paste(data: &[u8], name: Option<&str>, mime: &str, best_before: Option<i64>) -> PasteEntry {
    PasteEntry {
        data: data.to_vec(),
        file_name: name.map(|s| s.to_string()),
        mime_type: mime.to_string(),
        best_before,
    }
}

fn store(db: &mut MemoryDb, p: &PasteEntry) -> Result<u64, MemoryError> {
    db.store_data(p.data.clone(), p.file_name.clone(), p.mime_type.clone(), p.best_before)
}

#[test]
fn what_is_stored_is_loaded_unchanged() {
    let mut db = MemoryDb::new();
    let a = paste(b"\0\xff binary", Some("a.bin"), "application/octet-stream", Some(17));
    let b = paste(b"", None, "text/plain", None);
    let id_a = store(&mut db, &a).unwrap();
    let id_b = store(&mut db, &b).unwrap();
    assert_ne!(id_a, id_b);
    assert_eq!(db.load_data(id_a), Ok(Some(a.clone())));
    assert_eq!(db.load_data(id_b), Ok(Some(b)));
    assert_eq!(db.find_data(id_a), Some(a));
    assert_eq!(db.get_file_name(id_a), Ok(Some("a.bin".to_string())));
    assert_eq!(db.get_file_name(id_b), Ok(None));
}

#[test]
fn identifiers_count_up_from_zero() {
    let mut db = MemoryDb::new();
    let p = paste(b"x", None, "text/plain", None);
    assert_eq!(store(&mut db, &p), Ok(0));
    assert_eq!(store(&mut db, &p), Ok(1));
    assert_eq!(db.remove_data(1), Ok(()));
    assert_eq!(store(&mut db, &p), Ok(2));
    assert_eq!(db.put_data(vec![], None, String::new(), None), Some(3));
}

#[test]
fn removing_twice_is_no_error() {
    let mut db = MemoryDb::new();
    let id = store(&mut db, &paste(b"x", None, "text/plain", None)).unwrap();
    assert_eq!(db.remove_data(id), Ok(()));
    assert_eq!(db.load_data(id), Ok(None));
    assert_eq!(db.remove_data(id), Ok(()));
    assert_eq!(db.load_data(id), Ok(None));
    assert_eq!(db.get_file_name(id), Ok(None));
}

#[test]
fn removing_leaves_the_others() {
    let mut db = MemoryDb::new();
    let a = paste(b"a", None, "text/plain", None);
    let b = paste(b"b", Some("b"), "text/plain", Some(1));
    let id_a = store(&mut db, &a).unwrap();
    let id_b = store(&mut db, &b).unwrap();
    assert_eq!(db.remove_data(id_a), Ok(()));
    assert_eq!(db.load_data(id_b), Ok(Some(b)));
    assert_eq!(db.remove_data(12345), Ok(()));
}

#[test]
fn unknown_identifiers_hold_nothing() {
    let db = MemoryDb::new();
    assert_eq!(db.load_data(0), Ok(None));
    assert_eq!(db.find_data(u64::MAX), None);
    assert_eq!(db.get_file_name(7), Ok(None));
}

#[test]
fn storage_names_its_limit() {
    assert_eq!(MemoryDb::new().max_data_size(), 15 * 1024 * 1024);
    assert_eq!(DEFAULT_MAX_DATA_SIZE, 15728640);
    assert_eq!(MemoryDb::with_max_data_size(3).max_data_size(), 3);
}

#[test]
fn a_copy_of_a_paste_is_the_same() {
    let p = paste(b"data", Some("n"), "m", Some(-5));
    assert_eq!(p.duplicate(), p);
    let q = paste(b"", None, "", None);
    assert_eq!(q.duplicate(), q);
}

#[test]
fn storage_is_full_when_the_identifiers_run_out() {
    let mut db = MemoryDb::starting_at(u64::MAX - 1);
    let p = paste(b"x", None, "text/plain", None);
    assert_eq!(store(&mut db, &p), Ok(u64::MAX - 1));
    assert_eq!(store(&mut db, &p), Err(MemoryError::Full));
    assert_eq!(db.put_data(vec![], None, String::new(), None), None);
    assert_eq!(db.load_data(u64::MAX - 1), Ok(Some(p)));
    assert_eq!(db.load_data(u64::MAX), Ok(None));
}
