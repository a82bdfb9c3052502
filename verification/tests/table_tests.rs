use caprpc::captable::{CapTable, TableError};

#[test]
fn export_is_idempotent_per_object() {
    let mut t = CapTable::new();
    let a = t.export_local(10).unwrap();
    let b = t.export_local(20).unwrap();
    assert_ne!(a, b);
    // exporting the same object again reuses its id
    let a2 = t.export_local(10).unwrap();
    assert_eq!(a, a2);
    let b2 = t.export_local(20).unwrap();
    assert_eq!(b, b2);
}

#[test]
fn export_refcount_counts_grants_minus_releases() {
    let mut t = CapTable::new();
    let id = t.export_local(10).unwrap();
    assert_eq!(t.export_local(10).unwrap(), id);
    assert_eq!(t.export_local(10).unwrap(), id);
    // three grants; release two, then one
    assert_eq!(t.release_export(id, 2).unwrap(), 1);
    assert_eq!(t.release_export(id, 1).unwrap(), 0);
    // the slot is free now: the id may be reassigned to a new object
    let id2 = t.export_local(30).unwrap();
    assert_eq!(id2, id);
}

#[test]
fn over_release_is_a_protocol_violation() {
    let mut t = CapTable::new();
    let id = t.export_local(10).unwrap();
    assert_eq!(t.release_export(id, 2), Err(TableError::ProtocolViolation));
    // the failed release changed nothing: one reference is still held
    assert_eq!(t.release_export(id, 1).unwrap(), 0);
}

#[test]
fn release_of_unknown_export_is_a_protocol_violation() {
    let mut t = CapTable::new();
    assert_eq!(t.release_export(5, 1), Err(TableError::ProtocolViolation));
}

#[test]
fn imports_count_grants_and_release_all_at_zero() {
    let mut t = CapTable::new();
    assert_eq!(t.import_remote(4).unwrap(), 1);
    assert_eq!(t.import_remote(4).unwrap(), 2);
    let (rem, granted) = t.drop_import(4).unwrap();
    assert_eq!((rem, granted), (1, 2));
    let (rem, granted) = t.drop_import(4).unwrap();
    assert_eq!((rem, granted), (0, 2));
    // the slot is gone: another drop is a protocol violation
    assert_eq!(t.drop_import(4), Err(TableError::ProtocolViolation));
}
