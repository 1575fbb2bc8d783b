use occ_kv::db::{TransactionDB, DB};
use occ_kv::error::ErrorKind;
use occ_kv::options::ReadOptions;
use occ_kv::transaction::Transaction;

#[test]
fn typed_transaction_buffers_reads_and_commits() {
    let mut db = TransactionDB::open_default("_typed").unwrap();
    let mut txn: Transaction<DB> = db.begin(false);
    txn.put(&db, b"k1", b"v1").unwrap();
    assert_eq!(txn.get(&db, b"k1").unwrap().unwrap().as_slice(), b"v1");
    assert!(db.get(b"k1").unwrap().is_none());
    txn.set_savepoint();
    txn.delete(&db, b"k1").unwrap();
    txn.rollback_to_savepoint().unwrap();
    txn.commit(&mut db).unwrap();
    assert_eq!(db.get(b"k1").unwrap().unwrap().as_slice(), b"v1");
    assert_eq!(
        txn.get_pinned_cf_full(&db, None, b"k1", None).unwrap().unwrap().as_slice(),
        b"v1"
    );
}

#[test]
fn typed_transactions_conflict_on_exclusive_reads() {
    let mut db = TransactionDB::open_default("_typed_conflict").unwrap();
    db.put(b"k", b"v").unwrap();
    let mut t1: Transaction<DB> = Transaction::new(db.latest_sequence_number(), false);
    let mut t2: Transaction<DB> = db.begin(false);
    t1.get_for_update(&db, b"k").unwrap();
    t2.get_for_update_opt(&db, b"k", &ReadOptions::default(), true).unwrap();
    t2.commit(&mut db).unwrap();
    assert_eq!(t1.commit(&mut db).unwrap_err().kind(), ErrorKind::Conflict);
    t1.rollback().unwrap();
    assert!(t1.rollback_to_savepoint().is_err());
}

#[test]
fn typed_transaction_snapshot_is_pinned_to_the_start() {
    let mut db = TransactionDB::open_default("_typed_snapshot").unwrap();
    db.put(b"k", b"v1").unwrap();
    let txn: Transaction<DB> = db.begin(true);
    db.put(b"k", b"v2").unwrap();
    let mut snap = txn.snapshot(&db);
    assert_eq!(snap.get(&db, b"k").unwrap().unwrap().as_slice(), b"v1");
    let keys: [&[u8]; 2] = [b"k", b"none"];
    let out = snap.multi_get_full(&db, &keys, None);
    assert_eq!(out[0].as_ref().unwrap().as_ref().unwrap().as_slice(), b"v1");
    assert!(out[1].as_ref().unwrap().is_none());
    snap.release();
    assert!(snap.get(&db, b"k").is_err());
}
