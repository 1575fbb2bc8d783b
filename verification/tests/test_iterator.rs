use occ_kv::db::DB;
use occ_kv::error::ErrorKind;
use occ_kv::iterator::{insert_key, place, IteratorMode, Placement};
use occ_kv::options::{Options, ReadOptions};

#[test]
fn keys_are_ordered_byte_by_byte() {
    assert_eq!(place(b"", b""), Placement::Same);
    assert_eq!(place(b"", b"a"), Placement::Before);
    assert_eq!(place(b"a", b""), Placement::After);
    assert_eq!(place(b"a", b"b"), Placement::Before);
    assert_eq!(place(b"ab", b"b"), Placement::Before);
    assert_eq!(place(b"b", b"ab"), Placement::After);
    assert_eq!(place(b"k1", b"k10"), Placement::Before);
    assert_eq!(place(b"k2", b"k10"), Placement::After);
    assert_eq!(place(&[0xff], &[0x7f, 0xff]), Placement::After);
    assert_eq!(place(b"same", b"same"), Placement::Same);
}

#[test]
fn inserted_keys_stay_in_order_without_repeats() {
    let mut keys: Vec<Vec<u8>> = Vec::new();
    for k in [b"m".as_slice(), b"a", b"z", b"m", b"ab", b"", b"a"] {
        insert_key(&mut keys, k);
    }
    let expected: Vec<Vec<u8>> =
        vec![b"".to_vec(), b"a".to_vec(), b"ab".to_vec(), b"m".to_vec(), b"z".to_vec()];
    assert_eq!(keys, expected);
}

#[test]
fn iterator_walks_live_keys_in_order() {
    let mut db = DB::open_default("_it").unwrap();
    db.put(b"k3", b"v3").unwrap();
    db.put(b"k1", b"v1").unwrap();
    db.put(b"k2", b"old").unwrap();
    db.put(b"k2", b"v2").unwrap();
    db.put(b"gone", b"x").unwrap();
    db.delete(b"gone").unwrap();

    let mut it = db.raw_iterator();
    assert!(!it.valid());
    assert!(it.status().is_ok());
    assert_eq!(it.len(), 3);
    it.seek_to_first();
    assert_eq!(it.key(), Some(b"k1".as_ref()));
    it.next();
    assert_eq!(it.key(), Some(b"k2".as_ref()));
    assert_eq!(it.value(), Some(b"v2".as_ref()));
    it.next();
    assert_eq!(it.key(), Some(b"k3".as_ref()));
    it.next();
    assert!(!it.valid());
    it.next();
    assert!(!it.valid());

    it.seek_to_last();
    assert_eq!(it.key(), Some(b"k3".as_ref()));
    it.prev();
    assert_eq!(it.key(), Some(b"k2".as_ref()));
    it.prev();
    it.prev();
    assert!(!it.valid());
    it.prev();
    assert!(!it.valid());

    it.seek(b"k2");
    assert_eq!(it.key(), Some(b"k2".as_ref()));
    it.seek(b"k25");
    assert_eq!(it.key(), Some(b"k3".as_ref()));
    it.seek(b"a");
    assert_eq!(it.key(), Some(b"k1".as_ref()));
    it.seek(b"z");
    assert!(!it.valid());
    assert_eq!(it.key(), None);
    assert_eq!(it.value(), None);

    let end = db.iterator(IteratorMode::End);
    assert_eq!(end.key(), Some(b"k3".as_ref()));
    assert_eq!(end.collect_forward(), vec![(b"k3".to_vec(), b"v3".to_vec())]);
    assert!(db.raw_iterator().collect_forward().is_empty());
}

#[test]
fn iterator_of_an_empty_database_stands_nowhere() {
    let db = DB::open_default("_it_empty").unwrap();
    let mut it = db.iterator(IteratorMode::Start);
    assert!(!it.valid());
    it.seek_to_last();
    assert!(!it.valid());
    it.seek(b"k");
    assert!(!it.valid());
    assert!(it.collect_forward().is_empty());
}

#[test]
fn iterators_see_their_snapshot_and_their_transaction() {
    let mut opts = Options::default();
    opts.create_if_missing(true);
    opts.create_missing_column_families(true);
    let mut db = DB::open_cf(&opts, "_it_views", &["cf"]).unwrap();
    let cf = db.cf_handle("cf").unwrap();
    db.put_cf(&cf, b"a", b"1").unwrap();
    db.put(b"in_default", b"d").unwrap();
    let snap = db.snapshot();
    db.put_cf(&cf, b"b", b"2").unwrap();

    let ro = ReadOptions::default();
    let mut at_snap = snap.get_raw_iter_cf(&db, &cf, &ro).unwrap();
    at_snap.seek_to_first();
    assert_eq!(at_snap.collect_forward(), vec![(b"a".to_vec(), b"1".to_vec())]);

    let mut txn = db.transaction_default();
    txn.delete_cf(&db, &cf, b"a").unwrap();
    txn.put_cf(&db, &cf, b"c", b"3").unwrap();
    let mut through = txn.get_raw_iter_cf(&db, &cf, &ro).unwrap();
    through.seek_to_first();
    assert_eq!(
        through.collect_forward(),
        vec![(b"b".to_vec(), b"2".to_vec()), (b"c".to_vec(), b"3".to_vec())]
    );
    let mut default_family = txn.get_raw_iter(&db, &ro);
    default_family.seek_to_first();
    assert_eq!(default_family.collect_forward(), vec![(b"in_default".to_vec(), b"d".to_vec())]);

    let txn_snap = txn.snapshot(&db);
    let mut it = txn_snap.get_raw_iter_cf(&db, &cf, &ro).unwrap();
    it.seek_to_first();
    assert_eq!(it.len(), 2);

    let mut now = db.get_raw_iter_cf(&cf, &ro).unwrap();
    now.seek_to_first();
    assert_eq!(now.len(), 2);
    assert_eq!(now.key(), Some(b"a".as_ref()));
}

#[test]
fn scans_are_refused_like_reads() {
    let mut opts = Options::default();
    opts.create_if_missing(true);
    opts.create_missing_column_families(true);
    let mut db = DB::open_cf(&opts, "_it_refused", &["cf"]).unwrap();
    let cf = db.cf_handle("cf").unwrap();
    db.put_cf(&cf, b"a", b"1").unwrap();
    let mut snap = db.snapshot();
    snap.release();
    let ro = ReadOptions::default();

    let it = snap.get_raw_iter(&db, &ro);
    assert!(!it.valid());
    assert_eq!(it.len(), 0);
    assert_eq!(it.status().unwrap_err().kind(), ErrorKind::Validation);
    let e = snap.get_raw_iter_cf(&db, &cf, &ro).err().unwrap();
    assert_eq!(e.message(), "Invalid argument: read options refer to a released snapshot");

    db.drop_cf("cf").unwrap();
    let e = db.get_raw_iter_cf(&cf, &ro).err().unwrap();
    assert_eq!(e.message(), "Invalid argument: column family not found");
}
