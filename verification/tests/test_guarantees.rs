use occ_kv::db::DB;
use occ_kv::error::ErrorKind;
use occ_kv::ops::multi_get::{MultiGet, MultiGetCF};
use occ_kv::options::{OptimisticTransactionOptions, Options, ReadOptions, WriteOptions};

fn bytes(r: Result<Option<occ_kv::bytes::DBVector>, occ_kv::error::Error>) -> Option<Vec<u8>> {
    r.unwrap().map(|v| v.to_vec())
}

#[test]
fn transaction_reads_its_own_writes_before_commit() {
    let mut db = DB::open_default("_ryw").unwrap();
    db.put(b"k", b"old").unwrap();
    let mut writer = db.transaction_default();
    let mut other = db.transaction_default();

    writer.put(&db, b"k", b"new").unwrap();
    writer.put(&db, b"unrelated", b"x").unwrap();

    assert_eq!(bytes(writer.get(&db, b"k")), Some(b"new".to_vec()));
    assert_eq!(bytes(other.get(&db, b"k")), Some(b"old".to_vec()));
    assert_eq!(bytes(db.get(b"k")), Some(b"old".to_vec()));

    writer.delete(&db, b"k").unwrap();
    assert_eq!(bytes(writer.get(&db, b"k")), None);
    assert_eq!(bytes(db.get(b"k")), Some(b"old".to_vec()));

    writer.commit(&mut db).unwrap();
    assert_eq!(bytes(db.get(b"k")), None);
    assert_eq!(bytes(db.get(b"unrelated")), Some(b"x".to_vec()));
}

#[test]
fn snapshot_keeps_its_view_through_later_writes() {
    let mut db = DB::open_default("_si").unwrap();
    db.put(b"k", b"v1").unwrap();
    let snap = db.snapshot();
    assert_eq!(snap.sequence(), 1);

    db.put(b"k", b"v2").unwrap();
    assert_eq!(bytes(snap.get(&db, b"k")), Some(b"v1".to_vec()));
    db.delete(b"k").unwrap();
    assert_eq!(bytes(snap.get(&db, b"k")), Some(b"v1".to_vec()));
    db.put(b"absent_before", b"x").unwrap();
    assert_eq!(bytes(snap.get(&db, b"absent_before")), None);

    let mut txn = db.transaction_default();
    txn.put(&db, b"k", b"v3").unwrap();
    txn.commit(&mut db).unwrap();
    assert_eq!(bytes(snap.get(&db, b"k")), Some(b"v1".to_vec()));
    assert_eq!(bytes(db.get(b"k")), Some(b"v3".to_vec()));
}

#[test]
fn rollback_to_savepoint_restores_the_buffer() {
    let db = DB::open_default("_sp").unwrap();
    let mut txn = db.transaction_default();
    txn.put(&db, b"k1", b"v1").unwrap();
    txn.set_savepoint();
    txn.put(&db, b"k2", b"v2").unwrap();
    txn.merge(&db, b"k1", b"more").unwrap();
    txn.delete(&db, b"k1").unwrap();
    assert_eq!(txn.buffered(), 4);

    txn.rollback_to_savepoint().unwrap();

    assert_eq!(txn.buffered(), 1);
    assert_eq!(bytes(txn.get(&db, b"k1")), Some(b"v1".to_vec()));
    assert_eq!(bytes(txn.get(&db, b"k2")), None);
}

#[test]
fn savepoints_nest() {
    let db = DB::open_default("_sp_nest").unwrap();
    let mut txn = db.transaction_default();
    txn.put(&db, b"a", b"1").unwrap();
    txn.set_savepoint();
    txn.put(&db, b"b", b"2").unwrap();
    txn.set_savepoint();
    txn.put(&db, b"c", b"3").unwrap();

    txn.rollback_to_savepoint().unwrap();
    assert_eq!(txn.buffered(), 2);
    txn.rollback_to_savepoint().unwrap();
    assert_eq!(txn.buffered(), 1);
    let e = txn.rollback_to_savepoint().unwrap_err();
    assert_eq!(e.kind(), ErrorKind::Misuse);
    assert_eq!(txn.buffered(), 1);
}

#[test]
fn rollback_to_savepoint_without_savepoint_is_refused() {
    let db = DB::open_default("_sp_none").unwrap();
    let mut txn = db.transaction_default();
    txn.put(&db, b"k1", b"v1").unwrap();
    let e = txn.rollback_to_savepoint().unwrap_err();
    assert_eq!(e.kind(), ErrorKind::Misuse);
    assert_eq!(e.to_string(), "NotFound: no savepoint has been set");
    assert_eq!(txn.buffered(), 1);
}

#[test]
fn rollback_empties_the_transaction_and_leaves_it_usable() {
    let mut db = DB::open_default("_rb").unwrap();
    let mut txn = db.transaction_default();
    txn.put(&db, b"k1", b"v1").unwrap();
    txn.set_savepoint();
    let _ = txn.get_for_update(&db, b"k1");
    txn.rollback().unwrap();
    assert_eq!(txn.buffered(), 0);
    assert_eq!(txn.watched_len(), 0);
    assert!(txn.rollback_to_savepoint().is_err());
    txn.put(&db, b"k2", b"v2").unwrap();
    txn.commit(&mut db).unwrap();
    assert_eq!(bytes(db.get(b"k1")), None);
    assert_eq!(bytes(db.get(b"k2")), Some(b"v2".to_vec()));
}

#[test]
fn second_committer_of_racing_exclusive_reads_fails() {
    let mut db = DB::open_default("_race").unwrap();
    db.put(b"k", b"v").unwrap();
    let mut t1 = db.transaction_default();
    let mut t2 = db.transaction_default();

    assert_eq!(bytes(t1.get_for_update(&db, b"k")), Some(b"v".to_vec()));
    assert_eq!(bytes(t2.get_for_update(&db, b"k")), Some(b"v".to_vec()));
    t2.put(&db, b"other", b"x").unwrap();

    assert!(t1.commit(&mut db).is_ok());
    let e = t2.commit(&mut db).unwrap_err();
    assert_eq!(e.kind(), ErrorKind::Conflict);
    assert_eq!(e.to_string(), "Resource busy: a tracked key was modified by another writer");
    // the failed commit left the transaction and the database as they were
    assert_eq!(t2.buffered(), 1);
    assert_eq!(t2.watched_len(), 1);
    assert_eq!(bytes(db.get(b"other")), None);
    assert_eq!(bytes(db.get(b"k")), Some(b"v".to_vec()));
    // and it keeps failing until the transaction is abandoned
    assert!(t2.commit(&mut db).is_err());
    t2.rollback().unwrap();
    assert!(t2.commit(&mut db).is_ok());
}

#[test]
fn shared_reads_do_not_conflict_with_each_other() {
    let mut db = DB::open_default("_shared").unwrap();
    db.put(b"k", b"v").unwrap();
    let ro = ReadOptions::default();
    let mut t1 = db.transaction_default();
    let mut t2 = db.transaction_default();
    let mut t3 = db.transaction_default();
    t1.get_for_update_opt(&db, b"k", &ro, false).unwrap();
    t2.get_for_update_opt(&db, b"k", &ro, false).unwrap();
    t3.get_for_update_opt(&db, b"k", &ro, false).unwrap();
    assert!(t1.commit(&mut db).is_ok());
    assert!(t2.commit(&mut db).is_ok());
    // a write by someone else does conflict with a shared read
    db.put(b"k", b"w").unwrap();
    assert_eq!(t3.commit(&mut db).unwrap_err().kind(), ErrorKind::Conflict);
}

#[test]
fn plain_reads_take_no_part_in_conflict_detection() {
    let mut db = DB::open_default("_plain").unwrap();
    let mut reader = db.transaction_default();
    assert_eq!(bytes(reader.get(&db, b"k")), None);
    assert_eq!(reader.watched_len(), 1);
    db.put(b"k", b"v").unwrap();
    assert!(reader.commit(&mut db).is_ok());
    assert_eq!(reader.watched_len(), 0);
}

#[test]
fn reads_pinned_to_a_snapshot_are_not_noted() {
    let mut db = DB::open_default("_pinned_read").unwrap();
    db.put(b"k", b"v1").unwrap();
    let snap = db.snapshot();
    db.put(b"k", b"v2").unwrap();
    let mut ro = ReadOptions::default();
    ro.set_snapshot(&snap);
    let mut txn = db.transaction_default();
    txn.put(&db, b"mine", b"m").unwrap();
    assert_eq!(bytes(txn.get_opt(&db, b"k", &ro)), Some(b"v1".to_vec()));
    assert_eq!(bytes(txn.get_opt(&db, b"mine", &ro)), Some(b"m".to_vec()));
    assert_eq!(txn.watched_len(), 0);
    assert_eq!(bytes(txn.get(&db, b"k")), Some(b"v2".to_vec()));
    assert_eq!(txn.watched_len(), 1);
}

#[test]
fn read_for_update_is_checked_against_the_start_when_asked() {
    let mut db = DB::open_default("_pinned_txn").unwrap();
    let wo = WriteOptions::default();
    let mut pinned = OptimisticTransactionOptions::new();
    pinned.set_snapshot(true);
    let mut from_start = db.transaction(&wo, &pinned);
    let mut from_read = db.transaction(&wo, &OptimisticTransactionOptions::new());

    db.put(b"k", b"v").unwrap();

    from_start.get_for_update(&db, b"k").unwrap();
    from_read.get_for_update(&db, b"k").unwrap();

    assert_eq!(from_start.commit(&mut db).unwrap_err().kind(), ErrorKind::Conflict);
    assert!(from_read.commit(&mut db).is_ok());
}

#[test]
fn multi_get_keeps_order_and_isolates_failures() {
    let mut opts = Options::default();
    opts.create_if_missing(true);
    opts.create_missing_column_families(true);
    let mut db = DB::open_cf(&opts, "_mg_iso", &["live", "doomed"]).unwrap();
    let live = db.cf_handle("live").unwrap();
    let doomed = db.cf_handle("doomed").unwrap();
    db.put_cf(&live, b"present1", b"v1").unwrap();
    db.put_cf(&live, b"present2", b"v2").unwrap();
    db.put_cf(&doomed, b"present1", b"gone").unwrap();
    db.drop_cf("doomed").unwrap();

    let keys: [(&occ_kv::column_family::ColumnFamily, &[u8]); 4] =
        [(&live, b"missing"), (&doomed, b"present1"), (&live, b"present1"), (&live, b"present2")];
    let out = db.multi_get_cf(&keys);
    assert_eq!(out.len(), 4);
    assert!(out[0].as_ref().unwrap().is_none());
    let e = out[1].as_ref().unwrap_err();
    assert_eq!(e.kind(), ErrorKind::Validation);
    assert_eq!(e.message(), "Invalid argument: column family not found");
    assert_eq!(out[2].as_ref().unwrap().as_ref().unwrap().as_slice(), b"v1");
    assert_eq!(out[3].as_ref().unwrap().as_ref().unwrap().as_slice(), b"v2");

    let mut txn = db.transaction_default();
    txn.put_cf(&db, &live, b"missing", b"now here").unwrap();
    let out = txn.multi_get_cf(&db, &keys);
    assert_eq!(out.len(), 4);
    assert_eq!(out[0].as_ref().unwrap().as_ref().unwrap().as_slice(), b"now here");
    assert!(out[1].is_err());
    assert_eq!(out[2].as_ref().unwrap().as_ref().unwrap().as_slice(), b"v1");
    assert_eq!(out[3].as_ref().unwrap().as_ref().unwrap().as_slice(), b"v2");
    // the three reads that succeeded were noted, the failed one was not
    assert_eq!(txn.watched_len(), 3);
}

#[test]
fn multi_get_of_no_keys_is_empty() {
    let db = DB::open_default("_mg_empty").unwrap();
    let none: [&[u8]; 0] = [];
    assert!(db.multi_get(&none).is_empty());
    let mut txn = db.transaction_default();
    assert!(txn.multi_get(&db, &none).is_empty());
    let mut snap = db.snapshot();
    snap.release();
    assert!(snap.multi_get(&db, &none).is_empty());
}

#[test]
fn released_snapshot_gives_every_key_the_same_error() {
    let mut db = DB::open_default("_released").unwrap();
    db.put(b"k1", b"v1").unwrap();
    let mut snap = db.snapshot();
    assert!(!snap.is_released());
    snap.release();
    assert!(snap.is_released());
    // releasing again changes nothing
    snap.release();
    assert!(snap.is_released());
    assert_eq!(snap.sequence(), 1);

    let keys: [&[u8]; 3] = [b"k0", b"k1", b"k2"];
    let out = snap.multi_get(&db, &keys);
    assert_eq!(out.len(), 3);
    for r in &out {
        let e = r.as_ref().unwrap_err();
        assert_eq!(e.kind(), ErrorKind::Validation);
        assert_eq!(e.message(), "Invalid argument: read options refer to a released snapshot");
    }
    assert!(snap.get(&db, b"k1").is_err());

    let mut ro = ReadOptions::default();
    ro.set_snapshot(&snap);
    let out = db.multi_get_opt(&keys, &ro);
    assert_eq!(out.len(), 3);
    assert!(out.iter().all(|r| r.is_err()));
    let mut txn = db.transaction_default();
    let out = txn.multi_get_opt(&db, &keys, &ro);
    assert_eq!(out.len(), 3);
    assert!(out.iter().all(|r| r.is_err()));
    assert_eq!(txn.watched_len(), 0);
}

#[test]
fn transaction_snapshot_can_be_released_twice() {
    let mut db = DB::open_default("_txn_snap_release").unwrap();
    db.put(b"k", b"v").unwrap();
    let txn = db.transaction_default();
    let mut snap = txn.snapshot(&db);
    assert_eq!(bytes(snap.get(&db, b"k")), Some(b"v".to_vec()));
    snap.release();
    snap.release();
    assert_eq!(snap.get(&db, b"k").unwrap_err().kind(), ErrorKind::Validation);
}

#[test]
fn multi_get_through_a_snapshot_taken_between_two_puts() {
    let mut db = DB::open_default("_between_puts").unwrap();
    db.put(b"k1", b"v1").unwrap();
    let s0 = db.snapshot();
    db.put(b"k2", b"v2").unwrap();

    let keys: [&[u8]; 3] = [b"k0", b"k1", b"k2"];
    let now: Vec<Option<Vec<u8>>> =
        db.multi_get(&keys).into_iter().map(|r| r.unwrap().map(|v| v.to_vec())).collect();
    assert_eq!(now, vec![None, Some(b"v1".to_vec()), Some(b"v2".to_vec())]);

    let then: Vec<Option<Vec<u8>>> =
        s0.multi_get(&db, &keys).into_iter().map(|r| r.unwrap().map(|v| v.to_vec())).collect();
    assert_eq!(then, vec![None, Some(b"v1".to_vec()), None]);
}

#[test]
fn commit_to_a_dropped_family_is_refused_and_changes_nothing() {
    let mut opts = Options::default();
    opts.create_if_missing(true);
    opts.create_missing_column_families(true);
    let mut db = DB::open_cf(&opts, "_commit_dropped", &["cf"]).unwrap();
    let cf = db.cf_handle("cf").unwrap();
    let mut txn = db.transaction_default();
    txn.put(&db, b"k", b"v").unwrap();
    txn.put_cf(&db, &cf, b"k", b"v").unwrap();
    db.drop_cf("cf").unwrap();
    let before = db.latest_sequence_number();
    let e = txn.commit(&mut db).unwrap_err();
    assert_eq!(e.kind(), ErrorKind::Validation);
    assert_eq!(db.latest_sequence_number(), before);
    assert_eq!(bytes(db.get(b"k")), None);
    assert_eq!(txn.buffered(), 2);
}

#[test]
fn commit_publishes_what_the_transaction_saw() {
    let mut db = DB::open_default("_publish").unwrap();
    db.put(b"a", b"1").unwrap();
    let mut txn = db.transaction_default();
    txn.merge(&db, b"a", b"2").unwrap();
    txn.put(&db, b"b", b"x").unwrap();
    txn.delete(&db, b"b").unwrap();
    txn.put(&db, b"c", b"y").unwrap();
    let saw_a = bytes(txn.get(&db, b"a"));
    let saw_b = bytes(txn.get(&db, b"b"));
    let saw_c = bytes(txn.get(&db, b"c"));
    assert_eq!(saw_a, Some(b"12".to_vec()));
    txn.commit(&mut db).unwrap();
    assert_eq!(bytes(db.get(b"a")), saw_a);
    assert_eq!(bytes(db.get(b"b")), saw_b);
    assert_eq!(bytes(db.get(b"c")), saw_c);
    assert_eq!(db.latest_sequence_number(), 5);
    assert_eq!(txn.start_sequence(), 5);
}

#[test]
fn a_write_conflicts_only_with_what_came_after_it() {
    let mut db = DB::open_default("_late_write").unwrap();
    let mut txn = db.transaction_default();
    // someone else writes the key after the transaction began, before it wrote
    db.put(b"k", b"x").unwrap();
    txn.put(&db, b"k", b"v").unwrap();
    assert_eq!(txn.watched_len(), 0);
    assert!(txn.commit(&mut db).is_ok());
    assert_eq!(bytes(db.get(b"k")), Some(b"v".to_vec()));

    // a write by someone else after the transaction's write does conflict
    txn.put(&db, b"k", b"w").unwrap();
    db.put(b"k", b"y").unwrap();
    assert_eq!(txn.commit(&mut db).unwrap_err().kind(), ErrorKind::Conflict);
    assert_eq!(bytes(db.get(b"k")), Some(b"y".to_vec()));
}

#[test]
fn a_transaction_that_holds_on_to_its_start_measures_writes_from_it() {
    let mut db = DB::open_default("_pinned_write").unwrap();
    let wo = WriteOptions::default();
    let mut pinned = OptimisticTransactionOptions::new();
    pinned.set_snapshot(true);
    let mut txn = db.transaction(&wo, &pinned);
    db.put(b"k", b"x").unwrap();
    txn.put(&db, b"k", b"v").unwrap();
    assert_eq!(txn.commit(&mut db).unwrap_err().kind(), ErrorKind::Conflict);
    assert_eq!(bytes(db.get(b"k")), Some(b"x".to_vec()));
}

#[test]
fn after_rollback_a_later_put_and_commit_succeed() {
    let mut db = DB::open_default("_after_rollback").unwrap();
    let wo = WriteOptions::default();
    let mut pinned = OptimisticTransactionOptions::new();
    pinned.set_snapshot(true);
    for options in [OptimisticTransactionOptions::new(), pinned] {
        let mut txn = db.transaction(&wo, &options);
        txn.put(&db, b"k", b"mine").unwrap();
        txn.get_for_update(&db, b"k").unwrap();
        db.put(b"k", b"theirs").unwrap();
        txn.rollback().unwrap();
        txn.put(&db, b"k", b"again").unwrap();
        assert!(txn.commit(&mut db).is_ok());
        assert_eq!(bytes(db.get(b"k")), Some(b"again".to_vec()));
        // and so they do after a commit
        db.put(b"k", b"theirs").unwrap();
        txn.put(&db, b"k", b"once more").unwrap();
        assert!(txn.commit(&mut db).is_ok());
        assert_eq!(bytes(db.get(b"k")), Some(b"once more".to_vec()));
    }
}

#[test]
fn a_write_that_was_rolled_back_no_longer_conflicts() {
    let mut db = DB::open_default("_rolled_back_write").unwrap();
    let mut txn = db.transaction_default();
    txn.put(&db, b"kept", b"1").unwrap();
    txn.set_savepoint();
    txn.put(&db, b"dropped", b"2").unwrap();
    db.put(b"dropped", b"theirs").unwrap();
    assert!(txn.conflicts(&db));
    txn.rollback_to_savepoint().unwrap();
    assert!(!txn.conflicts(&db));
    assert!(txn.commit(&mut db).is_ok());
    assert_eq!(bytes(db.get(b"kept")), Some(b"1".to_vec()));
    assert_eq!(bytes(db.get(b"dropped")), Some(b"theirs".to_vec()));
}

#[test]
fn a_transaction_snapshot_is_of_the_moment_it_is_taken() {
    let mut db = DB::open_default("_txn_snapshot_now").unwrap();
    let wo = WriteOptions::default();
    let mut pinned = OptimisticTransactionOptions::new();
    pinned.set_snapshot(true);
    let mut plain = db.transaction_default();
    let held = db.transaction(&wo, &pinned);
    db.put(b"k", b"v1").unwrap();
    plain.put(&db, b"mine", b"m").unwrap();

    // taken after the put, the snapshot of a plain transaction shows it
    let now = plain.snapshot(&db);
    // the snapshot of a transaction that holds on to its start does not
    let then = held.snapshot(&db);
    db.put(b"k", b"v2").unwrap();
    db.put(b"later", b"l").unwrap();

    assert_eq!(bytes(now.get(&db, b"k")), Some(b"v1".to_vec()));
    assert_eq!(bytes(now.get(&db, b"later")), None);
    assert_eq!(bytes(now.get(&db, b"mine")), Some(b"m".to_vec()));
    assert_eq!(bytes(then.get(&db, b"k")), None);
    assert_eq!(bytes(db.get(b"k")), Some(b"v2".to_vec()));
}

#[test]
fn a_snapshot_of_another_database_that_is_ahead_is_refused() {
    let mut small = DB::open_default("_small").unwrap();
    let mut large = DB::open_default("_large").unwrap();
    small.put(b"k", b"v").unwrap();
    large.put(b"a", b"1").unwrap();
    large.put(b"b", b"2").unwrap();
    let snap = large.snapshot();
    let e = snap.get(&small, b"k").unwrap_err();
    assert_eq!(e.kind(), ErrorKind::Validation);
    assert_eq!(
        e.message(),
        "Invalid argument: read options refer to a snapshot the database has not reached"
    );
    let mut txn = small.transaction_default();
    let mut ro = ReadOptions::default();
    ro.set_snapshot(&snap);
    assert!(txn.get_for_update_opt(&small, b"k", &ro, true).is_err());
    assert_eq!(txn.watched_len(), 0);
    assert!(txn.commit(&mut small).is_ok());
}
