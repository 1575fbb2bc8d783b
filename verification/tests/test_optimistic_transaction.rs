use occ_kv::bytes::DBVector;
use occ_kv::db::OptimisticTransactionDB;
use occ_kv::error::{Error, ErrorKind};
use occ_kv::ops::multi_get::{MultiGet, MultiGetCF};
use occ_kv::options::{
    MergeOperator, OptimisticTransactionOptions, Options, ReadOptions, WriteOptions,
};
use occ_kv::write_batch::WriteBatch;

#[test]
fn test_optimistic_transactiondb() {
    let mut db = OptimisticTransactionDB::open_default("_otdb").unwrap();
    db.put(b"k1", b"v1").unwrap();
    assert_eq!(db.get(b"k1").unwrap().unwrap().as_ref(), b"v1");
    assert_eq!(db.get_pinned(b"k1").unwrap().unwrap().as_slice(), b"v1");
}

#[test]
fn write_batch_works() {
    let mut db = OptimisticTransactionDB::open_default("_ot_write_batch").unwrap();
    {
        // test put
        let mut batch = WriteBatch::default();
        assert!(db.get(b"k1").unwrap().is_none());
        assert_eq!(batch.len(), 0);
        assert!(batch.is_empty());
        let _ = batch.put(b"k1", b"v1111");
        assert_eq!(batch.len(), 1);
        assert!(!batch.is_empty());
        assert!(db.get(b"k1").unwrap().is_none());
        assert!(db.write(&batch).is_ok());
        let r: Result<Option<DBVector>, Error> = db.get(b"k1");
        assert!(r.unwrap().unwrap().to_utf8().unwrap() == "v1111");
    }
    {
        // test delete
        let mut batch = WriteBatch::default();
        let _ = batch.delete(b"k1");
        assert_eq!(batch.len(), 1);
        assert!(!batch.is_empty());
        assert!(db.write(&batch).is_ok());
        assert!(db.get(b"k1").unwrap().is_none());
    }
    {
        // test size_in_bytes
        let mut batch = WriteBatch::default();
        let before = batch.size_in_bytes();
        let _ = batch.put(b"k1", b"v1234567890");
        let after = batch.size_in_bytes();
        assert!(before + 10 <= after);
    }
}

#[test]
pub fn test_optimistic_transaction() {
    let mut db = OptimisticTransactionDB::open_default("_ot").unwrap();

    let mut trans = db.transaction_default();

    trans.put(&db, b"k1", b"v1").unwrap();
    trans.put(&db, b"k2", b"v2").unwrap();
    trans.put(&db, b"k3", b"v3").unwrap();
    trans.put(&db, b"k4", b"v4").unwrap();

    let trans_result = trans.commit(&mut db);

    assert!(trans_result.is_ok());

    let mut trans2 = db.transaction_default();

    let mut iter = trans2.raw_iterator(&db);

    iter.seek_to_first();

    assert!(iter.valid());
    assert_eq!(iter.key(), Some(b"k1".as_ref()));
    assert_eq!(iter.value(), Some(b"v1".as_ref()));

    iter.next();

    assert!(iter.valid());
    assert_eq!(iter.key(), Some(b"k2".as_ref()));
    assert_eq!(iter.value(), Some(b"v2".as_ref()));

    iter.next(); // k3
    iter.next(); // k4
    iter.next(); // invalid!

    assert!(!iter.valid());
    assert_eq!(iter.key(), None);
    assert_eq!(iter.value(), None);

    let mut trans3 = db.transaction_default();

    trans2.put(&db, b"k2", b"v5").unwrap();
    trans3.put(&db, b"k2", b"v6").unwrap();

    trans3.commit(&mut db).unwrap();

    trans2.commit(&mut db).unwrap_err();
}

#[test]
pub fn test_optimistic_transaction_rollback_savepoint() {
    let mut opts = Options::default();
    opts.create_if_missing(true);

    let mut db = OptimisticTransactionDB::open(&opts, "_ot_savepoint").unwrap();
    let write_options = WriteOptions::default();
    let optimistic_transaction_options = OptimisticTransactionOptions::new();

    let mut trans1 = db.transaction(&write_options, &optimistic_transaction_options);
    let mut trans2 = db.transaction(&write_options, &optimistic_transaction_options);

    trans1.put(&db, b"k1", b"v1").unwrap();

    let k1_2 = trans2.get(&db, b"k1").unwrap();
    assert!(k1_2.is_none());

    trans1.commit(&mut db).unwrap();

    let k1_2 = trans2.get(&db, b"k1").unwrap().unwrap();
    assert_eq!(k1_2.as_slice(), b"v1");

    trans1.delete(&db, b"k1").unwrap();

    let k1_2 = trans2.get(&db, b"k1").unwrap().unwrap();
    assert_eq!(k1_2.as_slice(), b"v1");

    trans1.rollback().unwrap();

    let k1_2 = trans2.get(&db, b"k1").unwrap().unwrap();
    assert_eq!(k1_2.as_slice(), b"v1");

    trans1.delete(&db, b"k1").unwrap();
    trans1.set_savepoint();
    trans1.put(&db, b"k2", b"v2").unwrap();
    trans1.rollback_to_savepoint().unwrap();
    trans1.commit(&mut db).unwrap();

    let k1_2 = trans2.get(&db, b"k1").unwrap();
    assert!(k1_2.is_none());

    let k2_2 = trans2.get(&db, b"k2").unwrap();
    assert!(k2_2.is_none());

    trans2.commit(&mut db).unwrap();
}

#[test]
pub fn test_optimistic_transaction_cf() {
    let mut opts = Options::default();
    opts.create_if_missing(true);
    opts.create_missing_column_families(true);
    let mut db = OptimisticTransactionDB::open_cf(&opts, "_ot_cf", &["cf1"]).unwrap();
    {
        let cf_handle = db.cf_handle("cf1").unwrap();
        let write_options = WriteOptions::default();
        let optimistic_transaction_options = OptimisticTransactionOptions::new();

        let mut trans = db.transaction(&write_options, &optimistic_transaction_options);

        trans.put_cf(&db, &cf_handle, b"k1", b"v1").unwrap();
        trans.commit(&mut db).unwrap();

        let k1 = trans.get_cf(&db, &cf_handle, b"k1").unwrap().unwrap();
        assert_eq!(k1.as_slice(), b"v1");

        let k1 = trans.get_pinned_cf(&db, &cf_handle, b"k1").unwrap().unwrap();
        assert_eq!(k1.as_slice(), b"v1");

        trans.delete_cf(&db, &cf_handle, b"k1").unwrap();
        trans.commit(&mut db).unwrap();
    }

    db.drop_cf("cf1").unwrap();
}

#[test]
pub fn test_optimistic_transaction_snapshot() {
    let mut opts = Options::default();
    opts.create_if_missing(true);
    let mut db = OptimisticTransactionDB::open(&opts, "_ot_snapshot").unwrap();

    let write_options = WriteOptions::default();
    let optimistic_transaction_options = OptimisticTransactionOptions::new();
    let mut trans1 = db.transaction(&write_options, &optimistic_transaction_options);

    let mut optimistic_transaction_options_snapshot = OptimisticTransactionOptions::new();
    optimistic_transaction_options_snapshot.set_snapshot(true);
    // create transaction with snapshot
    let mut trans2 = db.transaction(&write_options, &optimistic_transaction_options_snapshot);

    trans1.put(&db, b"k1", b"v1").unwrap();

    let k1_2 = trans2.get(&db, b"k1").unwrap();
    assert!(k1_2.is_none());

    {
        let k1_3 = trans2.get_pinned(&db, b"k1").unwrap();
        assert!(k1_3.is_none());
    }

    trans1.commit(&mut db).unwrap();

    trans2.commit(&mut db).unwrap();
    drop(trans2);

    let mut trans3 = db.transaction(&write_options, &optimistic_transaction_options_snapshot);

    trans1.delete(&db, b"k1").unwrap();
    trans1.commit(&mut db).unwrap();

    assert!(trans3.get(&db, b"k1").unwrap().is_none());

    {
        let snapshot = trans3.snapshot(&db);
        let k1_3 = snapshot.get(&db, b"k1").unwrap().unwrap();
        assert_eq!(k1_3.as_slice(), b"v1");

        let k1_4 = snapshot.get_pinned(&db, b"k1").unwrap().unwrap();
        assert_eq!(k1_4.as_slice(), b"v1");
    }

    trans3.commit(&mut db).unwrap();
    drop(trans3);

    let mut trans4 = db.transaction(&write_options, &optimistic_transaction_options_snapshot);

    let k1_4 = trans4.snapshot(&db).get(&db, b"k1").unwrap();
    assert!(k1_4.is_none());

    trans4.commit(&mut db).unwrap();
}

#[test]
pub fn test_optimistic_transaction_merge() {
    let mut opts = Options::default();
    opts.create_if_missing(true);
    opts.set_merge_operator_associative("test operator", MergeOperator::Append);
    let mut db = OptimisticTransactionDB::open(&opts, "_ot_merge").unwrap();
    let mut trans = db.transaction_default();

    trans.put(&db, b"k1", b"a").unwrap();
    trans.merge(&db, b"k1", b"b").unwrap();
    trans.merge(&db, b"k1", b"c").unwrap();
    trans.merge(&db, b"k1", b"d").unwrap();
    trans.merge(&db, b"k1", b"efg").unwrap();
    assert_eq!(trans.get(&db, b"k1").unwrap().unwrap().as_slice(), b"abcdefg");
    trans.commit(&mut db).unwrap();

    let k1 = trans.get(&db, b"k1").unwrap().unwrap();
    assert_eq!(k1.as_slice(), b"abcdefg");

    trans.commit(&mut db).unwrap();
}

fn values_of(results: Vec<Result<Option<DBVector>, Error>>) -> Vec<Option<Vec<u8>>> {
    results
        .into_iter()
        .map(Result::unwrap)
        .map(|v| v.map(|v| v.to_vec()))
        .collect::<Vec<_>>()
}

#[test]
pub fn test_optimistic_transaction_multi_get() {
    let mut db = OptimisticTransactionDB::open_default("_ot_multi_get").unwrap();

    let mut trans = db.transaction_default();

    trans.put(&db, b"k1", b"v1").unwrap();
    trans.put(&db, b"k2", b"v2").unwrap();
    trans.put(&db, b"k3", b"v3").unwrap();
    trans.put(&db, b"k4", b"v4").unwrap();

    let trans_result = trans.commit(&mut db);

    assert!(trans_result.is_ok());

    let values = values_of(trans.multi_get(&db, &[b"k0", b"k1", b"k2", b"k3", b"k4"]));
    assert_eq!(values[0], None);
    assert_eq!(values[1], Some(b"v1".to_vec()));
    assert_eq!(values[2], Some(b"v2".to_vec()));
    assert_eq!(values[3], Some(b"v3".to_vec()));
    assert_eq!(values[4], Some(b"v4".to_vec()));
}

#[test]
pub fn test_optimistic_transaction_multi_get_cf() {
    let mut opts = Options::default();
    opts.create_if_missing(true);
    opts.create_missing_column_families(true);
    let mut db = OptimisticTransactionDB::open_cf(&opts, "_ot_multi_get_cf", &["cf0", "cf1"]).unwrap();
    {
        let cf_handle0 = db.cf_handle("cf0").unwrap();
        let cf_handle1 = db.cf_handle("cf1").unwrap();
        let write_options = WriteOptions::default();
        let optimistic_transaction_options = OptimisticTransactionOptions::new();

        let mut trans = db.transaction(&write_options, &optimistic_transaction_options);

        trans.put_cf(&db, &cf_handle0, b"k1", b"v1").unwrap();
        trans.put_cf(&db, &cf_handle0, b"k2", b"v2").unwrap();
        trans.put_cf(&db, &cf_handle0, b"k3", b"v3").unwrap();
        trans.put_cf(&db, &cf_handle0, b"k4", b"v4").unwrap();

        trans.put_cf(&db, &cf_handle1, b"k1'", b"v1'").unwrap();
        trans.put_cf(&db, &cf_handle1, b"k2'", b"v2'").unwrap();
        trans.put_cf(&db, &cf_handle1, b"k3'", b"v3'").unwrap();
        trans.put_cf(&db, &cf_handle1, b"k4'", b"v4'").unwrap();
        trans.commit(&mut db).unwrap();

        let values = values_of(trans.multi_get_cf(
            &db,
            &[
                (&cf_handle0, b"k0_not_exist".as_slice()),
                (&cf_handle0, b"k1"),
                (&cf_handle0, b"k2"),
                (&cf_handle0, b"k3"),
                (&cf_handle0, b"k4"),
                (&cf_handle0, b"k5_not_exist"),
                (&cf_handle1, b"k0_not_exist'"),
                (&cf_handle1, b"k1'"),
                (&cf_handle1, b"k2'"),
                (&cf_handle1, b"k3'"),
                (&cf_handle1, b"k4'"),
                (&cf_handle1, b"k5_not_exist'"),
            ],
        ));
        assert_eq!(values.len(), 12);

        assert_eq!(values[0], None);
        assert_eq!(values[1], Some(b"v1".to_vec()));
        assert_eq!(values[2], Some(b"v2".to_vec()));
        assert_eq!(values[3], Some(b"v3".to_vec()));
        assert_eq!(values[4], Some(b"v4".to_vec()));
        assert_eq!(values[5], None);

        assert_eq!(values[6], None);
        assert_eq!(values[7], Some(b"v1'".to_vec()));
        assert_eq!(values[8], Some(b"v2'".to_vec()));
        assert_eq!(values[9], Some(b"v3'".to_vec()));
        assert_eq!(values[10], Some(b"v4'".to_vec()));
        assert_eq!(values[11], None);
    }

    db.drop_cf("cf0").unwrap();
    db.drop_cf("cf1").unwrap();
}

#[test]
fn multi_get() {
    let mut db: OptimisticTransactionDB = OptimisticTransactionDB::open_default("_ot_mg").unwrap();
    let initial_snap = db.snapshot();
    db.put(b"k1", b"v1").unwrap();
    let k1_snap = db.snapshot();
    db.put(b"k2", b"v2").unwrap();

    let forty: Vec<&[u8]> = vec![b"k0".as_slice(); 40];
    let _ = db.multi_get(&forty);

    let assert_values = |values: Vec<Option<Vec<u8>>>| {
        assert_eq!(3, values.len());
        assert_eq!(values[0], None);
        assert_eq!(values[1], Some(b"v1".to_vec()));
        assert_eq!(values[2], Some(b"v2".to_vec()));
    };

    let keys: [&[u8]; 3] = [b"k0", b"k1", b"k2"];

    let values = values_of(db.multi_get(&keys));
    assert_values(values);

    let values = values_of(db.multi_get_opt(&keys, &ReadOptions::default()));
    assert_values(values);

    let values = values_of(db.snapshot().multi_get(&db, &keys));
    assert_values(values);

    let none_values = values_of(initial_snap.multi_get(&db, &keys));
    assert_eq!(none_values, vec![None; 3]);

    let k1_only = values_of(k1_snap.multi_get(&db, &keys));
    assert_eq!(k1_only, vec![None, Some(b"v1".to_vec()), None]);

    let mut txn = db.transaction_default();
    let values = values_of(txn.multi_get(&db, &keys));
    assert_values(values);
}

#[test]
fn multi_get_cf() {
    let mut opts = Options::default();
    opts.create_if_missing(true);
    opts.create_missing_column_families(true);
    let mut db: OptimisticTransactionDB =
        OptimisticTransactionDB::open_cf(&opts, "_ot_mg_cf", &["cf0", "cf1", "cf2"]).unwrap();

    let cf0 = db.cf_handle("cf0").unwrap();

    let cf1 = db.cf_handle("cf1").unwrap();
    db.put_cf(&cf1, b"k1", b"v1").unwrap();

    let cf2 = db.cf_handle("cf2").unwrap();
    db.put_cf(&cf2, b"k2", b"v2").unwrap();

    let values = values_of(db.multi_get_cf(&[(&cf0, b"k0"), (&cf1, b"k1"), (&cf2, b"k2")]));
    assert_eq!(3, values.len());
    assert_eq!(values[0], None);
    assert_eq!(values[1], Some(b"v1".to_vec()));
    assert_eq!(values[2], Some(b"v2".to_vec()));

    let mut txn = db.transaction_default();
    let values = values_of(txn.multi_get_cf(&db, &[(&cf0, b"k0"), (&cf1, b"k1"), (&cf2, b"k2")]));

    assert_eq!(3, values.len());
    assert_eq!(values[0], None);
    assert_eq!(values[1], Some(b"v1".to_vec()));
    assert_eq!(values[2], Some(b"v2".to_vec()));
}

#[test]
fn second_committer_of_a_write_fails_with_conflict() {
    let mut db = OptimisticTransactionDB::open_default("_ot_conflict").unwrap();
    let mut trans2 = db.transaction_default();
    let mut trans3 = db.transaction_default();

    trans2.put(&db, b"k2", b"v5").unwrap();
    trans3.put(&db, b"k2", b"v6").unwrap();

    trans3.commit(&mut db).unwrap();

    let e = trans2.commit(&mut db).unwrap_err();
    assert_eq!(e.kind(), ErrorKind::Conflict);
    assert_eq!(db.get(b"k2").unwrap().unwrap().as_slice(), b"v6");
    assert_eq!(trans2.buffered(), 1);
}
