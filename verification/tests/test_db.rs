use occ_kv::bytes::DBVector;
use occ_kv::db::DB;
use occ_kv::error::Error;
use occ_kv::ops::multi_get::{BatchedMultiGetCF, MultiGet, MultiGetCF};
use occ_kv::options::{Options, ReadOptions};
use occ_kv::write_batch::WriteBatch;

#[test]
fn external() {
    let mut db = DB::open_default("_external").unwrap();

    assert!(db.put(b"k1", b"v1111").is_ok());

    let r: Result<Option<DBVector>, Error> = db.get(b"k1");

    assert!(r.unwrap().unwrap().to_utf8().unwrap() == "v1111");
    assert!(db.delete(b"k1").is_ok());
    assert!(db.get(b"k1").unwrap().is_none());
}

#[test]
fn db_vector_as_ref_byte_slice() {
    let mut db = DB::open_default("_as_ref").unwrap();

    assert!(db.put(b"k1", b"v1111").is_ok());

    let r: Result<Option<DBVector>, Error> = db.get(b"k1");
    let vector = r.unwrap().unwrap();

    assert!(get_byte_slice(&vector) == b"v1111");
}

fn get_byte_slice<T: AsRef<[u8]>>(source: &'_ T) -> &'_ [u8] {
    source.as_ref()
}

#[test]
fn writebatch_works() {
    let mut db = DB::open_default("_writebatch").unwrap();
    {
        // test put
        let mut batch = WriteBatch::default();
        assert!(db.get(b"k1").unwrap().is_none());
        assert_eq!(batch.len(), 0);
        assert!(batch.is_empty());
        let _ = batch.put(b"k1", b"v1111");
        assert_eq!(batch.len(), 1);
        assert!(!batch.is_empty());
        assert!(db.get(b"k1").unwrap().is_none());
        assert!(db.write(&batch).is_ok());
        let r: Result<Option<DBVector>, Error> = db.get(b"k1");
        assert!(r.unwrap().unwrap().to_utf8().unwrap() == "v1111");
    }
    {
        // test delete
        let mut batch = WriteBatch::default();
        let _ = batch.delete(b"k1");
        assert_eq!(batch.len(), 1);
        assert!(!batch.is_empty());
        assert!(db.write(&batch).is_ok());
        assert!(db.get(b"k1").unwrap().is_none());
    }
    {
        // test size_in_bytes
        let mut batch = WriteBatch::default();
        let before = batch.size_in_bytes();
        let _ = batch.put(b"k1", b"v1234567890");
        let after = batch.size_in_bytes();
        assert!(before + 10 <= after);
    }
}

#[test]
fn snapshot_test() {
    let mut db = DB::open_default("_snapshot").unwrap();

    assert!(db.put(b"k1", b"v1111").is_ok());

    let snap = db.snapshot();
    assert!(snap.get(&db, b"k1").unwrap().unwrap().to_utf8().unwrap() == "v1111");

    assert!(db.put(b"k2", b"v2222").is_ok());

    assert!(db.get(b"k2").unwrap().is_some());
    assert!(snap.get(&db, b"k2").unwrap().is_none());
}

#[test]
fn test_open_utf8_path() {
    let path = "_utf8_path_tempor\u{c3}\u{a4}rer_Ordner";
    let mut db = DB::open_default(path).unwrap();
    assert_eq!(db.path(), path);

    assert!(db.put(b"k1", b"v1111").is_ok());

    let r = db.get(b"k1");
    assert_eq!(r.unwrap().unwrap().to_utf8().unwrap(), "v1111");
    assert!(db.delete(b"k1").is_ok());
    assert!(db.get(b"k1").unwrap().is_none());
}

fn values_of(results: Vec<Result<Option<DBVector>, Error>>) -> Vec<Option<Vec<u8>>> {
    results
        .into_iter()
        .map(Result::unwrap)
        .map(|v| v.map(|v| v.to_vec()))
        .collect::<Vec<_>>()
}

#[test]
fn test_db_multi_get() {
    let mut db = DB::open_default("_multi_get").unwrap();
    let initial_snap = db.snapshot();
    db.put(b"k1", b"v1").unwrap();
    let k1_snap = db.snapshot();
    db.put(b"k2", b"v2").unwrap();

    let forty: Vec<&[u8]> = vec![b"k0".as_slice(); 40];
    let _ = db.multi_get(&forty);

    let assert_values = |values: Vec<Option<Vec<u8>>>| {
        assert_eq!(3, values.len());
        assert_eq!(values[0], None);
        assert_eq!(values[1], Some(b"v1".to_vec()));
        assert_eq!(values[2], Some(b"v2".to_vec()));
    };

    let keys: [&[u8]; 3] = [b"k0", b"k1", b"k2"];

    let values = values_of(db.multi_get(&keys));
    assert_values(values);

    let values = values_of(db.multi_get_opt(&keys, &ReadOptions::default()));
    assert_values(values);

    let values = values_of(db.snapshot().multi_get(&db, &keys));
    assert_values(values);

    let none_values = values_of(initial_snap.multi_get(&db, &keys));
    assert_eq!(none_values, vec![None; 3]);

    let k1_only = values_of(k1_snap.multi_get(&db, &keys));
    assert_eq!(k1_only, vec![None, Some(b"v1".to_vec()), None]);
}

#[test]
fn test_db_multi_get_cf() {
    let mut opts = Options::default();
    opts.create_if_missing(true);
    opts.create_missing_column_families(true);
    let mut db = DB::open_cf(&opts, "_multi_get_cf", &["cf0", "cf1", "cf2"]).unwrap();

    let cf0 = db.cf_handle("cf0").unwrap();

    let cf1 = db.cf_handle("cf1").unwrap();
    db.put_cf(&cf1, b"k1", b"v1").unwrap();

    let cf2 = db.cf_handle("cf2").unwrap();
    db.put_cf(&cf2, b"k2", b"v2").unwrap();

    let values = values_of(db.multi_get_cf(&[(&cf0, b"k0"), (&cf1, b"k1"), (&cf2, b"k2")]));
    assert_eq!(3, values.len());
    assert_eq!(values[0], None);
    assert_eq!(values[1], Some(b"v1".to_vec()));
    assert_eq!(values[2], Some(b"v2".to_vec()));
}

#[test]
fn batched_multi_get_cf() {
    let mut opts = Options::default();
    opts.create_if_missing(true);
    opts.create_missing_column_families(true);
    let mut db = DB::open_cf(&opts, "_batched_multi_get_cf", &["cf0"]).unwrap();

    let cf = db.cf_handle("cf0").unwrap();
    db.put_cf(&cf, b"k1", b"v1").unwrap();
    db.put_cf(&cf, b"k2", b"v2").unwrap();

    let values = db
        .batched_multi_get_cf(&cf, &[b"k0", b"k1", b"k2"], true) // sorted_input
        .into_iter()
        .map(Result::unwrap)
        .map(|v| v.map(|v| v.to_vec()))
        .collect::<Vec<_>>();
    assert_eq!(3, values.len());
    assert!(values[0].is_none());
    assert!(values[1].is_some());
    assert_eq!(&(values[1].as_ref().unwrap())[0..2], b"v1");
    assert_eq!(&(values[2].as_ref().unwrap())[0..2], b"v2");
}

#[test]
fn iterator_test() {
    let data: [(&[u8], &[u8]); 3] = [(b"k1", b"v1111"), (b"k2", b"v2222"), (b"k3", b"v3333")];
    let mut db = DB::open_default("_iterator").unwrap();

    for (key, value) in &data {
        assert!(db.put(key, value).is_ok());
    }

    let iter = db.iterator(occ_kv::iterator::IteratorMode::Start);
    let seen = iter.collect_forward();
    assert_eq!(seen.len(), 3);

    for (idx, (db_key, db_value)) in seen.into_iter().enumerate() {
        let (key, value) = data[idx];
        assert_eq!((&key[..], &value[..]), (db_key.as_ref(), db_value.as_ref()));
    }
}

#[test]
fn set_option_test() {
    let mut db = DB::open_default("_set_option").unwrap();
    // set an option to valid values
    assert!(db.set_options(&[("disable_auto_compactions", "true")]).is_ok());
    assert!(db.set_options(&[("disable_auto_compactions", "false")]).is_ok());
    // invalid names/values should result in an error
    assert!(db.set_options(&[("disable_auto_compactions", "INVALID_VALUE")]).is_err());
    assert!(db.set_options(&[("INVALID_NAME", "INVALID_VALUE")]).is_err());
    // option names/values must not contain NULLs
    assert!(db.set_options(&[("disable_auto_compactions", "true\0")]).is_err());
    assert!(db.set_options(&[("disable_auto_compactions\0", "true")]).is_err());
    // empty options are not allowed
    assert!(db.set_options(&[]).is_err());
    // multiple options can be set in a single API call
    let multiple_options = [("paranoid_file_checks", "true"), ("report_bg_io_stats", "true")];
    db.set_options(&multiple_options).unwrap();
}

#[test]
fn set_option_cf_test() {
    let mut opts = Options::default();
    opts.create_if_missing(true);
    opts.create_missing_column_families(true);
    let mut db = DB::open_cf(&opts, "_set_option_cf", &["cf1"]).unwrap();
    let cf1 = db.cf_handle("cf1").unwrap();
    // set an option to valid values
    assert!(db.set_options_cf(&cf1, &[("disable_auto_compactions", "true")]).is_ok());
    assert!(db.set_options_cf(&cf1, &[("disable_auto_compactions", "false")]).is_ok());
    // invalid names/values should result in an error
    assert!(db.set_options_cf(&cf1, &[("disable_auto_compactions", "INVALID_VALUE")]).is_err());
    assert!(db.set_options_cf(&cf1, &[("INVALID_NAME", "INVALID_VALUE")]).is_err());
    // option names/values must not contain NULLs
    assert!(db.set_options_cf(&cf1, &[("disable_auto_compactions", "true\0")]).is_err());
    assert!(db.set_options_cf(&cf1, &[("disable_auto_compactions\0", "true")]).is_err());
    // empty options are not allowed
    assert!(db.set_options_cf(&cf1, &[]).is_err());
    // multiple options can be set in a single API call
    let multiple_options = [("paranoid_file_checks", "true"), ("report_bg_io_stats", "true")];
    db.set_options_cf(&cf1, &multiple_options).unwrap();
}

#[test]
fn test_db_vector() {
    let len: usize = 4;
    let data: Vec<u8> = vec![0u8; len];
    let v = DBVector::from_vec(data);
    let ctrl = [0u8, 0, 0, 0];
    assert_eq!(v.as_slice(), &ctrl[..]);
}
