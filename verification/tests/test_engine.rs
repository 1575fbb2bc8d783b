use occ_kv::column_family::ColumnFamily;
use occ_kv::db::DB;
use occ_kv::ops::multi_get::MultiGet;
use occ_kv::error::{Error, ErrorKind};
use occ_kv::options::{MergeOperator, Options, ReadOptions, SnapshotPin, WriteOptions};
use occ_kv::write_batch::{WriteBatch, WriteOp};

#[test]
fn opening_needs_leave_to_create() {
    let opts = Options::default();
    let e = DB::open(&opts, "_closed").err().unwrap();
    assert_eq!(e.kind(), ErrorKind::Validation);
    assert_eq!(
        e.to_string(),
        "Invalid argument: database does not exist (create_if_missing is false)"
    );
    let e = DB::open_cf(&opts, "_closed", &["cf"]).err().unwrap();
    assert_eq!(
        e.to_string(),
        "Invalid argument: database does not exist (create_if_missing is false)"
    );

    let mut opts = Options::default();
    opts.create_if_missing(true);
    assert!(DB::open(&opts, "_open").is_ok());
    assert!(DB::open_cf(&opts, "_open", &["default"]).is_ok());
    assert!(DB::open_cf(&opts, "_open", &[]).is_ok());
    let e = DB::open_cf(&opts, "_open", &["default", "cf"]).err().unwrap();
    assert_eq!(e.kind(), ErrorKind::Validation);
    assert_eq!(e.to_string(), "Invalid argument: column family not found");
}

#[test]
fn families_are_created_found_and_dropped() {
    let mut opts = Options::default();
    opts.create_if_missing(true);
    opts.create_missing_column_families(true);
    let mut db = DB::open_cf(&opts, "_families", &["cf1", "cf2", "cf1"]).unwrap();
    assert_eq!(db.path(), "_families");
    assert_eq!(db.cf_handle("default").unwrap().id(), 0);
    assert_eq!(db.cf_handle("cf1").unwrap().id(), 1);
    assert_eq!(db.cf_handle("cf2").unwrap().id(), 2);
    assert!(db.cf_handle("cf3").is_none());

    let cf3 = db.create_cf("cf3").unwrap();
    assert_eq!(cf3.id(), 3);
    assert_eq!(db.create_cf("cf3").unwrap_err().to_string(), "Invalid argument: column family already exists");

    assert_eq!(
        db.drop_cf("default").unwrap_err().to_string(),
        "Invalid argument: cannot drop the default column family"
    );
    assert_eq!(db.drop_cf("nope").unwrap_err().to_string(), "Invalid argument: column family not found");
    db.put_cf(&cf3, b"k", b"v").unwrap();
    db.drop_cf("cf3").unwrap();
    assert!(db.cf_handle("cf3").is_none());
    assert!(!db.has_family(3));
    assert!(db.drop_cf("cf3").is_err());

    // a handle to a dropped family is refused, and so is one the database never gave out
    for cf in [cf3, ColumnFamily::from_id(77)] {
        assert_eq!(db.put_cf(&cf, b"k", b"v").unwrap_err().kind(), ErrorKind::Validation);
        assert!(db.delete_cf(&cf, b"k").is_err());
        assert!(db.merge_cf(&cf, b"k", b"v").is_err());
        assert!(db.get_cf(&cf, b"k").is_err());
        assert!(db.get_pinned_cf(&cf, b"k").is_err());
    }
    // the name can be used again, for a family of its own
    let again = db.create_cf("cf3").unwrap();
    assert_eq!(again.id(), 4);
    assert!(db.get_cf(&again, b"k").unwrap().is_none());
}

#[test]
fn merges_follow_the_operator() {
    let mut db = DB::open_default("_merge_append").unwrap();
    db.merge(b"k", b"ab").unwrap();
    db.merge(b"k", b"cd").unwrap();
    assert_eq!(db.get(b"k").unwrap().unwrap().as_slice(), b"abcd");
    db.delete(b"k").unwrap();
    db.merge(b"k", b"e").unwrap();
    assert_eq!(db.get(b"k").unwrap().unwrap().as_slice(), b"e");
    assert!(!db.get_pinned(b"k").unwrap().unwrap().is_pinned());
    db.put(b"k", b"put").unwrap();
    assert!(db.get_pinned(b"k").unwrap().unwrap().is_pinned());

    let mut opts = Options::default();
    opts.create_if_missing(true);
    opts.set_merge_operator_associative("last wins", MergeOperator::Replace);
    assert_eq!(opts.merge_operator(), MergeOperator::Replace);
    let mut db = DB::open(&opts, "_merge_replace").unwrap();
    assert_eq!(db.merge_operator(), MergeOperator::Replace);
    db.put(b"k", b"a").unwrap();
    db.merge(b"k", b"b").unwrap();
    assert_eq!(db.get(b"k").unwrap().unwrap().as_slice(), b"b");
}

#[test]
fn batches_are_written_whole_or_not_at_all() {
    let mut db = DB::open_default("_batch").unwrap();
    let mut batch = WriteBatch::new();
    batch.put(b"a", b"1").unwrap();
    batch.put_cf(&ColumnFamily::from_id(9), b"b", b"2").unwrap();
    let e = db.write(&batch).unwrap_err();
    assert_eq!(e.kind(), ErrorKind::Validation);
    assert_eq!(db.latest_sequence_number(), 0);
    assert!(db.get(b"a").unwrap().is_none());

    let mut batch = WriteBatch::new();
    batch.put(b"a", b"1").unwrap();
    batch.merge(b"a", b"2").unwrap();
    batch.delete(b"b").unwrap();
    db.write_opt(&batch, &WriteOptions::default()).unwrap();
    assert_eq!(db.latest_sequence_number(), 3);
    assert_eq!(db.get(b"a").unwrap().unwrap().as_slice(), b"12");
    db.write(&WriteBatch::new()).unwrap();
    assert_eq!(db.latest_sequence_number(), 3);
}

#[test]
fn batch_size_counts_header_and_records() {
    let mut batch = WriteBatch::new();
    assert_eq!(batch.size_in_bytes(), 12);
    batch.put(b"k1", b"v1234567890").unwrap();
    assert_eq!(batch.size_in_bytes(), 12 + 9 + 2 + 4 + 11);
    batch.delete(b"key").unwrap();
    assert_eq!(batch.size_in_bytes(), 38 + 9 + 3);
    batch.merge(b"", b"").unwrap();
    assert_eq!(batch.size_in_bytes(), 50 + 9 + 4);
    batch.push(WriteOp::touch(0, b"abcd"));
    assert_eq!(batch.size_in_bytes(), 63 + 9 + 4);
    batch.clear();
    assert_eq!(batch.size_in_bytes(), 12);
    assert!(batch.is_empty());
}

#[test]
fn batch_savepoints_cut_the_batch_back() {
    let mut batch = WriteBatch::new();
    assert_eq!(batch.rollback_to_save_point().unwrap_err().kind(), ErrorKind::Misuse);
    batch.put(b"a", b"1").unwrap();
    batch.set_save_point();
    batch.put(b"b", b"2").unwrap();
    batch.set_save_point();
    batch.set_save_point();
    batch.delete(b"a").unwrap();
    assert_eq!(batch.len(), 3);
    batch.rollback_to_save_point().unwrap();
    assert_eq!(batch.len(), 2);
    batch.rollback_to_save_point().unwrap();
    assert_eq!(batch.len(), 2);
    batch.rollback_to_save_point().unwrap();
    assert_eq!(batch.len(), 1);
    assert!(batch.rollback_to_save_point().is_err());
    assert_eq!(batch.len(), 1);
}

#[test]
fn reads_can_be_pinned_to_a_sequence_number() {
    let mut db = DB::open_default("_pins").unwrap();
    db.put(b"k", b"v1").unwrap();
    db.put(b"k", b"v2").unwrap();
    let mut ro = ReadOptions::default();
    ro.set_pin(SnapshotPin::At(0));
    assert!(db.get_opt(b"k", &ro).unwrap().is_none());
    ro.set_pin(SnapshotPin::At(1));
    assert_eq!(db.get_opt(b"k", &ro).unwrap().unwrap().as_slice(), b"v1");
    ro.set_pin(SnapshotPin::At(2));
    assert_eq!(db.get_opt(b"k", &ro).unwrap().unwrap().as_slice(), b"v2");
    // a pin the database has not reached cannot be a snapshot of it
    ro.set_pin(SnapshotPin::At(3));
    let e = db.get_opt(b"k", &ro).unwrap_err();
    assert_eq!(e.kind(), ErrorKind::Validation);
    assert_eq!(
        e.to_string(),
        "Invalid argument: read options refer to a snapshot the database has not reached"
    );
    let keys: [&[u8]; 2] = [b"k", b"other"];
    let out = db.multi_get_opt(&keys, &ro);
    assert_eq!(out.len(), 2);
    assert!(out.iter().all(|r| r.as_ref().unwrap_err().kind() == ErrorKind::Validation));
    assert!(db.get_raw_iter(&ro).status().is_err());
    assert!(db.check_options(Some(&ro)).is_err());
    assert_eq!(db.check_options(None).unwrap(), 2);
    ro.set_pin(SnapshotPin::Released);
    let e = db.get_opt(b"k", &ro).unwrap_err();
    assert_eq!(e.kind(), ErrorKind::Validation);
    assert!(ReadOptions::input_or_default(Some(&ro)).is_err());
    assert_eq!(ReadOptions::input_or_default(None).unwrap(), None);
    assert!(db.modified_since(1, 0, b"k"));
    assert!(!db.modified_since(2, 0, b"k"));
    assert!(!db.modified_since(0, 0, b"other"));
}

#[test]
fn values_are_text_only_when_they_are_utf8() {
    let mut db = DB::open_default("_utf8").unwrap();
    db.put(b"text", "gr\u{fc}n".as_bytes()).unwrap();
    db.put(b"binary", &[0xff, 0xfe, 0x00]).unwrap();
    db.put(b"cut", &[0xc3]).unwrap();
    assert_eq!(db.get(b"text").unwrap().unwrap().to_utf8(), Some("gr\u{fc}n"));
    assert_eq!(db.get(b"binary").unwrap().unwrap().to_utf8(), None);
    assert_eq!(db.get(b"cut").unwrap().unwrap().to_utf8(), None);
    assert_eq!(db.get(b"binary").unwrap().unwrap().len(), 3);
}

#[test]
fn errors_carry_their_kind_and_message() {
    let e = Error::new("IO error: disk full".to_string());
    assert_eq!(e.kind(), ErrorKind::Engine);
    assert_eq!(e.message(), "IO error: disk full");
    let copy = e.clone();
    assert_eq!(copy.to_string(), "IO error: disk full");
    assert_eq!(copy.kind(), ErrorKind::Engine);
    assert_eq!(Error::conflict().kind(), ErrorKind::Conflict);
    assert_eq!(Error::no_savepoint().kind(), ErrorKind::Misuse);
    assert_eq!(Error::released_snapshot().kind(), ErrorKind::Validation);
    assert_eq!(Error::unknown_family().kind(), ErrorKind::Validation);
    assert_eq!(Error::missing_database().kind(), ErrorKind::Validation);
    assert_eq!(Error::family_exists().kind(), ErrorKind::Validation);
    assert_eq!(Error::default_family().kind(), ErrorKind::Validation);
}

#[test]
fn options_are_set_together_or_not_at_all() {
    let mut opts = Options::default();
    opts.create_if_missing(true);
    opts.create_missing_column_families(true);
    let mut db = DB::open_cf(&opts, "_settings", &["cf1"]).unwrap();
    let default = db.cf_handle("default").unwrap();
    let cf1 = db.cf_handle("cf1").unwrap();
    let start = db.settings_cf(&cf1).unwrap();
    assert!(!start.disable_auto_compactions && !start.paranoid_file_checks && !start.report_bg_io_stats);

    db.set_options_cf(&cf1, &[("paranoid_file_checks", "1"), ("report_bg_io_stats", "true")]).unwrap();
    let now = db.settings_cf(&cf1).unwrap();
    assert!(now.paranoid_file_checks && now.report_bg_io_stats && !now.disable_auto_compactions);
    assert_eq!(db.settings_cf(&default).unwrap(), start);

    let e = db
        .set_options_cf(&cf1, &[("paranoid_file_checks", "0"), ("report_bg_io_stats", "maybe")])
        .unwrap_err();
    assert_eq!(e.kind(), ErrorKind::Validation);
    assert_eq!(e.to_string(), "Invalid argument: error parsing option value");
    assert_eq!(db.settings_cf(&cf1).unwrap(), now);

    assert_eq!(
        db.set_options(&[("no_such_option", "true")]).unwrap_err().to_string(),
        "Invalid argument: unrecognized option"
    );
    assert_eq!(
        db.set_options(&[("report_bg_io_stats", "tr\0ue")]).unwrap_err().to_string(),
        "Failed to convert option to CString: nul byte found in provided data"
    );
    assert_eq!(db.set_options(&[]).unwrap_err().to_string(), "Invalid argument: no options given");
    // the first option that is refused decides
    assert_eq!(
        db.set_options(&[("x", "true"), ("report_bg_io_stats", "maybe")]).unwrap_err().to_string(),
        "Invalid argument: unrecognized option"
    );
    db.set_options(&[("disable_auto_compactions", "true"), ("disable_auto_compactions", "false")])
        .unwrap();
    assert!(!db.settings_cf(&default).unwrap().disable_auto_compactions);

    db.drop_cf("cf1").unwrap();
    assert!(db.settings_cf(&cf1).is_err());
    assert_eq!(
        db.set_options_cf(&cf1, &[("report_bg_io_stats", "true")]).unwrap_err().to_string(),
        "Invalid argument: column family not found"
    );
}

#[test]
fn a_snapshot_that_is_ahead_of_the_database_is_a_validation_error() {
    assert_eq!(Error::foreign_snapshot().kind(), ErrorKind::Validation);
    let db = DB::open_default("_ahead").unwrap();
    assert!(db.check_pin(SnapshotPin::At(0)).is_ok());
    assert!(db.check_pin(SnapshotPin::At(1)).is_err());
    assert!(db.check_pin(SnapshotPin::Released).is_err());
    assert_eq!(db.check_pin(SnapshotPin::Latest).unwrap(), 0);
}
