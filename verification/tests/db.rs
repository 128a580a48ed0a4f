use rockshrew::db::{
    column_families, index_cf, pending_cf, read_headers, scratch_name, scratch_name_of, sort_rows,
    CfPut, ColumnFamily, Config, DBStore, FlushPlan, OpenPlan, StoreError, WriteBatch,
    CURRENT_FORMAT,
};

/// Opens a store and carries the plan out on the record kept for it.
fn open(stored: &mut Option<Config>, view: bool) -> Result<DBStore, StoreError> {
    let (store, plan) = DBStore::open(*stored, view)?;
    if let Some(config) = plan.store_config {
        *stored = Some(config);
    }
    Ok(store)
}

/// Flushes a store and carries the plan out on the record kept for it.
fn flush(store: &mut DBStore, stored: &mut Option<Config>) -> FlushPlan {
    let plan = store.flush();
    if let Some(config) = plan.store_config {
        *stored = Some(config);
    }
    plan
}

fn to_rows(values: &[&[u8]]) -> Vec<Vec<u8>> {
    values.iter().map(|v| v.to_vec()).collect()
}

#[test]
fn test_reindex_new_format() {
    let mut stored: Option<Config> = None;
    {
        let mut store = open(&mut stored, false).unwrap();
        let mut config = store.get_config();
        config.format += 1;
        store.set_config(config);
        stored = Some(store.get_config());
    };
    assert_eq!(
        open(&mut stored, false).err().unwrap().message(),
        format!(
            "re-index required due to unsupported format {} != {}",
            CURRENT_FORMAT + 1,
            CURRENT_FORMAT
        )
    );
    {
        // the same store is refused again, in either mode, and its record stays as it is
        assert_eq!(
            open(&mut stored, true).err(),
            Some(StoreError::ReindexRequired { found: CURRENT_FORMAT + 1, expected: CURRENT_FORMAT })
        );
        assert_eq!(stored, Some(Config { compacted: false, format: CURRENT_FORMAT + 1 }));
        // the index is built anew: the store is removed, opened, flushed and opened again
        stored = None;
        let mut store = open(&mut stored, false).unwrap();
        assert_eq!(stored, Some(Config { compacted: false, format: CURRENT_FORMAT }));
        flush(&mut store, &mut stored);
        let config = store.get_config();
        assert_eq!(config.format, CURRENT_FORMAT);
        assert_eq!(stored, Some(config));
        let follower = open(&mut stored, true).unwrap();
        assert_eq!(follower.get_config().format, CURRENT_FORMAT);
        assert!(follower.get_config().compacted);
    }
}

#[test]
fn a_store_of_another_format_is_refused_in_either_mode() {
    let stored = Some(Config { compacted: true, format: 7 });
    assert_eq!(
        DBStore::open(stored, false).err(),
        Some(StoreError::ReindexRequired { found: 7, expected: 0 })
    );
    assert_eq!(
        DBStore::open(stored, true).err(),
        Some(StoreError::ReindexRequired { found: 7, expected: 0 })
    );
    assert_eq!(
        StoreError::ReindexRequired { found: 7, expected: 0 }.message(),
        "re-index required due to unsupported format 7 != 0"
    );
}

#[test]
fn a_new_store_gets_the_default_record() {
    assert_eq!(Config::default(), Config { compacted: false, format: CURRENT_FORMAT });
    let store = DBStore::open(None, false).unwrap().0;
    assert_eq!(store.get_config(), Config { compacted: false, format: 0 });
    assert!(store.is_bulk_import());
    assert!(!store.is_secondary());
    assert!(DBStore::open(None, true).unwrap().0.is_secondary());
}

#[test]
fn an_opened_store_keeps_its_record() {
    let stored = Config { compacted: true, format: CURRENT_FORMAT };
    let store = DBStore::open(Some(stored), false).unwrap().0;
    assert_eq!(store.get_config(), stored);
    assert!(store.is_bulk_import());
}

#[test]
fn the_first_flush_compacts_and_later_ones_do_not() {
    let mut store = DBStore::open(None, false).unwrap().0;
    assert_eq!(
        store.flush(),
        FlushPlan {
            flush: true,
            compact: true,
            store_config: Some(Config { compacted: true, format: 0 }),
            enable_auto_compactions: true
        }
    );
    assert_eq!(store.get_config(), Config { compacted: true, format: 0 });
    assert!(!store.is_bulk_import());
    let after_first = store.get_config();
    assert_eq!(
        store.flush(),
        FlushPlan { flush: true, compact: false, store_config: None, enable_auto_compactions: false }
    );
    assert_eq!(store.get_config(), after_first);
    assert!(!store.is_bulk_import());
}

#[test]
fn a_compacted_store_is_not_compacted_again() {
    let mut store = DBStore::open(Some(Config { compacted: true, format: 0 }), false).unwrap().0;
    assert_eq!(
        store.flush(),
        FlushPlan { flush: true, compact: false, store_config: None, enable_auto_compactions: true }
    );
    assert!(!store.is_bulk_import());
}

#[test]
fn a_primary_has_its_record_stored_on_opening() {
    assert_eq!(
        DBStore::open(None, false).unwrap().1,
        OpenPlan { store_config: Some(Config { compacted: false, format: 0 }) }
    );
    let stored = Config { compacted: true, format: 0 };
    assert_eq!(DBStore::open(Some(stored), false).unwrap().1, OpenPlan { store_config: Some(stored) });
}

#[test]
fn a_follower_is_asked_to_write_nothing() {
    let (mut follower, plan) = DBStore::open(Some(Config { compacted: false, format: 0 }), true).unwrap();
    assert_eq!(plan, OpenPlan { store_config: None });
    assert!(!follower.may_write());
    assert!(follower.is_secondary());
    assert_eq!(
        follower.flush(),
        FlushPlan { flush: false, compact: false, store_config: None, enable_auto_compactions: false }
    );
    assert_eq!(follower.get_config(), Config { compacted: false, format: 0 });
    assert!(follower.is_bulk_import());
    let batch = WriteBatch {
        tip_row: b"tip".to_vec(),
        tip_height: 1,
        header_rows: to_rows(&[b"h"]),
        funding_rows: vec![],
        spending_rows: vec![],
        txid_rows: vec![],
    };
    assert_eq!(follower.write(&batch), vec![]);
    assert!(DBStore::open(None, false).unwrap().0.may_write());
}

#[test]
fn a_second_sort_changes_nothing() {
    let mut rows = to_rows(&[b"c", b"ab", b"b", b"", b"ab", b"abc"]);
    sort_rows(&mut rows);
    let once = rows.clone();
    sort_rows(&mut rows);
    assert_eq!(rows, once);
}

#[test]
fn start_compactions_ends_the_initial_load() {
    let mut store = DBStore::open(None, false).unwrap().0;
    store.start_compactions();
    assert!(!store.is_bulk_import());
    assert_eq!(store.get_config(), Config::default());
}

#[test]
fn the_column_families_are_eight() {
    let names: Vec<&str> = column_families().iter().map(|cf| cf.name()).collect();
    assert_eq!(
        names,
        vec!["config", "headers", "txid", "funding", "spending", "index", "height", "pending"]
    );
    assert_eq!(index_cf(), ColumnFamily::Index);
    assert_eq!(index_cf().name(), "index");
    assert_eq!(pending_cf(), ColumnFamily::Pending);
    assert_eq!(pending_cf().name(), "pending");
}

#[test]
fn rows_are_sorted_as_byte_strings() {
    let items: &[&[u8]] = &[
        b"c",
        b"abcdefghxyz",
        b"ab",
        b"b",
        b"abcdefgi",
        b"abcdefgh",
        b"abcdefghjk",
        b"abcdefghj",
        b"ab",
        b"",
    ];
    let mut rows = to_rows(items);
    sort_rows(&mut rows);
    let mut expected = to_rows(items);
    expected.sort_unstable();
    assert_eq!(rows, expected);
    assert_eq!(
        rows,
        to_rows(&[
            b"",
            b"ab",
            b"ab",
            b"abcdefgh",
            b"abcdefghj",
            b"abcdefghjk",
            b"abcdefghxyz",
            b"abcdefgi",
            b"b",
            b"c"
        ])
    );
    let mut none: Vec<Vec<u8>> = vec![];
    sort_rows(&mut none);
    assert_eq!(none, Vec::<Vec<u8>>::new());
}

#[test]
fn a_batch_sorts_each_kind_of_rows() {
    let mut batch = WriteBatch {
        tip_row: b"tip".to_vec(),
        tip_height: 9,
        header_rows: to_rows(&[b"h2", b"h1"]),
        funding_rows: to_rows(&[b"f3", b"f1", b"f2"]),
        spending_rows: to_rows(&[b"s"]),
        txid_rows: to_rows(&[b"t2", b"t1", b"t0"]),
    };
    batch.sort();
    assert_eq!(batch.header_rows, to_rows(&[b"h1", b"h2"]));
    assert_eq!(batch.funding_rows, to_rows(&[b"f1", b"f2", b"f3"]));
    assert_eq!(batch.spending_rows, to_rows(&[b"s"]));
    assert_eq!(batch.txid_rows, to_rows(&[b"t0", b"t1", b"t2"]));
    assert_eq!(batch.tip_row, b"tip".to_vec());
    assert_eq!(batch.tip_height, 9);
}

#[test]
fn a_default_batch_is_empty() {
    let batch = WriteBatch::default();
    assert_eq!(
        batch,
        WriteBatch {
            tip_row: vec![],
            tip_height: 0,
            header_rows: vec![],
            funding_rows: vec![],
            spending_rows: vec![],
            txid_rows: vec![]
        }
    );
}

#[test]
fn a_batch_is_written_as_keys_then_tip_then_height() {
    let store = DBStore::open(None, false).unwrap().0;
    let batch = WriteBatch {
        tip_row: b"tip".to_vec(),
        tip_height: 0x0102,
        header_rows: to_rows(&[b"h1"]),
        funding_rows: to_rows(&[b"f1", b"f2"]),
        spending_rows: to_rows(&[b"s1"]),
        txid_rows: to_rows(&[b"t1"]),
    };
    let key = |cf, key: &[u8]| CfPut { cf, key: key.to_vec(), value: vec![] };
    assert_eq!(
        store.write(&batch),
        vec![
            key(ColumnFamily::Funding, b"f1"),
            key(ColumnFamily::Funding, b"f2"),
            key(ColumnFamily::Spending, b"s1"),
            key(ColumnFamily::Txid, b"t1"),
            key(ColumnFamily::Headers, b"h1"),
            CfPut { cf: ColumnFamily::Headers, key: b"T".to_vec(), value: b"tip".to_vec() },
            CfPut { cf: ColumnFamily::Height, key: b"H".to_vec(), value: vec![2, 1, 0, 0] },
        ]
    );
    assert_eq!(
        store.write(&WriteBatch::default()),
        vec![
            CfPut { cf: ColumnFamily::Headers, key: b"T".to_vec(), value: vec![] },
            CfPut { cf: ColumnFamily::Height, key: b"H".to_vec(), value: vec![0, 0, 0, 0] },
        ]
    );
}

#[test]
fn the_tip_row_is_no_header() {
    assert_eq!(
        read_headers(to_rows(&[b"T", b"header one", b"T", b"header two", b"TT", b"t", b""])),
        to_rows(&[b"header one", b"header two", b"TT", b"t", b""])
    );
    assert_eq!(read_headers(vec![]), Vec::<Vec<u8>>::new());
}

#[test]
fn a_scratch_name_is_the_hyphenated_identifier() {
    assert_eq!(
        scratch_name_of(0xa1a2a3a4b1b2c1c2d1d2d3d4d5d6d7d8),
        "a1a2a3a4-b1b2-c1c2-d1d2-d3d4d5d6d7d8"
    );
    assert_eq!(scratch_name_of(0), "00000000-0000-0000-0000-000000000000");
    assert_eq!(scratch_name_of(5), scratch_name_of(5));
}

#[test]
fn fresh_scratch_names_differ() {
    let first = scratch_name();
    let second = scratch_name();
    assert_eq!(first.len(), 36);
    assert_eq!(second.len(), 36);
    assert_ne!(first, second);
    assert_eq!(first.matches('-').count(), 4);
}
