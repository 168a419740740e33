use hastebin::error::PasteError;
use hastebin::paste::{Paste, RawPaste};
use hastebin::store::PasteTable;
use hastebin::utils::ValueInt;

fn pairs(items: &[(&str, &str)]) -> Vec<(String, String)> {
    items.iter().map(|(k, v)| (k.to_string(), v.to_string())).collect()
}

fn round_trip(content: Vec<(String, String)>) {
    let mut db = PasteTable::new();
    let id = Paste::create(&mut db, content.clone(), "sig".to_string()).unwrap();
    let paste = Paste::fetch(&mut db, id).unwrap().unwrap();
    assert_eq!(paste.content, content);
    assert_eq!(paste.signature, "sig");
    assert_eq!(paste.id, id);
    assert_eq!(paste.views, 1);
}

#[test]
fn create_then_fetch_twice_then_fetch_missing() {
    let mut db = PasteTable::new();
    let content = pairs(&[("a", "1"), ("b", "2")]);
    let id = Paste::create(&mut db, content.clone(), "sig1".to_string()).unwrap();
    assert!(0 <= id && id < 65536);

    let first = Paste::fetch(&mut db, id).unwrap().unwrap();
    assert_eq!(first.id, id);
    assert_eq!(first.content, content);
    assert_eq!(first.signature, "sig1");
    assert_eq!(first.views, 1);
    assert!(first.timestamp > 1_600_000_000);

    let second = Paste::fetch(&mut db, id).unwrap().unwrap();
    assert_eq!(second.views, 2);
    assert_eq!(second.timestamp, first.timestamp);
    assert_eq!(second.content, content);

    assert_eq!(Paste::fetch(&mut db, 999999), Ok(None));
}

#[test]
fn created_ids_are_pairwise_distinct() {
    let mut db = PasteTable::new();
    let mut ids: Vec<i64> = Vec::new();
    for n in 0..200 {
        let id = Paste::create(&mut db, pairs(&[("n", "x")]), format!("s{}", n)).unwrap();
        assert!(!ids.contains(&id));
        ids.push(id);
    }
    assert_eq!(db.len(), 200);
    let column: Vec<i64> = db.ids().into_iter().map(|v| v.0).collect();
    assert_eq!(column, ids);
}

#[test]
fn round_trip_of_empty_content() {
    round_trip(Vec::new());
}

#[test]
fn round_trip_of_single_pair() {
    round_trip(pairs(&[("main.rs", "fn main() {}")]));
}

#[test]
fn round_trip_keeps_order_and_duplicate_keys() {
    round_trip(pairs(&[("k", "2"), ("k", "1"), ("a", "3"), ("k", "1"), ("", "")]));
}

#[test]
fn round_trip_of_text_that_needs_escapes() {
    round_trip(pairs(&[
        ("quote\"back\\slash", "line\nbreak\ttab\r\u{0}\u{1f}\u{7f}"),
        ("caf\u{e9} \u{4e16}\u{754c} \u{1f600}", "[[\"a\",\"1\"]]"),
        ("/</script>\u{2028}\u{2029}", "%20+&="),
    ]));
}

#[test]
fn views_count_each_fetch() {
    let mut db = PasteTable::new();
    let row = RawPaste {
        id: 7,
        content: "[]".to_string(),
        signature: "s".to_string(),
        views: 40,
        timestamp: 12,
    };
    assert_eq!(db.insert(row), Ok(()));
    for k in 1..=25 {
        let paste = Paste::fetch(&mut db, 7).unwrap().unwrap();
        assert_eq!(paste.views, 40 + k);
        assert_eq!(db.select(7).unwrap().views, 40 + k);
    }
    let paste = Paste::fetch(&mut db, 7).unwrap().unwrap();
    assert_eq!(
        paste,
        Paste { id: 7, content: Vec::new(), signature: "s".to_string(), views: 66, timestamp: 12 }
    );
}

#[test]
fn fetch_of_unknown_id_changes_nothing() {
    let mut db = PasteTable::new();
    let id = Paste::create(&mut db, pairs(&[("a", "1")]), "s".to_string()).unwrap();
    let missing = if id == 3 { 4 } else { 3 };
    let before = db.select(id).unwrap();
    for _ in 0..10 {
        assert_eq!(Paste::fetch(&mut db, missing), Ok(None));
        assert_eq!(Paste::fetch(&mut db, -1), Ok(None));
        assert_eq!(Paste::fetch(&mut db, i64::MAX), Ok(None));
    }
    assert_eq!(db.len(), 1);
    assert_eq!(db.ids(), vec![ValueInt(id)]);
    assert_eq!(db.select(id).unwrap(), before);
    assert_eq!(db.select(missing), None);
}

#[test]
fn fetch_of_unknown_id_in_empty_table() {
    let mut db = PasteTable::new();
    assert_eq!(Paste::fetch(&mut db, 0), Ok(None));
    assert_eq!(db.len(), 0);
    assert_eq!(db.ids(), Vec::<ValueInt>::new());
}

#[test]
fn create_under_a_used_id_is_refused() {
    let mut db = PasteTable::new();
    assert_eq!(Paste::create_under(&mut db, 5, 100, pairs(&[("a", "1")]), "first".to_string()), Ok(5));
    assert_eq!(
        Paste::create_under(&mut db, 5, 200, pairs(&[("b", "2")]), "second".to_string()),
        Err(PasteError::DuplicateId)
    );
    assert_eq!(db.len(), 1);
    let kept = db.select(5).unwrap();
    assert_eq!(
        kept,
        RawPaste {
            id: 5,
            content: "[[\"a\",\"1\"]]".to_string(),
            signature: "first".to_string(),
            views: 0,
            timestamp: 100,
        }
    );
}

#[test]
fn insert_of_a_used_id_is_refused() {
    let mut db = PasteTable::new();
    let row = |views: i64| RawPaste {
        id: 9,
        content: "[]".to_string(),
        signature: String::new(),
        views,
        timestamp: 0,
    };
    assert_eq!(db.insert(row(0)), Ok(()));
    assert_eq!(db.insert(row(3)), Err(PasteError::DuplicateId));
    assert_eq!(db.select(9).unwrap().views, 0);
}

#[test]
fn fetch_at_the_counter_limit_fails_and_changes_nothing() {
    let mut db = PasteTable::new();
    let row = RawPaste {
        id: 1,
        content: "[]".to_string(),
        signature: String::new(),
        views: i64::MAX - 1,
        timestamp: 0,
    };
    assert_eq!(db.insert(row), Ok(()));
    assert_eq!(Paste::fetch(&mut db, 1).unwrap().unwrap().views, i64::MAX);
    assert_eq!(Paste::fetch(&mut db, 1), Err(PasteError::ViewsOverflow));
    assert_eq!(db.select(1).unwrap().views, i64::MAX);
    assert_eq!(db.increment_views(1), Err(PasteError::ViewsOverflow));
}

#[test]
fn fetch_of_unreadable_content_fails_after_counting_the_view() {
    let mut db = PasteTable::new();
    let row = RawPaste {
        id: 2,
        content: "{\"not\":\"pairs\"}".to_string(),
        signature: String::new(),
        views: 0,
        timestamp: 0,
    };
    assert_eq!(db.insert(row), Ok(()));
    assert_eq!(Paste::fetch(&mut db, 2), Err(PasteError::MalformedContent));
    assert_eq!(db.select(2).unwrap().views, 1);
}

#[test]
fn increment_views_of_unknown_id_reports_no_row() {
    let mut db = PasteTable::new();
    assert_eq!(db.increment_views(4), Ok(false));
    assert_eq!(db.len(), 0);
}

#[test]
fn fetched_of_a_row_counts_one_view() {
    let row = RawPaste {
        id: 11,
        content: "[[\"k\",\"v\"]]".to_string(),
        signature: "s".to_string(),
        views: 4,
        timestamp: 99,
    };
    assert_eq!(
        Paste::fetched(Some(row)),
        Ok(Some(Paste {
            id: 11,
            content: pairs(&[("k", "v")]),
            signature: "s".to_string(),
            views: 5,
            timestamp: 99,
        }))
    );
    assert_eq!(Paste::fetched(None), Ok(None));
}

#[test]
fn fresh_row_has_no_views_and_json_content() {
    let row = RawPaste::fresh(3, &pairs(&[("a", "1"), ("b", "2")]), "sig1".to_string(), 1234);
    assert_eq!(
        row,
        RawPaste {
            id: 3,
            content: "[[\"a\",\"1\"],[\"b\",\"2\"]]".to_string(),
            signature: "sig1".to_string(),
            views: 0,
            timestamp: 1234,
        }
    );
    let copy = row.clone();
    assert_eq!(copy, row);
    assert_eq!(row.viewed().unwrap().views, 1);
    assert_eq!(copy.into_paste().unwrap().content, pairs(&[("a", "1"), ("b", "2")]));
}

#[test]
fn generate_id_avoids_stored_ids() {
    let mut db = PasteTable::new();
    for id in 0..300 {
        assert_eq!(Paste::create_under(&mut db, id, 0, Vec::new(), String::new()), Ok(id));
    }
    for _ in 0..50 {
        let id = Paste::generate_id(&db).unwrap();
        assert!(300 <= id && id < 65536);
    }
}

#[test]
fn create_falls_back_when_the_primary_space_is_full() {
    let mut db = PasteTable::new();
    for id in 0..16 {
        assert_eq!(Paste::create_under(&mut db, id, 0, Vec::new(), String::new()), Ok(id));
    }
    let mut ids: Vec<i64> = Vec::new();
    for _ in 0..100 {
        let id = Paste::create_with(&mut db, 1, 1_000_000, pairs(&[("a", "1")]), "s".to_string())
            .unwrap();
        assert!(16 <= id && id < 256);
        assert!(!ids.contains(&id));
        ids.push(id);
        assert_eq!(Paste::fetch(&mut db, id).unwrap().unwrap().content, pairs(&[("a", "1")]));
    }
    assert_eq!(db.len(), 116);
}

#[test]
fn create_fails_when_no_key_is_free() {
    let mut db = PasteTable::new();
    assert_eq!(Paste::create_with(&mut db, 0, 20, Vec::new(), String::new()), Ok(0));
    assert_eq!(
        Paste::create_with(&mut db, 0, 20, Vec::new(), String::new()),
        Err(PasteError::NoFreeKey)
    );
    assert_eq!(Paste::generate_id_with(&db, 0, 20), None);
    assert_eq!(db.len(), 1);
    assert_eq!(db.select(0).unwrap().views, 0);
}

#[test]
fn create_fills_a_small_key_space_to_the_last_key() {
    let mut db = PasteTable::new();
    for _ in 0..256 {
        let id = Paste::create_with(&mut db, 1, 1_000_000, Vec::new(), String::new()).unwrap();
        assert!(0 <= id && id < 256);
    }
    let mut column: Vec<i64> = db.ids().into_iter().map(|v| v.0).collect();
    column.sort();
    assert_eq!(column, (0..256).collect::<Vec<i64>>());
    assert_eq!(
        Paste::create_with(&mut db, 1, 1_000, Vec::new(), String::new()),
        Err(PasteError::NoFreeKey)
    );
}
