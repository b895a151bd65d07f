use copycat::cache::{get_paste_type, ClassificationCache, StoredKind};
use copycat::paste::analyzer::PasteType;
use std::cell::Cell;
use std::collections::HashMap;

#[test]
fn a_hit_is_read_back() {
    assert_eq!(ClassificationCache::lookup(Some("log".to_string())), Some(PasteType::Log));
    assert_eq!(ClassificationCache::lookup(Some("json".to_string())), Some(PasteType::Json));
    assert_eq!(ClassificationCache::lookup(Some("yaml".to_string())), Some(PasteType::Yaml));
    assert_eq!(ClassificationCache::lookup(Some("other".to_string())), Some(PasteType::Other));
}

#[test]
fn an_unknown_text_is_a_hit_for_other_content() {
    assert_eq!(ClassificationCache::lookup(Some("binary".to_string())), Some(PasteType::Other));
    assert_eq!(ClassificationCache::lookup(Some(String::new())), Some(PasteType::Other));
}

#[test]
fn no_entry_is_a_miss() {
    assert_eq!(ClassificationCache::lookup(None), None);
}

#[test]
fn a_miss_is_filled_from_the_content() {
    let entry = ClassificationCache::fill("abc123".to_string(), b"{\"a\": 1}");
    assert_eq!(entry.paste_id, "abc123");
    assert_eq!(entry.kind, PasteType::Json);
    assert_eq!(entry.value(), "json");
    let entry = ClassificationCache::fill("x".to_string(), b"[00:00:01] [Server thread/ERROR]: boom\n");
    assert_eq!(entry.kind, PasteType::Log);
    assert_eq!(entry.value(), "log");
}

#[test]
fn the_loader_is_not_called_on_a_hit() {
    let calls = Cell::new(0u32);
    let served = ClassificationCache::get_or_compute(
        "abc".to_string(),
        Some("yaml".to_string()),
        || {
            calls.set(calls.get() + 1);
            b"{\"json\": true}".to_vec()
        },
    );
    assert_eq!(served.0, PasteType::Yaml);
    assert!(served.1.is_none());
    assert_eq!(calls.get(), 0);
}

#[test]
fn the_loader_is_called_once_on_a_miss() {
    let calls = Cell::new(0u32);
    let served = ClassificationCache::get_or_compute("abc".to_string(), None, || {
        calls.set(calls.get() + 1);
        b"{\"json\": true}".to_vec()
    });
    assert_eq!(served.0, PasteType::Json);
    let entry = served.1.expect("a miss gives an entry to write back");
    assert_eq!(entry.paste_id, "abc");
    assert_eq!(entry.kind, PasteType::Json);
    assert_eq!(entry.value(), "json");
    assert_eq!(calls.get(), 1);
}

#[test]
fn two_calls_for_one_paste_load_it_once() {
    let mut store: HashMap<String, String> = HashMap::new();
    let calls = Cell::new(0u32);
    let mut kinds = Vec::new();
    for _ in 0..2 {
        let cached = store.get("paste").cloned();
        let served = ClassificationCache::get_or_compute("paste".to_string(), cached, || {
            calls.set(calls.get() + 1);
            b"[12:00:00] [Server thread/INFO]: Done (1.2s)!\n".to_vec()
        });
        if let Some(entry) = served.1 {
            store.insert(entry.paste_id.clone(), entry.value().to_string());
        }
        kinds.push(served.0);
    }
    assert_eq!(calls.get(), 1);
    assert_eq!(kinds, vec![PasteType::Log, PasteType::Log]);
    assert_eq!(store.get("paste").map(|text| text.as_str()), Some("log"));
}

#[test]
fn a_paste_that_the_store_knows_is_served() {
    assert_eq!(
        get_paste_type(Some("log".to_string()), true),
        StoredKind::Known(PasteType::Log)
    );
    assert_eq!(
        get_paste_type(Some("json".to_string()), false),
        StoredKind::Known(PasteType::Json)
    );
    assert_eq!(
        get_paste_type(Some("???".to_string()), true),
        StoredKind::Known(PasteType::Other)
    );
}

#[test]
fn a_paste_that_the_store_forgot_is_gone() {
    assert_eq!(
        get_paste_type(None, true),
        StoredKind::Gone { remove_object: true }
    );
    assert_eq!(
        get_paste_type(None, false),
        StoredKind::Gone { remove_object: false }
    );
}
