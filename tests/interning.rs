use strid::{StrCache, StrID};

#[test]
fn alpha_beta_scenario() {
    let mut cache = StrCache::new();
    let a = cache.try_intern_str("alpha").unwrap();
    let b = cache.try_intern_str("beta").unwrap();
    assert!(a != b);
    let again = cache.try_intern_str("alpha").unwrap();
    assert!(again == a);
    assert_eq!(a.as_str(&cache), "alpha");
    assert_eq!(b.as_str(&cache), "beta");
    assert_eq!(StrID::default().as_str(&cache), "");
}

#[test]
fn same_text_through_both_entry_points() {
    let mut cache = StrCache::new();
    let owned = cache.try_intern_string(String::from("shared")).unwrap();
    let borrowed = cache.try_intern_str("shared").unwrap();
    assert!(owned == borrowed);
    let owned_again = cache.try_intern_string("shared".to_string()).unwrap();
    assert!(owned_again == owned);
}

#[test]
fn distinct_texts_get_distinct_ids() {
    let mut cache = StrCache::new();
    let texts = ["a", "b", "A", "a ", " a", "ab", "ba", ""];
    let ids: Vec<StrID> = texts.iter().map(|t| cache.try_intern_str(t).unwrap()).collect();
    for i in 0..ids.len() {
        for j in 0..ids.len() {
            assert_eq!(ids[i] == ids[j], i == j);
        }
    }
}

#[test]
fn round_trip_is_exact() {
    let mut cache = StrCache::new();
    for text in ["plain", "Grüße", "日本語", "tab\tand\nnewline", "", "  spaced  "] {
        let id = cache.try_intern_str(text).unwrap();
        assert_eq!(id.as_str(&cache), text);
        let owned = cache.try_intern_string(text.to_string()).unwrap();
        assert_eq!(owned.as_str(&cache), text);
    }
}

#[test]
fn owned_text_round_trips() {
    let mut cache = StrCache::new();
    let id = cache.try_intern_string(String::from("owned text")).unwrap();
    assert_eq!(id.as_str(&cache), "owned text");
}

#[test]
fn empty_text_is_default() {
    let mut cache = StrCache::new();
    cache.try_intern_str("first").unwrap();
    let empty = cache.try_intern_str("").unwrap();
    assert!(empty == StrID::default());
    let empty_owned = cache.try_intern_string(String::new()).unwrap();
    assert!(empty_owned == StrID::default());
    assert_eq!(StrID::default().as_usize(), 1);
}

#[test]
fn ids_are_never_zero() {
    let mut cache = StrCache::new();
    assert_ne!(StrID::default().as_usize(), 0);
    for n in 0..200 {
        let id = cache.try_intern_string(format!("text {}", n)).unwrap();
        assert_ne!(id.as_usize(), 0);
    }
}

#[test]
fn fresh_ids_count_up_from_two() {
    let mut cache = StrCache::new();
    assert_eq!(cache.try_intern_str("x").unwrap().as_usize(), 2);
    assert_eq!(cache.try_intern_str("y").unwrap().as_usize(), 3);
    assert_eq!(cache.try_intern_str("x").unwrap().as_usize(), 2);
    assert_eq!(cache.try_intern_string(String::from("z")).unwrap().as_usize(), 4);
}

#[test]
fn interleaved_calls_keep_one_id_per_text() {
    let mut cache = StrCache::new();
    let mut first: Vec<(String, StrID)> = Vec::new();
    for round in 0..5 {
        for n in 0..20 {
            let text = format!("word{}", (n * 7 + round) % 20);
            let id = if n % 2 == 0 {
                cache.try_intern_str(&text).unwrap()
            } else {
                cache.try_intern_string(text.clone()).unwrap()
            };
            match first.iter().find(|(t, _)| *t == text) {
                Some((_, seen)) => assert!(*seen == id),
                None => first.push((text, id)),
            }
        }
    }
    assert_eq!(first.len(), 20);
    for (text, id) in &first {
        assert_eq!(id.as_str(&cache), text.as_str());
        assert!(cache.lookup(text) == Some(*id));
    }
}

#[test]
fn lookup_finds_only_interned_text() {
    let mut cache = StrCache::new();
    assert!(cache.lookup("missing").is_none());
    assert!(cache.lookup("") == Some(StrID::default()));
    let id = cache.try_intern_str("present").unwrap();
    assert!(cache.lookup("present") == Some(id));
    assert!(cache.lookup("Present").is_none());
}

#[test]
fn unknown_id_resolves_to_empty_text() {
    let mut big = StrCache::new();
    let mut last = StrID::default();
    for n in 0..5 {
        last = big.try_intern_string(format!("entry {}", n)).unwrap();
    }
    let fresh = StrCache::new();
    assert_eq!(last.as_str(&fresh), "");
    assert_eq!(last.as_str(&big), "entry 4");
}

#[test]
fn ids_order_by_their_integers() {
    let mut cache = StrCache::new();
    let a = cache.try_intern_str("later").unwrap();
    let b = cache.try_intern_str("earlier").unwrap();
    assert!(a < b);
    assert_eq!(a.cmp(&b), a.as_usize().cmp(&b.as_usize()));
}
