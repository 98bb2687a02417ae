use std::path::PathBuf;

use copied::protocol::{Category, ItemId};
use copied::stack::{
    content_hash, CategoryError, Item, ItemKind, PinError, PushOutcome, Stack,
    UnpinOutcome, MAX_ITEMS, MAX_PINS,
};

/// A fresh random id, which no item of a test history has.
fn unknown_id() -> ItemId {
    ItemId(uuid::Uuid::new_v4().as_u128())
}

#[test]
fn push_text_inserts_new_item_at_top() {
    let mut stack = Stack::default();
    stack.push_text("first".into());
    stack.push_text("second".into());

    let items: Vec<_> = stack.items().collect();
    assert_eq!(items.len(), 2);
    assert_eq!(items[0].kind, ItemKind::Text("second".into()));
    assert_eq!(items[1].kind, ItemKind::Text("first".into()));
}

#[test]
fn push_text_dedup_moves_existing_to_top_without_duplicating() {
    let mut stack = Stack::default();
    stack.push_text("a".into());
    stack.push_text("b".into());
    let outcome = stack.push_text("a".into());

    assert_eq!(outcome, PushOutcome::Touched);
    let items: Vec<_> = stack.items().collect();
    assert_eq!(items.len(), 2, "não deve duplicar");
    assert_eq!(items[0].kind, ItemKind::Text("a".into()));
}

#[test]
fn push_text_evicts_oldest_when_over_capacity() {
    let mut stack = Stack::default();
    for i in 0..MAX_ITEMS {
        stack.push_text(format!("item-{i}"));
    }
    assert_eq!(stack.items().count(), MAX_ITEMS);

    stack.push_text("item-overflow".into());

    let items: Vec<_> = stack.items().collect();
    assert_eq!(items.len(), MAX_ITEMS, "não deve crescer além de 15");
    assert_eq!(items[0].kind, ItemKind::Text("item-overflow".into()));
    assert!(
        items
            .iter()
            .all(|i| i.kind != ItemKind::Text("item-0".into())),
        "o mais antigo (item-0) deveria ter sido evictado"
    );
}

#[test]
fn pin_moves_item_from_stack_to_pins() {
    let mut stack = Stack::default();
    stack.push_text("a".into());
    let id = stack.items().next().unwrap().id;

    stack.pin(id).expect("deveria pinar com sucesso");

    assert_eq!(stack.items().count(), 0);
    assert_eq!(stack.pins().count(), 1);
    assert_eq!(stack.pins().next().unwrap().id, id);
}

#[test]
fn pin_rejects_pin_past_limit_with_limit_reached() {
    let mut stack = Stack::default();
    let mut ids = vec![];
    for i in 0..MAX_PINS {
        stack.push_text(format!("pin-{i}"));
        let id = stack.items().next().unwrap().id;
        stack.pin(id).unwrap();
        ids.push(id);
    }
    assert_eq!(stack.pins().count(), MAX_PINS);

    stack.push_text("one-past-limit".into());
    let extra_id = stack.items().next().unwrap().id;
    let result = stack.pin(extra_id);

    assert_eq!(result, Err(PinError::LimitReached));
    assert_eq!(stack.pins().count(), MAX_PINS, "não deve alterar os pins");
    assert_eq!(stack.items().count(), 1, "item continua não-pinado");
}

#[test]
fn pin_unknown_id_returns_not_found() {
    let mut stack = Stack::default();
    let result = stack.pin(unknown_id());
    assert_eq!(result, Err(PinError::NotFound));
}

#[test]
fn unpin_returns_item_to_top_of_stack() {
    let mut stack = Stack::default();
    stack.push_text("a".into());
    let id = stack.items().next().unwrap().id;
    stack.pin(id).unwrap();

    let outcome = stack.unpin(id);

    assert_eq!(outcome, UnpinOutcome::Unpinned { evicted: None });
    assert_eq!(stack.pins().count(), 0);
    assert_eq!(stack.items().count(), 1);
    assert_eq!(stack.items().next().unwrap().id, id);
}

#[test]
fn unpin_not_pinned_id_is_noop() {
    let mut stack = Stack::default();
    let outcome = stack.unpin(unknown_id());
    assert_eq!(outcome, UnpinOutcome::NotPinned);
}

#[test]
fn unpin_evicts_oldest_when_stack_is_full() {
    let mut stack = Stack::default();
    stack.push_text("will-be-pinned".into());
    let pin_id = stack.items().next().unwrap().id;
    stack.pin(pin_id).unwrap();

    for i in 0..MAX_ITEMS {
        stack.push_text(format!("item-{i}"));
    }
    assert_eq!(stack.items().count(), MAX_ITEMS);

    let outcome = stack.unpin(pin_id);

    match outcome {
        UnpinOutcome::Unpinned {
            evicted: Some(evicted),
        } => {
            assert_eq!(evicted.kind, ItemKind::Text("item-0".into()));
        }
        other => panic!("esperava eviction do item mais antigo, veio {other:?}"),
    }
    assert_eq!(stack.items().count(), MAX_ITEMS);
}

#[test]
fn delete_removes_non_pinned_item() {
    let mut stack = Stack::default();
    stack.push_text("a".into());
    let id = stack.items().next().unwrap().id;

    let removed = stack.delete(id);

    assert!(removed.is_some());
    assert_eq!(stack.items().count(), 0);
}

#[test]
fn delete_removes_pinned_item_and_frees_slot() {
    let mut stack = Stack::default();
    stack.push_text("a".into());
    let id = stack.items().next().unwrap().id;
    stack.pin(id).unwrap();

    let removed = stack.delete(id);

    assert!(removed.is_some());
    assert_eq!(stack.pins().count(), 0);
}

#[test]
fn delete_unknown_id_returns_none() {
    let mut stack = Stack::default();
    assert_eq!(stack.delete(unknown_id()), None);
}

#[test]
fn set_category_updates_existing_item() {
    let mut stack = Stack::default();
    stack.push_text("a".into());
    let id = stack.items().next().unwrap().id;

    stack
        .set_category(id, Category::Url)
        .expect("deveria atualizar");

    assert_eq!(stack.items().next().unwrap().category, Category::Url);
}

#[test]
fn set_category_unknown_id_returns_not_found() {
    let mut stack = Stack::default();
    let result = stack.set_category(unknown_id(), Category::Url);
    assert_eq!(result, Err(CategoryError::NotFound));
}

#[test]
fn set_category_works_on_pinned_item() {
    let mut stack = Stack::default();
    stack.push_text("a".into());
    let id = stack.items().next().unwrap().id;
    stack.pin(id).unwrap();

    stack
        .set_category(id, Category::Codigo)
        .expect("deveria atualizar item pinado");

    assert_eq!(stack.pins().next().unwrap().category, Category::Codigo);
}

#[test]
fn insert_image_item_computed_hash_used_for_dedup_via_touch() {
    let mut stack = Stack::default();
    let bytes = b"fake-png-bytes";
    let hash = content_hash(bytes);
    let item = Item::new_image(
        PathBuf::from("/cache/a.png"),
        "image/png".into(),
        bytes.len() as u64,
        hash,
    );
    stack.insert(item);

    assert!(stack.touch(&hash), "deveria encontrar a imagem pelo hash");
    assert_eq!(stack.items().count(), 1);
}

// Further cases.

#[test]
fn content_hash_is_the_sha256_digest() {
    let hash = content_hash(b"abc");
    assert_eq!(
        copied::persistence::hex_encode(&hash),
        "ba7816bf8f01cfea414140de5dae2223b00361a396177a9cb410ff61f20015ad"
    );
}

#[test]
fn touch_of_unknown_hash_changes_nothing() {
    let mut stack = Stack::default();
    stack.push_text("a".into());
    assert!(!stack.touch(&content_hash(b"zzz")));
    assert_eq!(stack.items().count(), 1);
}

#[test]
fn touch_of_pinned_content_keeps_pins_in_place() {
    let mut stack = Stack::default();
    stack.push_text("a".into());
    stack.push_text("b".into());
    let a_id = stack.items().nth(1).unwrap().id;
    stack.pin(a_id).unwrap();
    assert_eq!(stack.push_text("a".into()), PushOutcome::Touched);
    assert_eq!(stack.pins().count(), 1);
    assert_eq!(stack.pins().next().unwrap().id, a_id);
    assert_eq!(stack.items().count(), 1);
}

#[test]
fn pin_of_pinned_id_is_not_found() {
    let mut stack = Stack::default();
    stack.push_text("a".into());
    let id = stack.items().next().unwrap().id;
    stack.pin(id).unwrap();
    assert_eq!(stack.pin(id), Err(PinError::NotFound));
}

#[test]
fn get_finds_recent_and_pinned_items() {
    let mut stack = Stack::default();
    stack.push_text("a".into());
    stack.push_text("b".into());
    let a = stack.items().nth(1).unwrap().id;
    let b = stack.items().next().unwrap().id;
    stack.pin(a).unwrap();
    assert_eq!(stack.get(a).unwrap().kind, ItemKind::Text("a".into()));
    assert_eq!(stack.get(b).unwrap().kind, ItemKind::Text("b".into()));
    assert!(stack.get(unknown_id()).is_none());
}

#[test]
fn insert_returns_evicted_only_past_capacity() {
    let mut stack = Stack::new();
    for i in 0..MAX_ITEMS {
        assert!(stack.insert(Item::new_text(format!("x{i}"))).is_none());
    }
    let evicted = stack.insert(Item::new_text("last".into())).unwrap();
    assert_eq!(evicted.kind, ItemKind::Text("x0".into()));
    assert_eq!(stack.item_count(), MAX_ITEMS);
}

#[test]
fn new_text_item_has_default_category_and_content_hash() {
    let item = Item::new_text("hello".into());
    assert_eq!(item.category, Category::Outro);
    assert_eq!(item.content_hash, content_hash("hello".as_bytes()));
}
