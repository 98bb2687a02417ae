use std::path::PathBuf;

use base64::engine::general_purpose::STANDARD;
use base64::Engine;
use copied::daemon::{
    clipboard_written, handle_command, image_bytes, image_read_failed, invalid_command,
    list_views, observe_image, record_image, record_text, CommandStep,
};
use copied::protocol::{Category, Command, ItemId, ItemKindView, Response};
use copied::stack::{content_hash, Item, ItemKind, Stack, MAX_PINS};

/// A fresh random id, which no item of a test history has.
fn unknown_id() -> ItemId {
    ItemId(uuid::Uuid::new_v4().as_u128())
}

fn test_state() -> Stack {
    Stack::default()
}

fn error_message(step: CommandStep) -> String {
    match step {
        CommandStep::Reply(Response::Error { message }) => message,
        other => panic!("esperava erro, veio {other:?}"),
    }
}

#[test]
fn handle_get_image_bytes_returns_bytes_for_existing_image() {
    let mut state = test_state();
    let bytes = b"fake-png-bytes";
    let path = PathBuf::from("/tmp/img.png");
    let hash = content_hash(bytes);
    let item = Item::new_image(path.clone(), "image/png".into(), bytes.len() as u64, hash);
    let id = item.id;
    state.insert(item);

    let step = handle_command(&mut state, Command::GetImageBytes { id });
    let response = match step {
        CommandStep::SendImage { path: p, mime } => {
            assert_eq!(p, path);
            image_bytes(mime, bytes)
        }
        other => panic!("esperava leitura da imagem, veio {other:?}"),
    };

    match response {
        Response::ImageBytes { mime, data_base64 } => {
            assert_eq!(mime, "image/png");
            assert_eq!(STANDARD.decode(data_base64).unwrap(), bytes);
        }
        other => panic!("esperava Response::ImageBytes, veio {other:?}"),
    }
}

#[test]
fn handle_get_image_bytes_errors_when_file_missing() {
    let mut state = test_state();
    let path = PathBuf::from("/tmp/missing.png");
    let hash = content_hash(b"x");
    let item = Item::new_image(path, "image/png".into(), 1, hash);
    let id = item.id;
    state.insert(item);

    let step = handle_command(&mut state, Command::GetImageBytes { id });
    let response = match step {
        CommandStep::SendImage { .. } => image_read_failed("No such file or directory"),
        other => panic!("esperava leitura da imagem, veio {other:?}"),
    };

    assert!(matches!(response, Response::Error { .. }));
}

#[test]
fn handle_set_category_updates_item() {
    let mut state = test_state();
    let item = Item::new_text("hello".into());
    let id = item.id;
    state.insert(item);

    let step = handle_command(
        &mut state,
        Command::SetCategory {
            id,
            category: Category::Url,
        },
    );

    match step {
        CommandStep::Changed { response, discarded } => {
            assert_eq!(response, Response::Ack);
            assert!(discarded.is_none());
        }
        other => panic!("esperava mudança, veio {other:?}"),
    }
    assert_eq!(state.get(id).unwrap().category, Category::Url);
}

#[test]
fn handle_set_category_errors_on_unknown_id() {
    let mut state = test_state();

    let step = handle_command(
        &mut state,
        Command::SetCategory {
            id: unknown_id(),
            category: Category::Url,
        },
    );

    assert!(matches!(step, CommandStep::Reply(Response::Error { .. })));
}

#[test]
fn list_shows_pins_first_then_recent_items() {
    let mut stack = Stack::default();
    stack.push_text("a".into());
    stack.push_text("b".into());
    let a = stack.items().nth(1).unwrap().id;
    stack.pin(a).unwrap();
    let views = list_views(&stack);
    assert_eq!(views.len(), 2);
    assert!(views[0].pinned);
    assert_eq!(views[0].id, a);
    assert!(!views[1].pinned);
    assert_eq!(
        views[1].kind,
        ItemKindView::Text {
            preview: "b".into()
        }
    );
}

#[test]
fn preview_keeps_the_first_200_characters() {
    let mut stack = Stack::default();
    let long: String = "é".repeat(250);
    stack.push_text(long);
    let views = list_views(&stack);
    match &views[0].kind {
        ItemKindView::Text { preview } => assert_eq!(preview.chars().count(), 200),
        other => panic!("{other:?}"),
    }
}

#[test]
fn delete_answers_ack_and_hands_back_the_item() {
    let mut stack = Stack::default();
    stack.push_text("a".into());
    let id = stack.items().next().unwrap().id;
    match handle_command(&mut stack, Command::Delete { id }) {
        CommandStep::Changed {
            response,
            discarded: Some(item),
        } => {
            assert_eq!(response, Response::Ack);
            assert_eq!(item.kind, ItemKind::Text("a".into()));
        }
        other => panic!("{other:?}"),
    }
    assert_eq!(
        error_message(handle_command(&mut stack, Command::Delete { id })),
        "item não encontrado"
    );
}

#[test]
fn pin_limit_message_names_the_limit() {
    let mut stack = Stack::default();
    for i in 0..MAX_PINS {
        stack.push_text(format!("p{i}"));
        let id = stack.items().next().unwrap().id;
        stack.pin(id).unwrap();
    }
    stack.push_text("extra".into());
    let id = stack.items().next().unwrap().id;
    assert_eq!(
        error_message(handle_command(&mut stack, Command::Pin { id })),
        "Máximo de 5 pins atingido — despine algo primeiro"
    );
}

#[test]
fn unpin_of_recent_item_is_an_error() {
    let mut stack = Stack::default();
    stack.push_text("a".into());
    let id = stack.items().next().unwrap().id;
    assert_eq!(
        error_message(handle_command(&mut stack, Command::Unpin { id })),
        "item não está pinado"
    );
}

#[test]
fn copy_of_text_asks_for_the_text() {
    let mut stack = Stack::default();
    stack.push_text("copy me".into());
    let id = stack.items().next().unwrap().id;
    match handle_command(&mut stack, Command::CopyToClipboard { id }) {
        CommandStep::CopyText(t) => assert_eq!(t, "copy me"),
        other => panic!("{other:?}"),
    }
    assert_eq!(
        error_message(handle_command(&mut stack, Command::GetImageBytes { id })),
        "item não é uma imagem"
    );
}

#[test]
fn answers_after_side_effects() {
    assert_eq!(clipboard_written(None), Response::Ack);
    assert_eq!(
        clipboard_written(Some("sem wayland")),
        Response::Error {
            message: "falha escrevendo no clipboard: sem wayland".into()
        }
    );
    assert_eq!(
        invalid_command("x"),
        Response::Error {
            message: "comando inválido: x".into()
        }
    );
    assert_eq!(
        image_bytes("image/png".into(), b"hello"),
        Response::ImageBytes {
            mime: "image/png".into(),
            data_base64: "aGVsbG8=".into()
        }
    );
}

#[test]
fn recording_a_text_sets_its_category_once() {
    let mut stack = Stack::default();
    record_text(&mut stack, "https://example.com".into());
    assert_eq!(stack.items().next().unwrap().category, Category::Url);
    let id = stack.items().next().unwrap().id;
    stack.set_category(id, Category::Outro).unwrap();
    record_text(&mut stack, "https://example.com".into());
    assert_eq!(stack.item_count(), 1);
    assert_eq!(stack.items().next().unwrap().category, Category::Outro);
}

#[test]
fn recording_an_image_twice_touches_it() {
    let mut stack = Stack::default();
    let bytes = b"png";
    let hash = observe_image(&mut stack, bytes).expect("nova imagem");
    assert!(record_image(&mut stack, PathBuf::from("/c/x.png"), "image/png".into(), 3, hash).is_none());
    assert_eq!(stack.items().next().unwrap().category, Category::Imagem);
    assert!(observe_image(&mut stack, bytes).is_none());
    assert_eq!(stack.item_count(), 1);
}

#[test]
fn recording_a_text_returns_the_image_it_evicts() {
    let mut stack = Stack::default();
    let bytes = b"old-image";
    let hash = observe_image(&mut stack, bytes).expect("nova imagem");
    assert!(record_image(&mut stack, PathBuf::from("/c/old.png"), "image/png".into(), 9, hash).is_none());
    for i in 1..copied::stack::MAX_ITEMS {
        assert!(record_text(&mut stack, format!("text-{i}")).is_none());
    }
    assert_eq!(stack.item_count(), copied::stack::MAX_ITEMS);
    // Copying a known text again evicts nothing.
    assert!(record_text(&mut stack, "text-1".into()).is_none());
    match record_text(&mut stack, "brand new".into()) {
        Some(Item { kind: ItemKind::Image { path, .. }, .. }) => {
            assert_eq!(path, PathBuf::from("/c/old.png"))
        }
        other => panic!("esperava a imagem evictada, veio {other:?}"),
    }
    assert_eq!(stack.item_count(), copied::stack::MAX_ITEMS);
    assert_eq!(stack.items().next().unwrap().kind, ItemKind::Text("brand new".into()));
}

#[test]
fn content_hashes_stay_unique() {
    let mut stack = Stack::default();
    for text in ["a", "b", "a", "c", "b", "a"] {
        record_text(&mut stack, text.into());
    }
    let bytes = b"img";
    let hash = observe_image(&mut stack, bytes).expect("nova imagem");
    record_image(&mut stack, PathBuf::from("/c/i.png"), "image/png".into(), 3, hash);
    assert!(observe_image(&mut stack, bytes).is_none());
    let id = stack.items().nth(1).unwrap().id;
    handle_command(&mut stack, Command::Pin { id });
    record_text(&mut stack, "c".into());
    handle_command(&mut stack, Command::Unpin { id });
    let hashes: Vec<[u8; 32]> = stack.items().chain(stack.pins()).map(|i| i.content_hash).collect();
    assert_eq!(hashes.len(), 4);
    for (i, a) in hashes.iter().enumerate() {
        for b in &hashes[i + 1..] {
            assert_ne!(a, b);
        }
    }
}
