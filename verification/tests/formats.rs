use std::time::SystemTime;

use copied::cli::item_line;
use copied::instance_lock::{parse_i32, pid_in_lock_file};
use copied::paths::{image_cache_dir, join_path, socket_path, stack_path, xdg_dir};
use copied::persistence::{extension_for_mime, hex_encode, image_file_name, restore, StackSnapshot};
use copied::protocol::{Category, ItemId, ItemKindView, ItemView};
use copied::stack::{content_hash, Item};
use copied::text::decimal_string;
use copied::views::render_content;
use copied::watcher::{
    change_from, choose_mime, reconnect_delay_secs, watch_step, ClipboardChange, ContentKind,
    ReconnectState, WatchAction, WatchEvent,
};

fn view(kind: ItemKindView, pinned: bool) -> ItemView {
    ItemView {
        id: ItemId(7),
        kind,
        pinned,
        copied_at: SystemTime::UNIX_EPOCH,
        category: Category::Outro,
    }
}

#[test]
fn save_image_names_file_by_hash_and_extension() {
    let bytes = b"png-bytes";
    let hash = content_hash(bytes);
    let name = image_file_name(&hash, "image/png");
    assert!(name.ends_with(".png"));
    assert_eq!(name, format!("{}.png", hex_encode(&hash)));
    assert_eq!(name.len(), 64 + 4);
}

#[test]
fn extension_for_mime_by_type() {
    assert_eq!(extension_for_mime("image/png"), "png");
    assert_eq!(extension_for_mime("image/jpeg"), "jpg");
    assert_eq!(extension_for_mime("image/gif"), "bin");
    assert_eq!(extension_for_mime(""), "bin");
}

#[test]
fn hex_encode_two_lower_digits_per_byte() {
    assert_eq!(hex_encode(&[0x00, 0x0f, 0xa0, 0xff]), "000fa0ff");
    assert_eq!(hex_encode(&[]), "");
}

#[test]
fn restore_gives_back_the_snapshot_or_an_empty_history() {
    let snapshot = StackSnapshot {
        items: vec![Item::new_text("a".into()), Item::new_text("b".into())],
        pins: vec![Item::new_text("p".into())],
    };
    let ids: Vec<ItemId> = snapshot.items.iter().map(|i| i.id).collect();
    let stack = restore(Some(snapshot));
    assert_eq!(stack.items().map(|i| i.id).collect::<Vec<_>>(), ids);
    assert_eq!(stack.pins().count(), 1);
    let empty = restore(None);
    assert_eq!(empty.items().count(), 0);
    assert_eq!(empty.pins().count(), 0);
}

#[test]
fn decimal_string_writes_numbers() {
    assert_eq!(decimal_string(0), "0");
    assert_eq!(decimal_string(7), "7");
    assert_eq!(decimal_string(1024), "1024");
    assert_eq!(decimal_string(u64::MAX), u64::MAX.to_string());
}

#[test]
fn render_content_of_text_cuts_at_60_characters() {
    let short = view(ItemKindView::Text { preview: "abc".into() }, false);
    assert_eq!(render_content(&short, false), "abc");
    let exact: String = "x".repeat(60);
    let v = view(ItemKindView::Text { preview: exact.clone() }, false);
    assert_eq!(render_content(&v, false), exact);
    let long: String = "y".repeat(61);
    let v = view(ItemKindView::Text { preview: long.clone() }, false);
    assert_eq!(render_content(&v, false), format!("{}…", "y".repeat(60)));
    assert_eq!(render_content(&v, true), long);
}

#[test]
fn render_content_of_image_shows_type_and_size() {
    let v = view(
        ItemKindView::Image {
            mime: "image/png".into(),
            size_bytes: 5000,
        },
        false,
    );
    assert_eq!(render_content(&v, false), "[Imagem PNG, 4KB]");
    let odd = view(
        ItemKindView::Image {
            mime: "weird".into(),
            size_bytes: 10,
        },
        false,
    );
    assert_eq!(render_content(&odd, true), "[Imagem WEIRD, 0KB]");
}

#[test]
fn terminal_line_marks_pins() {
    let v = view(ItemKindView::Text { preview: "hi".into() }, true);
    assert_eq!(item_line(&v), "[pin] hi");
    let v = view(ItemKindView::Text { preview: "hi".into() }, false);
    assert_eq!(item_line(&v), "hi");
}

#[test]
fn parse_i32_follows_std() {
    for s in ["0", "42", "-7", "+9", "2147483647", "-2147483648", "2147483648", "-2147483649",
              "", "-", "+", "12a", " 1", "99999999999999999999", "-0", "007"] {
        assert_eq!(parse_i32(s), s.parse::<i32>().ok(), "{s:?}");
    }
}

#[test]
fn lock_file_pid_is_trimmed() {
    assert_eq!(pid_in_lock_file("1234\n"), Some(1234));
    assert_eq!(pid_in_lock_file("  99  "), Some(99));
    assert_eq!(pid_in_lock_file("nope"), None);
    assert_eq!(pid_in_lock_file(""), None);
}

#[test]
fn paths_are_joined_like_path_join() {
    assert_eq!(join_path("/a", "b"), "/a/b");
    assert_eq!(join_path("/a/", "b"), "/a/b");
    assert_eq!(join_path("", "b"), "b");
    assert_eq!(stack_path("/home/u/.local/share"), "/home/u/.local/share/copied/stack.json");
    assert_eq!(image_cache_dir("/home/u/.cache"), "/home/u/.cache/copied/images");
    assert_eq!(socket_path("/run/user/1000"), "/run/user/1000/copied.sock");
    assert_eq!(xdg_dir(Some("/x".into()), None, ".cache"), "/x");
    assert_eq!(xdg_dir(None, Some("/home/u".into()), ".cache"), "/home/u/.cache");
}

#[test]
fn mime_choice_prefers_text_then_images() {
    let offers = vec!["image/png".to_string(), "UTF8_STRING".to_string(), "text/plain".to_string()];
    assert_eq!(choose_mime(&offers), Some((ContentKind::Text, "text/plain")));
    let offers = vec!["image/jpeg".to_string(), "image/png".to_string()];
    assert_eq!(choose_mime(&offers), Some((ContentKind::Image, "image/png")));
    let offers = vec!["application/x-foo".to_string()];
    assert_eq!(choose_mime(&offers), None);
    let offers = vec!["UTF8_STRING".to_string(), "text/plain;charset=utf-8".to_string()];
    assert_eq!(choose_mime(&offers), Some((ContentKind::Text, "text/plain;charset=utf-8")));
}

#[test]
fn text_changes_are_decoded_lossily() {
    match change_from(ContentKind::Text, vec![b'o', b'k', 0xff], "text/plain".into()) {
        ClipboardChange::Text(t) => assert_eq!(t, "ok\u{FFFD}"),
        ClipboardChange::Image { .. } => panic!("esperava texto"),
    }
    match change_from(ContentKind::Image, vec![1, 2], "image/png".into()) {
        ClipboardChange::Image { bytes, mime } => {
            assert_eq!(bytes, vec![1, 2]);
            assert_eq!(mime, "image/png");
        }
        ClipboardChange::Text(_) => panic!("esperava imagem"),
    }
}

#[test]
fn reconnect_backoff_is_capped() {
    let delays: Vec<u64> = (0..6).map(reconnect_delay_secs).collect();
    assert_eq!(delays, vec![1, 2, 5, 30, 30, 30]);
}

#[test]
fn watcher_gives_up_when_it_never_connected() {
    let start = ReconnectState { ever_connected: false, attempt: 0 };
    assert_eq!(watch_step(start, WatchEvent::Disconnected), (start, WatchAction::GiveUp));
}

#[test]
fn watcher_retries_with_backoff_after_a_connection() {
    let start = ReconnectState { ever_connected: false, attempt: 0 };
    let (mut state, action) = watch_step(start, WatchEvent::Connected);
    assert_eq!(action, WatchAction::Continue);
    assert_eq!(state, ReconnectState { ever_connected: true, attempt: 0 });
    let mut waits = Vec::new();
    for _ in 0..5 {
        let (next, action) = watch_step(state, WatchEvent::Disconnected);
        match action {
            WatchAction::RetryAfter(secs) => waits.push(secs),
            other => panic!("esperava nova tentativa, veio {other:?}"),
        }
        state = next;
    }
    assert_eq!(waits, vec![1, 2, 5, 30, 30]);
    assert_eq!(state.attempt, 5);
    let (state, _) = watch_step(state, WatchEvent::Connected);
    assert_eq!(state.attempt, 0);
    let (_, action) = watch_step(state, WatchEvent::Disconnected);
    assert_eq!(action, WatchAction::RetryAfter(1));
}
