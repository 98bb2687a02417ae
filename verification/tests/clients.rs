use std::time::SystemTime;

use base64::engine::general_purpose::STANDARD;
use base64::Engine;
use copied::cli::{App, Key, Request};
use copied::gui::{key_event, AppState, Effect, Focus, KeyPress, Message, PendingAction, Tab};
use copied::protocol::{Category, Command, ItemId, ItemKindView, ItemView, Response};

fn text(id: u128, s: &str, pinned: bool) -> ItemView {
    ItemView {
        id: ItemId(id),
        kind: ItemKindView::Text { preview: s.into() },
        pinned,
        copied_at: SystemTime::UNIX_EPOCH,
        category: Category::Outro,
    }
}

fn image(id: u128) -> ItemView {
    ItemView {
        id: ItemId(id),
        kind: ItemKindView::Image {
            mime: "image/png".into(),
            size_bytes: 2048,
        },
        pinned: false,
        copied_at: SystemTime::UNIX_EPOCH,
        category: Category::Imagem,
    }
}

#[test]
fn cli_list_keeps_selection_in_range() {
    let mut app = App::new();
    app.apply_list(Response::Items(vec![text(1, "a", false), text(2, "b", false)]));
    assert_eq!(app.selected(), Some(0));
    app.move_selection(1);
    assert_eq!(app.selected(), Some(1));
    app.apply_list(Response::Items(vec![text(1, "a", false)]));
    assert_eq!(app.selected(), Some(0));
    app.apply_list(Response::Items(vec![]));
    assert_eq!(app.selected(), None);
    app.apply_list(Response::Error { message: "x".into() });
    assert_eq!(app.status().map(|s| s.as_str()), Some("x"));
}

#[test]
fn cli_selection_wraps_around() {
    let mut app = App::new();
    app.apply_list(Response::Items(vec![text(1, "a", false), text(2, "b", false), text(3, "c", false)]));
    app.move_selection(-1);
    assert_eq!(app.selected(), Some(2));
    app.move_selection(1);
    assert_eq!(app.selected(), Some(0));
    app.move_selection(isize::MIN);
    assert_eq!(app.selected(), Some(((isize::MIN as i128).rem_euclid(3)) as usize));
}

#[test]
fn cli_keys_ask_for_requests() {
    let mut app = App::new();
    assert_eq!(app.handle_key(Key::Enter), None);
    app.apply_list(Response::Items(vec![text(1, "a", true), text(2, "b", false)]));
    assert_eq!(
        app.handle_key(Key::Enter),
        Some((Command::CopyToClipboard { id: ItemId(1) }, Request::Copy))
    );
    assert_eq!(app.handle_key(Key::F2), Some((Command::Unpin { id: ItemId(1) }, Request::Change)));
    app.handle_key(Key::Down);
    assert_eq!(app.handle_key(Key::F2), Some((Command::Pin { id: ItemId(2) }, Request::Change)));
    assert_eq!(app.handle_key(Key::Delete), Some((Command::Delete { id: ItemId(2) }, Request::Change)));
    assert!(app.apply_response(Request::Change, Response::Ack));
    assert!(!app.should_exit());
    assert!(!app.apply_response(Request::Copy, Response::Ack));
    assert!(app.should_exit());
    let mut app = App::new();
    app.handle_key(Key::Esc);
    assert!(app.should_exit());
}

fn connected() -> AppState {
    let mut state = AppState::new();
    let effects = state.update(Message::IpcConnected);
    assert!(matches!(effects.as_slice(), [Effect::Send(Command::List)]));
    state
}

#[test]
fn gui_list_selects_first_and_fetches_images_once() {
    let mut state = connected();
    let effects = state.update(Message::IpcResponse(Response::Items(vec![text(1, "a", false), image(2)])));
    assert_eq!(state.selected, Some(ItemId(1)));
    assert!(matches!(effects.as_slice(), [Effect::Send(Command::GetImageBytes { id: ItemId(2) })]));
    let effects = state.update(Message::IpcResponse(Response::Items(vec![text(1, "a", false), image(2)])));
    assert!(effects.is_empty());
}

#[test]
fn gui_image_bytes_are_shown_for_the_item_asked() {
    let mut state = connected();
    state.update(Message::IpcResponse(Response::Items(vec![image(2)])));
    // The list request was answered; the image request is next.
    assert_eq!(state.pending.front(), Some(&PendingAction::FetchImage(ItemId(2))));
    let effects = state.update(Message::IpcResponse(Response::ImageBytes {
        mime: "image/png".into(),
        data_base64: STANDARD.encode(b"img"),
    }));
    match effects.as_slice() {
        [Effect::ShowImage { id, bytes }] => {
            assert_eq!(*id, ItemId(2));
            assert_eq!(bytes, b"img");
        }
        other => panic!("{other:?}"),
    }
}

#[test]
fn gui_search_filters_case_insensitively() {
    let mut state = connected();
    state.update(Message::IpcResponse(Response::Items(vec![
        text(1, "Hello World", false),
        text(2, "other", false),
        image(3),
    ])));
    state.update(Message::SearchChanged("WORLD".into()));
    assert_eq!(state.filtered_items(), vec![0]);
    assert_eq!(state.selected, Some(ItemId(1)));
    state.update(Message::SearchChanged("png".into()));
    assert_eq!(state.filtered_items(), vec![2]);
    assert_eq!(state.selected, Some(ItemId(3)));
    state.update(Message::SearchChanged("zzz".into()));
    assert_eq!(state.selected, None);
    state.update(Message::SearchChanged("  ".into()));
    assert_eq!(state.filtered_items(), vec![0, 1, 2]);
}

#[test]
fn gui_move_selection_wraps_and_scrolls() {
    let mut state = connected();
    state.update(Message::IpcResponse(Response::Items(vec![
        text(1, "a", false),
        text(2, "b", false),
        text(3, "c", false),
    ])));
    let effects = state.update(Message::MoveSelection(-1));
    assert_eq!(state.selected, Some(ItemId(3)));
    assert!(matches!(effects.as_slice(), [Effect::ScrollTo { index: 2, count: 3 }]));
}

#[test]
fn gui_copy_then_ack_exits() {
    let mut state = connected();
    state.update(Message::IpcResponse(Response::Items(vec![text(1, "a", false)])));
    let effects = state.update(Message::EnterPressed);
    assert!(matches!(effects.as_slice(), [Effect::Send(Command::CopyToClipboard { id: ItemId(1) })]));
    let effects = state.update(Message::IpcResponse(Response::Ack));
    assert!(matches!(effects.as_slice(), [Effect::Exit]));
}

#[test]
fn gui_toggle_pin_and_errors() {
    let mut state = connected();
    state.update(Message::IpcResponse(Response::Items(vec![text(1, "a", true)])));
    let effects = state.update(Message::TogglePinSelected);
    assert!(matches!(effects.as_slice(), [Effect::Send(Command::Unpin { id: ItemId(1) })]));
    let effects = state.update(Message::IpcResponse(Response::Error { message: "nope".into() }));
    assert!(effects.is_empty());
    assert_eq!(state.status.as_deref(), Some("nope"));
    let effects = state.update(Message::TogglePinClicked(ItemId(1)));
    assert_eq!(effects.len(), 1);
    let effects = state.update(Message::IpcResponse(Response::Ack));
    assert!(matches!(effects.as_slice(), [Effect::Send(Command::List)]));
    assert_eq!(state.status, None);
}

#[test]
fn gui_focus_and_tabs() {
    let mut state = AppState::new();
    assert_eq!(state.focus, Focus::Search);
    assert!(matches!(state.update(Message::FocusNext).as_slice(), [Effect::ClearFocus]));
    assert_eq!(state.focus, Focus::List);
    state.update(Message::FocusNext);
    assert_eq!(state.focus, Focus::TabStack);
    state.update(Message::FocusNext);
    state.update(Message::EnterPressed);
    assert_eq!(state.active_tab, Tab::Symbols);
    assert!(matches!(state.update(Message::FocusNext).as_slice(), [Effect::FocusSearch]));
    state.update(Message::TabSelected(Tab::Stack));
    assert_eq!(state.focus, Focus::TabStack);
    assert_eq!(Focus::List.next(), Focus::TabStack);
}

#[test]
fn gui_requests_wait_for_the_connection() {
    let mut state = AppState::new();
    let effects = state.update(Message::ItemClicked(ItemId(5)));
    assert!(effects.is_empty());
    assert_eq!(state.selected, Some(ItemId(5)));
    assert!(state.pending.is_empty());
    assert!(matches!(state.update(Message::CloseRequested).as_slice(), [Effect::Exit]));
    match state.update(Message::SymbolClicked("π".into())).as_slice() {
        [Effect::CopySymbol(s)] => assert_eq!(s, "π"),
        other => panic!("{other:?}"),
    }
}

#[test]
fn gui_keys_give_messages() {
    assert!(matches!(key_event(Focus::Search, KeyPress::ArrowUp), Some(Message::MoveSelection(-1))));
    assert!(matches!(key_event(Focus::Search, KeyPress::ArrowDown), Some(Message::MoveSelection(1))));
    assert!(matches!(key_event(Focus::Search, KeyPress::ArrowLeft), Some(Message::MoveSymbolSelection(-1))));
    assert!(matches!(key_event(Focus::List, KeyPress::ArrowRight), Some(Message::MoveSymbolSelection(1))));
    assert!(matches!(key_event(Focus::List, KeyPress::Character("P".into())), Some(Message::TogglePinSelected)));
    assert!(matches!(key_event(Focus::List, KeyPress::Character("d".into())), Some(Message::DeleteSelected)));
    assert!(key_event(Focus::Search, KeyPress::Character("p".into())).is_none());
    assert!(matches!(key_event(Focus::Search, KeyPress::Escape), Some(Message::CloseRequested)));
    assert!(key_event(Focus::List, KeyPress::Other).is_none());
}

#[test]
fn gui_arrows_move_among_symbols_on_the_symbols_tab() {
    let mut state = connected();
    state.update(Message::IpcResponse(Response::Items(vec![text(1, "a", false)])));
    // On the stack tab left and right change nothing.
    assert!(state.update(Message::MoveSymbolSelection(1)).is_empty());
    assert_eq!(state.symbol_selected, None);
    state.update(Message::TabSelected(Tab::Symbols));
    state.update(Message::FocusNext);
    assert_eq!(state.focus, Focus::Search);
    state.update(Message::SearchChanged("setas".into()));
    state.update(Message::MoveSymbolSelection(1));
    assert_eq!(state.symbol_selected, Some(0));
    state.update(Message::MoveSymbolSelection(1));
    assert_eq!(state.symbol_selected, Some(1));
    match state.update(Message::EnterPressed).as_slice() {
        [Effect::CopySymbol(s)] => assert_eq!(s, "←"),
        other => panic!("{other:?}"),
    }
    state.update(Message::MoveSymbolSelection(-1));
    state.update(Message::MoveSymbolSelection(-1));
    assert_eq!(state.symbol_selected, Some(7));
    // A new search drops the selection; left then starts at the last symbol.
    state.update(Message::SearchChanged("π".into()));
    assert_eq!(state.symbol_selected, None);
    // "π" shows in two groups, and "Π" in lower case is "π".
    state.update(Message::MoveSymbolSelection(-1));
    assert_eq!(state.symbol_selected, Some(2));
    state.update(Message::SearchChanged("zzz".into()));
    state.update(Message::MoveSymbolSelection(1));
    assert_eq!(state.symbol_selected, None);
}
