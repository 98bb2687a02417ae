//! The decisions of the popup window: its state, and how each event changes
//! it and what it asks the program to do. The program draws the window, runs
//! the connection to the daemon and performs the effects.
use std::collections::VecDeque;

use base64::engine::general_purpose::STANDARD;
use base64::Engine;
use vstd::prelude::*;
use vstd::utf8::encode_utf8;

use crate::cli::{wrap_index, wrap_spec};
use crate::daemon::base64_standard;
use crate::protocol::{Command, ItemId, ItemKindView, ItemView, Response};
use crate::symbols::{catalog, is_symbol_catalog, visible_symbols, visible_symbols_spec, SymbolGroup};
use crate::text::{
    chars_of, contains_chars, contains_seq, lowercase, occurs_at, owned, to_lowercase, trim, trim_chars,
};
use crate::views::{render_content, render_spec};

verus! {

broadcast use vstd::std_specs::vecdeque::group_vec_dequeue_axioms;

/// The tabs of the window.
#[derive(Debug, Clone, Copy, PartialEq, Eq, Structural)]
pub enum Tab {
    Stack,
    Symbols,
}

/// What has the keyboard focus.
#[derive(Debug, Clone, Copy, PartialEq, Eq, Structural, Hash)]
pub enum Focus {
    TabStack,
    TabSymbols,
    Search,
    List,
}

impl Focus {
    /// The focus after `Tab`: the stack tab, the symbols tab, the search box,
    /// the list, and around again.
    pub open spec fn next_spec(self) -> Focus {
        match self {
            Focus::TabStack => Focus::TabSymbols,
            Focus::TabSymbols => Focus::Search,
            Focus::Search => Focus::List,
            Focus::List => Focus::TabStack,
        }
    }

    /// The focus after `Tab`.
    pub fn next(self) -> (r: Self)
        ensures
            r == self.next_spec(),
    {
        match self {
            Focus::TabStack => Focus::TabSymbols,
            Focus::TabSymbols => Focus::Search,
            Focus::Search => Focus::List,
            Focus::List => Focus::TabStack,
        }
    }
}

/// What a request sent to the daemon was for; answers come back in order.
#[derive(Debug, Clone, Copy, PartialEq, Eq, Structural)]
pub enum PendingAction {
    List,
    Copy,
    Delete,
    TogglePin,
    FetchImage(ItemId),
}

/// The events of the window.
#[derive(Debug)]
pub enum Message {
    IpcConnected,
    IpcResponse(Response),
    ItemHovered(ItemId),
    ItemUnhovered,
    ItemClicked(ItemId),
    TogglePinClicked(ItemId),
    DeleteClicked(ItemId),
    MoveSelection(isize),
    MoveSymbolSelection(isize),
    SearchChanged(String),
    EnterPressed,
    FocusNext,
    DeleteSelected,
    TogglePinSelected,
    TabSelected(Tab),
    SymbolClicked(String),
    CloseRequested,
}

/// What the program is asked to do after an event.
#[derive(Debug)]
pub enum Effect {
    /// Send a command to the daemon.
    Send(Command),
    /// Close the window.
    Exit,
    /// Give the focus to the search box.
    FocusSearch,
    /// Take the focus away from every widget.
    ClearFocus,
    /// Scroll the list so that the visible item `index` of `count` shows.
    ScrollTo { index: usize, count: usize },
    /// Copy the symbol to the clipboard, then close the window.
    CopySymbol(String),
    /// Show these image bytes for the item.
    ShowImage { id: ItemId, bytes: Vec<u8> },
}

/// The state of the window.
pub struct AppState {
    pub items: Vec<ItemView>,
    pub search: String,
    pub active_tab: Tab,
    pub selected: Option<ItemId>,
    pub hovered: Option<ItemId>,
    pub status: Option<String>,
    pub connected: bool,
    pub pending: VecDeque<PendingAction>,
    pub image_requested: Vec<ItemId>,
    pub focus: Focus,
    /// The groups of the symbols tab.
    pub symbol_groups: Vec<SymbolGroup>,
    /// The position of the selected symbol among those shown.
    pub symbol_selected: Option<usize>,
}

/// The decoding of `text` by the standard Base64 engine, when it is valid.
pub uninterp spec fn base64_standard_decode(text: Seq<u8>) -> Option<Seq<u8>>;

/// Decodes with `base64::engine::general_purpose::STANDARD`; the result (or
/// its absence, for invalid input) is named `base64_standard_decode`. As the
/// crate documents, the encoding of some bytes decodes back to those bytes;
/// what it makes of other input is left to the name.
#[verifier::external_body]
fn base64_decode(text: &str) -> (r: Option<Vec<u8>>)
    ensures
        match r {
            Some(bytes) => {
                &&& base64_standard_decode(encode_utf8(text@)) == Some(bytes@)
                &&& forall|b: Seq<u8>| #[trigger] base64_standard(b) == text@ ==> bytes@ == b
            },
            None => {
                &&& base64_standard_decode(encode_utf8(text@)) is None
                &&& forall|b: Seq<u8>| #[trigger] base64_standard(b) != text@
            },
        },
{
    STANDARD.decode(text).ok()
}

// ---------------------------------------------------------------------------
// Which items the search lets through

/// An item shows under the search: every item when the search is blank,
/// else the items whose line, in lower case, contains the search in lower
/// case.
pub open spec fn matches_search(v: ItemView, search: Seq<char>) -> bool {
    trim(search).len() == 0 || contains_seq(lowercase(render_spec(v, false)), lowercase(search))
}

/// The positions of the items, among the first `n`, that show under the
/// search, in order.
pub open spec fn visible_upto(items: Seq<ItemView>, search: Seq<char>, n: int) -> Seq<usize>
    decreases n,
{
    if n <= 0 {
        Seq::empty()
    } else {
        let before = visible_upto(items, search, n - 1);
        if matches_search(items[n - 1], search) {
            before.push((n - 1) as usize)
        } else {
            before
        }
    }
}

proof fn lemma_visible_bounded(items: Seq<ItemView>, search: Seq<char>, n: int)
    requires
        n <= items.len(),
        items.len() <= usize::MAX,
    ensures
        forall|j: int|
            0 <= j < visible_upto(items, search, n).len() ==> visible_upto(items, search, n)[j]
                < n,
    decreases n,
{
    if n > 0 {
        lemma_visible_bounded(items, search, n - 1);
        let before = visible_upto(items, search, n - 1);
        if matches_search(items[n - 1], search) {
            assert(before.push((n - 1) as usize)[before.len() as int] == n - 1);
        }
    }
}

/// The positions of the items that show under the search, in order.
pub open spec fn visible(items: Seq<ItemView>, search: Seq<char>) -> Seq<usize> {
    visible_upto(items, search, items.len() as int)
}

/// The ids of the items that show under the search, in order.
pub open spec fn visible_ids(items: Seq<ItemView>, search: Seq<char>) -> Seq<ItemId> {
    visible(items, search).map_values(|i: usize| items[i as int].id)
}

/// The first position of `id` in `ids`, if it occurs.
pub open spec fn index_of_id(ids: Seq<ItemId>, id: ItemId) -> Option<int> {
    if exists|k: int| 0 <= k < ids.len() && ids[k] == id && forall|j: int| 0 <= j < k ==> ids[j] != id {
        Some(choose|k: int| 0 <= k < ids.len() && ids[k] == id && forall|j: int| 0 <= j < k ==> ids[j] != id)
    } else {
        None
    }
}

proof fn lemma_index_of_id_found(ids: Seq<ItemId>, id: ItemId, k: int)
    requires
        0 <= k < ids.len(),
        ids[k] == id,
        forall|j: int| 0 <= j < k ==> ids[j] != id,
    ensures
        index_of_id(ids, id) == Some(k),
{
    let c = choose|c: int| 0 <= c < ids.len() && ids[c] == id && forall|j: int| 0 <= j < c ==> ids[j] != id;
    if c < k {
        assert(ids[c] != id);
    } else if k < c {
        assert(ids[k] != id);
    }
}

proof fn lemma_index_of_id_absent(ids: Seq<ItemId>, id: ItemId)
    requires
        forall|j: int| 0 <= j < ids.len() ==> ids[j] != id,
    ensures
        index_of_id(ids, id) is None,
{
}

/// The selection kept after the list or the search changed: none when
/// nothing shows, the same when it still shows, else the first item shown.
pub open spec fn clamp_spec(items: Seq<ItemView>, search: Seq<char>, selected: Option<ItemId>) -> Option<ItemId> {
    let ids = visible_ids(items, search);
    if ids.len() == 0 {
        None
    } else {
        match selected {
            Some(id) => if ids.contains(id) {
                selected
            } else {
                Some(ids[0])
            },
            None => Some(ids[0]),
        }
    }
}

/// The selection after moving it by `delta` among the items shown, wrapping
/// around; from the first item when the selection does not show.
pub open spec fn move_spec(items: Seq<ItemView>, search: Seq<char>, selected: Option<ItemId>, delta: int) -> Option<ItemId> {
    let ids = visible_ids(items, search);
    if ids.len() == 0 {
        selected
    } else {
        let current = match selected {
            Some(id) => match index_of_id(ids, id) {
                Some(k) => k,
                None => 0,
            },
            None => 0,
        };
        Some(ids[wrap_spec(current, delta, ids.len() as int)])
    }
}

/// The ids of the images not asked for yet, in the order of the list.
pub open spec fn missing_images(items: Seq<ItemView>, requested: Seq<ItemId>) -> Seq<ItemId>
    decreases items.len(),
{
    if items.len() == 0 {
        Seq::empty()
    } else {
        let before = missing_images(items.drop_last(), requested);
        let last = items.last();
        if last.kind is Image && !requested.contains(last.id) {
            before.push(last.id)
        } else {
            before
        }
    }
}

/// The state and effects after sending `cmd` for `action`: nothing happens
/// while not connected.
pub open spec fn send_spec(
    s: AppState,
    effects: Seq<Effect>,
    cmd: Command,
    action: PendingAction,
    s2: AppState,
    effects2: Seq<Effect>,
) -> bool {
    if s.connected {
        &&& s2 == AppState { pending: s2.pending, ..s }
        &&& s2.pending@ == s.pending@.push(action)
        &&& effects2 == effects.push(Effect::Send(cmd))
    } else {
        s2 == s && effects2 == effects
    }
}

impl AppState {
    /// A window with nothing listed, on the stack tab, with the focus in the
    /// search box.
    pub fn new() -> (r: Self)
        ensures
            r.items@.len() == 0,
            r.search@.len() == 0,
            r.active_tab == Tab::Stack,
            r.selected is None,
            r.hovered is None,
            r.status is None,
            !r.connected,
            r.pending@.len() == 0,
            r.image_requested@.len() == 0,
            r.focus == Focus::Search,
            is_symbol_catalog(r.symbol_groups@),
            r.symbol_selected is None,
    {
        AppState {
            items: Vec::new(),
            search: String::new(),
            active_tab: Tab::Stack,
            selected: None,
            hovered: None,
            status: None,
            connected: false,
            pending: VecDeque::new(),
            image_requested: Vec::new(),
            focus: Focus::Search,
            symbol_groups: catalog(),
            symbol_selected: None,
        }
    }

    fn send(&mut self, cmd: Command, action: PendingAction, effects: &mut Vec<Effect>)
        ensures
            send_spec(*old(self), old(effects)@, cmd, action, *final(self), final(effects)@),
    {
        if self.connected {
            self.pending.push_back(action);
            effects.push(Effect::Send(cmd));
        }
    }

    /// The positions of the items shown under the current search, in order.
    pub fn filtered_items(&self) -> (r: Vec<usize>)
        ensures
            r@ == visible(self.items@, self.search@),
    {
        let search = chars_of(self.search.as_str());
        let blank = trim_chars(&search).len() == 0;
        let needle = to_lowercase(self.search.as_str());
        let needle_chars = chars_of(needle.as_str());
        let mut r: Vec<usize> = Vec::new();
        let mut i: usize = 0;
        while i < self.items.len()
            invariant
                i <= self.items@.len(),
                blank == (trim(self.search@).len() == 0),
                needle_chars@ == lowercase(self.search@),
                r@ == visible_upto(self.items@, self.search@, i as int),
            decreases self.items@.len() - i,
        {
            let shown = if blank {
                true
            } else {
                let line = to_lowercase(render_content(&self.items[i], false).as_str());
                contains_chars(&chars_of(line.as_str()), &needle_chars)
            };
            if shown {
                r.push(i);
            }
            i = i + 1;
        }
        r
    }

    fn visible_ids_exec(&self) -> (r: Vec<ItemId>)
        ensures
            r@ == visible_ids(self.items@, self.search@),
    {
        let positions = self.filtered_items();
        let n = self.items.len();
        proof {
            lemma_visible_bounded(self.items@, self.search@, self.items@.len() as int);
        }
        let mut r: Vec<ItemId> = Vec::new();
        let mut k: usize = 0;
        while k < positions.len()
            invariant
                positions@ == visible(self.items@, self.search@),
                forall|j: int| 0 <= j < positions@.len() ==> positions@[j] < self.items@.len(),
                k <= positions@.len(),
                r@ == positions@.take(k as int).map_values(|i: usize| self.items@[i as int].id),
            decreases positions@.len() - k,
        {
            r.push(self.items[positions[k]].id);
            assert(positions@.take(k + 1) == positions@.take(k as int).push(positions@[k as int]));
            k = k + 1;
        }
        assert(positions@.take(positions@.len() as int) == positions@);
        r
    }

    /// Keeps the selection on an item that shows (see `clamp_spec`).
    pub fn clamp_selection(&mut self)
        ensures
            *final(self) == (AppState {
                selected: clamp_spec(old(self).items@, old(self).search@, old(self).selected),
                ..*old(self)
            }),
    {
        let ids = self.visible_ids_exec();
        if ids.len() == 0 {
            self.selected = None;
            return;
        }
        let keep = match self.selected {
            Some(id) => contains_id(&ids, id),
            None => false,
        };
        if !keep {
            self.selected = Some(ids[0]);
        }
    }

    /// Moves the selection among the items shown (see `move_spec`).
    pub fn move_selection(&mut self, delta: isize)
        ensures
            *final(self) == (AppState {
                selected: move_spec(old(self).items@, old(self).search@, old(self).selected, delta as int),
                ..*old(self)
            }),
    {
        let ids = self.visible_ids_exec();
        if ids.len() == 0 {
            return;
        }
        let current = match self.selected {
            Some(id) => match position_of_id(&ids, id) {
                Some(k) => k,
                None => 0,
            },
            None => 0,
        };
        let next = wrap_index(current, delta, ids.len());
        self.selected = Some(ids[next]);
    }
}

/// The first position of an item with id `id`.
fn position_of_item(items: &Vec<ItemView>, id: ItemId) -> (r: Option<usize>)
    ensures
        match r {
            Some(k) => k < items@.len() && index_of_id(item_ids(items@), id) == Some(k as int),
            None => index_of_id(item_ids(items@), id) is None,
        },
{
    let ghost ids = item_ids(items@);
    assert(ids.len() == items@.len());
    let mut i: usize = 0;
    while i < items.len()
        invariant
            ids == item_ids(items@),
            ids.len() == items@.len(),
            i <= items@.len(),
            forall|j: int| 0 <= j < i ==> ids[j] != id,
        decreases items@.len() - i,
    {
        assert(ids[i as int] == items@[i as int].id);
        if items[i].id == id {
            proof {
                lemma_index_of_id_found(ids, id, i as int);
            }
            return Some(i);
        }
        i = i + 1;
    }
    proof {
        lemma_index_of_id_absent(ids, id);
    }
    None
}

impl Default for AppState {
    fn default() -> (r: Self)
        ensures
            r.items@.len() == 0,
            r.search@.len() == 0,
            r.active_tab == Tab::Stack,
            r.selected is None,
            r.hovered is None,
            r.status is None,
            !r.connected,
            r.pending@.len() == 0,
            r.image_requested@.len() == 0,
            r.focus == Focus::Search,
            is_symbol_catalog(r.symbol_groups@),
            r.symbol_selected is None,
    {
        AppState::new()
    }
}

/// Whether `id` occurs in `ids`.
fn contains_id(ids: &Vec<ItemId>, id: ItemId) -> (r: bool)
    ensures
        r == ids@.contains(id),
{
    let mut i: usize = 0;
    while i < ids.len()
        invariant
            i <= ids@.len(),
            forall|j: int| 0 <= j < i ==> ids@[j] != id,
        decreases ids@.len() - i,
    {
        if ids[i] == id {
            assert(ids@[i as int] == id);
            return true;
        }
        i = i + 1;
    }
    false
}

/// The first position of `id` in `ids`.
fn position_of_id(ids: &Vec<ItemId>, id: ItemId) -> (r: Option<usize>)
    ensures
        match r {
            Some(k) => index_of_id(ids@, id) == Some(k as int),
            None => index_of_id(ids@, id) is None,
        },
{
    let mut i: usize = 0;
    while i < ids.len()
        invariant
            i <= ids@.len(),
            forall|j: int| 0 <= j < i ==> ids@[j] != id,
        decreases ids@.len() - i,
    {
        if ids[i] == id {
            proof {
                lemma_index_of_id_found(ids@, id, i as int);
            }
            return Some(i);
        }
        i = i + 1;
    }
    proof {
        lemma_index_of_id_absent(ids@, id);
    }
    None
}

/// The ids of the items, in order.
pub open spec fn item_ids(items: Seq<ItemView>) -> Seq<ItemId> {
    items.map_values(|v: ItemView| v.id)
}

/// The command that (un)pins `item`: `Unpin` for a pin, `Pin` otherwise.
pub open spec fn toggle_command(item: ItemView) -> Command {
    if item.pinned {
        Command::Unpin { id: item.id }
    } else {
        Command::Pin { id: item.id }
    }
}

/// (Un)pinning the first listed item with id `id`; nothing when none is
/// listed.
pub open spec fn toggle_pin_spec(
    s: AppState,
    effects: Seq<Effect>,
    id: ItemId,
    s2: AppState,
    effects2: Seq<Effect>,
) -> bool {
    match index_of_id(item_ids(s.items@), id) {
        None => s2 == s && effects2 == effects,
        Some(k) => send_spec(s, effects, toggle_command(s.items@[k]), PendingAction::TogglePin, s2, effects2),
    }
}

/// Asking once for the bytes of each listed image not asked for yet.
pub open spec fn fetch_images_spec(
    s: AppState,
    effects: Seq<Effect>,
    s2: AppState,
    effects2: Seq<Effect>,
) -> bool {
    let missing = missing_images(s.items@, s.image_requested@);
    &&& s2 == AppState { image_requested: s2.image_requested, pending: s2.pending, ..s }
    &&& s2.image_requested@ == s.image_requested@ + missing
    &&& if s.connected {
        &&& s2.pending@ == s.pending@ + missing.map_values(|id: ItemId| PendingAction::FetchImage(id))
        &&& effects2 == effects + missing.map_values(|id: ItemId| Effect::Send(Command::GetImageBytes { id }))
    } else {
        s2.pending@ == s.pending@ && effects2 == effects
    }
}

/// Where to scroll so that the selection shows: its position among the `n`
/// items shown, when there is more than one.
pub open spec fn scroll_spec(items: Seq<ItemView>, search: Seq<char>, selected: Option<ItemId>) -> Option<(usize, usize)> {
    let ids = visible_ids(items, search);
    match selected {
        Some(id) => match index_of_id(ids, id) {
            Some(k) => if ids.len() <= 1 {
                None
            } else {
                Some((k as usize, ids.len() as usize))
            },
            None => None,
        },
        None => None,
    }
}

/// `e` shows the image bytes `b` for the item `id`.
pub open spec fn shows_image(e: Effect, id: ItemId, b: Seq<u8>) -> bool {
    e matches Effect::ShowImage { id: i, bytes } && i == id && bytes@ == b
}

/// `e` copies the symbol `symbol`.
pub open spec fn copies_symbol(e: Effect, symbol: Seq<char>) -> bool {
    e matches Effect::CopySymbol(c) && c@ == symbol
}

/// The queue of requests once the oldest one was answered.
pub open spec fn popped(q: Seq<PendingAction>) -> Seq<PendingAction> {
    if q.len() > 0 {
        q.drop_first()
    } else {
        q
    }
}

/// The request that an answer answers: the oldest one pending.
pub open spec fn answered(q: Seq<PendingAction>) -> Option<PendingAction> {
    if q.len() > 0 {
        Some(q[0])
    } else {
        None
    }
}

/// The state `s1` is `s` once the oldest request was taken off the queue.
pub open spec fn pop_spec(s: AppState, s1: AppState) -> bool {
    s1 == AppState { pending: s1.pending, ..s } && s1.pending@ == popped(s.pending@)
}

/// How an answer of the daemon changes the window: a list replaces the items
/// (keeping the selection on a shown item and asking for missing images); an
/// acknowledgement closes the window after a copy, and clears the status and
/// reloads the list after a delete or (un)pin; an error shows in the status
/// line unless it answers an image request; image bytes are shown for the
/// item they were asked for.
pub open spec fn on_response_spec(s: AppState, response: Response, s2: AppState, effects: Seq<Effect>) -> bool {
    let action = answered(s.pending@);
    exists|s1: AppState|
        #![trigger pop_spec(s, s1)]
        pop_spec(s, s1) && match response {
            Response::Items(items) => {
                let s1b = AppState {
                    items,
                    selected: clamp_spec(items@, s1.search@, s1.selected),
                    ..s1
                };
                fetch_images_spec(s1b, Seq::empty(), s2, effects)
            },
            Response::Ack => match action {
                Some(PendingAction::Copy) => s2 == s1 && effects == seq![Effect::Exit],
                Some(PendingAction::Delete) | Some(PendingAction::TogglePin) => send_spec(
                    AppState { status: None, ..s1 },
                    Seq::empty(),
                    Command::List,
                    PendingAction::List,
                    s2,
                    effects,
                ),
                _ => s2 == s1 && effects.len() == 0,
            },
            Response::Error { message } => effects.len() == 0 && match action {
                Some(PendingAction::FetchImage(_)) => s2 == s1,
                _ => s2 == AppState { status: Some(message), ..s1 },
            },
            Response::ImageBytes { mime: _, data_base64 } => s2 == s1 && match action {
                Some(PendingAction::FetchImage(id)) => match base64_standard_decode(
                    encode_utf8(data_base64@),
                ) {
                    Some(b) => effects.len() == 1 && shows_image(effects[0], id, b),
                    None => effects.len() == 0,
                },
                _ => effects.len() == 0,
            },
        }
}

/// The symbol selection after moving it by `delta` among `n` shown symbols,
/// wrapping around; with no selection (or one past the end) it starts at the
/// first symbol going right and at the last going left.
pub open spec fn symbol_move_spec(selected: Option<usize>, delta: int, n: int) -> Option<usize> {
    let start = if delta < 0 {
        Some((n - 1) as usize)
    } else {
        Some(0usize)
    };
    if n <= 0 {
        None
    } else {
        match selected {
            Some(i) => if i < n {
                Some(wrap_spec(i as int, delta, n) as usize)
            } else {
                start
            },
            None => start,
        }
    }
}

/// The symbol that `Enter` copies: on the symbols tab, the selected symbol
/// among those shown.
pub open spec fn chosen_symbol(s: AppState) -> Option<&'static str> {
    let shown = visible_symbols_spec(s.symbol_groups@, s.search@);
    if s.active_tab == Tab::Symbols {
        match s.symbol_selected {
            Some(i) => if i < shown.len() {
                Some(shown[i as int])
            } else {
                None
            },
            None => None,
        }
    } else {
        None
    }
}

/// How each event changes the window and what it asks for. `Enter` in the
/// search box or the list copies the selected symbol on the symbols tab, else
/// the selected item of the history; left and right move the symbol selection
/// on the symbols tab only; a new search drops the symbol selection.
pub open spec fn update_spec(s: AppState, message: Message, s2: AppState, effects: Seq<Effect>) -> bool {
    match message {
        Message::IpcConnected => send_spec(
            AppState { connected: true, ..s },
            Seq::empty(),
            Command::List,
            PendingAction::List,
            s2,
            effects,
        ),
        Message::IpcResponse(response) => on_response_spec(s, response, s2, effects),
        Message::ItemHovered(id) => s2 == AppState { hovered: Some(id), ..s } && effects.len() == 0,
        Message::ItemUnhovered => s2 == AppState { hovered: None, ..s } && effects.len() == 0,
        Message::ItemClicked(id) => send_spec(
            AppState { selected: Some(id), focus: Focus::List, ..s },
            Seq::empty(),
            Command::CopyToClipboard { id },
            PendingAction::Copy,
            s2,
            effects,
        ),
        Message::TogglePinClicked(id) => toggle_pin_spec(
            AppState { selected: Some(id), ..s },
            Seq::empty(),
            id,
            s2,
            effects,
        ),
        Message::DeleteClicked(id) => send_spec(
            AppState { selected: Some(id), ..s },
            Seq::empty(),
            Command::Delete { id },
            PendingAction::Delete,
            s2,
            effects,
        ),
        Message::MoveSelection(delta) => {
            let moved = move_spec(s.items@, s.search@, s.selected, delta as int);
            &&& s2 == AppState { selected: moved, ..s }
            &&& effects == match scroll_spec(s.items@, s.search@, moved) {
                Some((index, count)) => seq![Effect::ScrollTo { index, count }],
                None => Seq::empty(),
            }
        },
        Message::MoveSymbolSelection(delta) => effects.len() == 0 && if s.active_tab == Tab::Symbols {
            s2 == AppState {
                symbol_selected: symbol_move_spec(
                    s.symbol_selected,
                    delta as int,
                    visible_symbols_spec(s.symbol_groups@, s.search@).len() as int,
                ),
                ..s
            }
        } else {
            s2 == s
        },
        Message::SearchChanged(value) => s2 == AppState {
            search: value,
            selected: clamp_spec(s.items@, value@, s.selected),
            symbol_selected: None,
            ..s
        } && effects.len() == 0,
        Message::EnterPressed => match s.focus {
            Focus::TabStack => s2 == AppState { active_tab: Tab::Stack, ..s } && effects.len() == 0,
            Focus::TabSymbols => s2 == AppState { active_tab: Tab::Symbols, ..s } && effects.len()
                == 0,
            _ => match chosen_symbol(s) {
                Some(symbol) => s2 == s && effects.len() == 1 && copies_symbol(effects[0], symbol@),
                None => match s.selected {
                    Some(id) => send_spec(
                        s,
                        Seq::empty(),
                        Command::CopyToClipboard { id },
                        PendingAction::Copy,
                        s2,
                        effects,
                    ),
                    None => s2 == s && effects.len() == 0,
                },
            },
        },
        Message::FocusNext => s2 == AppState { focus: s.focus.next_spec(), ..s } && effects == seq![
            if s.focus.next_spec() == Focus::Search {
                Effect::FocusSearch
            } else {
                Effect::ClearFocus
            },
        ],
        Message::DeleteSelected => match s.selected {
            Some(id) => send_spec(
                s,
                Seq::empty(),
                Command::Delete { id },
                PendingAction::Delete,
                s2,
                effects,
            ),
            None => s2 == s && effects.len() == 0,
        },
        Message::TogglePinSelected => match s.selected {
            Some(id) => toggle_pin_spec(s, Seq::empty(), id, s2, effects),
            None => s2 == s && effects.len() == 0,
        },
        Message::TabSelected(tab) => s2 == AppState {
            active_tab: tab,
            focus: match tab {
                Tab::Stack => Focus::TabStack,
                Tab::Symbols => Focus::TabSymbols,
            },
            ..s
        } && effects.len() == 0,
        Message::SymbolClicked(symbol) => s2 == s && effects.len() == 1 && copies_symbol(
            effects[0],
            symbol@,
        ),
        Message::CloseRequested => s2 == s && effects == seq![Effect::Exit],
    }
}

/// The symbol selection after a move (see `symbol_move_spec`).
fn symbol_move(selected: Option<usize>, delta: isize, n: usize) -> (r: Option<usize>)
    ensures
        r == symbol_move_spec(selected, delta as int, n as int),
{
    if n == 0 {
        return None;
    }
    let start = if delta < 0 {
        n - 1
    } else {
        0
    };
    match selected {
        Some(i) => if i < n {
            Some(wrap_index(i, delta, n))
        } else {
            Some(start)
        },
        None => Some(start),
    }
}

impl AppState {
    /// The symbol that `Enter` copies (see `chosen_symbol`).
    fn chosen_symbol_exec(&self) -> (r: Option<&'static str>)
        ensures
            r == chosen_symbol(*self),
    {
        match self.active_tab {
            Tab::Symbols => {},
            Tab::Stack => return None,
        }
        let shown = visible_symbols(&self.symbol_groups, self.search.as_str());
        match self.symbol_selected {
            Some(i) => if i < shown.len() {
                Some(shown[i])
            } else {
                None
            },
            None => None,
        }
    }

    fn toggle_pin(&mut self, id: ItemId, effects: &mut Vec<Effect>)
        ensures
            toggle_pin_spec(*old(self), old(effects)@, id, *final(self), final(effects)@),
    {
        let found = position_of_item(&self.items, id);
        match found {
            Some(k) => {
                let cmd = if self.items[k].pinned {
                    Command::Unpin { id }
                } else {
                    Command::Pin { id }
                };
                self.send(cmd, PendingAction::TogglePin, effects);
            },
            None => {},
        }
    }

    /// Asks once for the bytes of each listed image not asked for yet.
    fn queue_missing_image_fetches(&mut self, effects: &mut Vec<Effect>)
        ensures
            fetch_images_spec(*old(self), old(effects)@, *final(self), final(effects)@),
    {
        let mut ids: Vec<ItemId> = Vec::new();
        let mut i: usize = 0;
        while i < self.items.len()
            invariant
                i <= self.items@.len(),
                ids@ == missing_images(self.items@.take(i as int), self.image_requested@),
            decreases self.items@.len() - i,
        {
            assert(self.items@.take(i + 1).drop_last() == self.items@.take(i as int));
            let wanted = match &self.items[i].kind {
                ItemKindView::Image { .. } => !contains_id(&self.image_requested, self.items[i].id),
                ItemKindView::Text { .. } => false,
            };
            if wanted {
                ids.push(self.items[i].id);
            }
            i = i + 1;
        }
        assert(self.items@.take(self.items@.len() as int) == self.items@);
        let ghost start = *self;
        let ghost start_effects = effects@;
        let mut k: usize = 0;
        while k < ids.len()
            invariant
                k <= ids@.len(),
                *self == (AppState { image_requested: self.image_requested, pending: self.pending, ..start }),
                self.image_requested@ == start.image_requested@ + ids@.take(k as int),
                if start.connected {
                    &&& self.pending@ == start.pending@ + ids@.take(k as int).map_values(
                        |id: ItemId| PendingAction::FetchImage(id),
                    )
                    &&& effects@ == start_effects + ids@.take(k as int).map_values(
                        |id: ItemId| Effect::Send(Command::GetImageBytes { id }),
                    )
                } else {
                    self.pending@ == start.pending@ && effects@ == start_effects
                },
            decreases ids@.len() - k,
        {
            let id = ids[k];
            assert(ids@.take(k + 1) == ids@.take(k as int).push(id));
            self.image_requested.push(id);
            self.send(Command::GetImageBytes { id }, PendingAction::FetchImage(id), effects);
            proof {
                assert(ids@.take(k + 1).map_values(|id: ItemId| PendingAction::FetchImage(id))
                    == ids@.take(k as int).map_values(|id: ItemId| PendingAction::FetchImage(id)).push(
                    PendingAction::FetchImage(id),
                ));
                assert(ids@.take(k + 1).map_values(
                    |id: ItemId| Effect::Send(Command::GetImageBytes { id }),
                ) == ids@.take(k as int).map_values(
                    |id: ItemId| Effect::Send(Command::GetImageBytes { id }),
                ).push(Effect::Send(Command::GetImageBytes { id })));
            }
            k = k + 1;
        }
        assert(ids@.take(ids@.len() as int) == ids@);
    }

    fn scroll_to_selection(&self) -> (r: Option<Effect>)
        ensures
            match scroll_spec(self.items@, self.search@, self.selected) {
                Some((index, count)) => r == Some(Effect::ScrollTo { index, count }),
                None => r is None,
            },
    {
        let ids = self.visible_ids_exec();
        let selected = match self.selected {
            Some(id) => id,
            None => return None,
        };
        let index = match position_of_id(&ids, selected) {
            Some(k) => k,
            None => return None,
        };
        if ids.len() <= 1 {
            return None;
        }
        Some(Effect::ScrollTo { index, count: ids.len() })
    }

    /// Takes one event: changes the state and gives the effects asked for.
    pub fn update(&mut self, message: Message) -> (effects: Vec<Effect>)
        ensures
            update_spec(*old(self), message, *final(self), effects@),
            forall|id: ItemId, b: Seq<u8>|
                message matches Message::IpcResponse(Response::ImageBytes { mime: _, data_base64 })
                    && answered(old(self).pending@) == Some(PendingAction::FetchImage(id))
                    && data_base64@ == #[trigger] base64_standard(b) ==> effects@.len() == 1
                    && #[trigger] shows_image(effects@[0], id, b),
    {
        let mut effects: Vec<Effect> = Vec::new();
        match message {
            Message::IpcConnected => {
                self.connected = true;
                self.send(Command::List, PendingAction::List, &mut effects);
            },
            Message::IpcResponse(response) => {
                let ghost before = *self;
                let action = self.pending.pop_front();
                let ghost s1 = *self;
                assert(pop_spec(before, s1));
                match response {
                    Response::Items(items) => {
                        self.items = items;
                        self.clamp_selection();
                        self.queue_missing_image_fetches(&mut effects);
                    },
                    Response::Ack => match action {
                        Some(PendingAction::Copy) => {
                            effects.push(Effect::Exit);
                        },
                        Some(PendingAction::Delete) | Some(PendingAction::TogglePin) => {
                            self.status = None;
                            self.send(Command::List, PendingAction::List, &mut effects);
                        },
                        _ => {},
                    },
                    Response::Error { message } => match action {
                        Some(PendingAction::FetchImage(_)) => {},
                        _ => {
                            self.status = Some(message);
                        },
                    },
                    Response::ImageBytes { mime: _, data_base64 } => {
                        if let Some(PendingAction::FetchImage(id)) = action {
                            if let Some(bytes) = base64_decode(data_base64.as_str()) {
                                effects.push(Effect::ShowImage { id, bytes });
                            }
                        }
                    },
                }
            },
            Message::ItemHovered(id) => {
                self.hovered = Some(id);
            },
            Message::ItemUnhovered => {
                self.hovered = None;
            },
            Message::ItemClicked(id) => {
                self.selected = Some(id);
                self.focus = Focus::List;
                self.send(Command::CopyToClipboard { id }, PendingAction::Copy, &mut effects);
            },
            Message::TogglePinClicked(id) => {
                self.selected = Some(id);
                self.toggle_pin(id, &mut effects);
            },
            Message::DeleteClicked(id) => {
                self.selected = Some(id);
                self.send(Command::Delete { id }, PendingAction::Delete, &mut effects);
            },
            Message::MoveSelection(delta) => {
                self.move_selection(delta);
                if let Some(e) = self.scroll_to_selection() {
                    effects.push(e);
                }
            },
            Message::MoveSymbolSelection(delta) => {
                match self.active_tab {
                    Tab::Symbols => {
                        let n = visible_symbols(&self.symbol_groups, self.search.as_str()).len();
                        self.symbol_selected = symbol_move(self.symbol_selected, delta, n);
                    },
                    Tab::Stack => {},
                }
            },
            Message::SearchChanged(value) => {
                self.search = value;
                self.clamp_selection();
                self.symbol_selected = None;
            },
            Message::EnterPressed => match self.focus {
                Focus::TabStack => {
                    self.active_tab = Tab::Stack;
                },
                Focus::TabSymbols => {
                    self.active_tab = Tab::Symbols;
                },
                Focus::Search | Focus::List => {
                    match self.chosen_symbol_exec() {
                        Some(symbol) => {
                            effects.push(Effect::CopySymbol(owned(symbol)));
                        },
                        None => {
                            if let Some(id) = self.selected {
                                self.send(
                                    Command::CopyToClipboard { id },
                                    PendingAction::Copy,
                                    &mut effects,
                                );
                            }
                        },
                    }
                },
            },
            Message::FocusNext => {
                self.focus = self.focus.next();
                match self.focus {
                    Focus::Search => effects.push(Effect::FocusSearch),
                    _ => effects.push(Effect::ClearFocus),
                }
            },
            Message::DeleteSelected => {
                if let Some(id) = self.selected {
                    self.send(Command::Delete { id }, PendingAction::Delete, &mut effects);
                }
            },
            Message::TogglePinSelected => {
                if let Some(id) = self.selected {
                    self.toggle_pin(id, &mut effects);
                }
            },
            Message::TabSelected(tab) => {
                self.active_tab = tab;
                self.focus = match tab {
                    Tab::Stack => Focus::TabStack,
                    Tab::Symbols => Focus::TabSymbols,
                };
            },
            Message::SymbolClicked(symbol) => {
                effects.push(Effect::CopySymbol(symbol));
            },
            Message::CloseRequested => {
                effects.push(Effect::Exit);
            },
        }
        effects
    }
}

/// After the list or the search changed, the selection is on an item shown,
/// and there is one exactly when some item shows.
pub proof fn law_clamp_selects_shown(items: Seq<ItemView>, search: Seq<char>, selected: Option<ItemId>)
    ensures
        clamp_spec(items, search, selected) is Some <==> visible_ids(items, search).len() > 0,
        clamp_spec(items, search, selected) matches Some(id) ==> visible_ids(items, search).contains(id),
{
    let ids = visible_ids(items, search);
    if ids.len() > 0 {
        assert(ids.contains(ids[0]));
    }
}

/// Moving the selection keeps it on an item shown, when one shows.
pub proof fn law_move_selects_shown(items: Seq<ItemView>, search: Seq<char>, selected: Option<ItemId>, delta: int)
    requires
        visible_ids(items, search).len() > 0,
    ensures
        move_spec(items, search, selected, delta) matches Some(id) && visible_ids(items, search).contains(id),
{
    let ids = visible_ids(items, search);
    let current = match selected {
        Some(id) => match index_of_id(ids, id) {
            Some(k) => k,
            None => 0,
        },
        None => 0,
    };
    let k = wrap_spec(current, delta, ids.len() as int);
    assert(0 <= k < ids.len());
    assert(ids.contains(ids[k]));
}

/// Four presses of `Tab` bring the focus back where it was.
pub proof fn law_focus_cycles(f: Focus)
    ensures
        f.next_spec().next_spec().next_spec().next_spec() == f,
        f.next_spec() != f,
{
}

/// The keys that the window reacts to.
#[derive(Debug)]
pub enum KeyPress {
    ArrowUp,
    ArrowDown,
    ArrowLeft,
    ArrowRight,
    Enter,
    Tab,
    Delete,
    F2,
    Escape,
    Character(String),
    Other,
}

/// `c` is the one letter `lower`, in either case.
pub open spec fn is_letter_key(c: Seq<char>, lower: char, upper: char) -> bool {
    c == seq![lower] || c == seq![upper]
}

/// The event of a key: up and down move the selection of the list, left and
/// right the selection of the symbols tab, `Enter` activates, `Tab`
/// moves the focus, `Delete` deletes, `F2` (un)pins, `Escape` closes; with
/// the focus on the list, `p` (un)pins and `d` deletes.
pub open spec fn key_event_spec(focus: Focus, key: KeyPress) -> Option<Message> {
    match key {
        KeyPress::ArrowUp => Some(Message::MoveSelection(-1isize)),
        KeyPress::ArrowDown => Some(Message::MoveSelection(1isize)),
        KeyPress::ArrowLeft => Some(Message::MoveSymbolSelection(-1isize)),
        KeyPress::ArrowRight => Some(Message::MoveSymbolSelection(1isize)),
        KeyPress::Enter => Some(Message::EnterPressed),
        KeyPress::Tab => Some(Message::FocusNext),
        KeyPress::Delete => Some(Message::DeleteSelected),
        KeyPress::F2 => Some(Message::TogglePinSelected),
        KeyPress::Escape => Some(Message::CloseRequested),
        KeyPress::Character(c) => if focus == Focus::List && is_letter_key(c@, 'p', 'P') {
            Some(Message::TogglePinSelected)
        } else if focus == Focus::List && is_letter_key(c@, 'd', 'D') {
            Some(Message::DeleteSelected)
        } else {
            None
        },
        KeyPress::Other => None,
    }
}

fn letter_key(c: &str, lower: char, upper: char) -> (r: bool)
    ensures
        r == is_letter_key(c@, lower, upper),
{
    let v = chars_of(c);
    if v.len() != 1 {
        assert(v@ != seq![lower] && v@ != seq![upper]);
        return false;
    }
    let r = v[0] == lower || v[0] == upper;
    assert(r ==> (v@ =~= seq![lower] || v@ =~= seq![upper]));
    assert(v@ == seq![lower] ==> v@[0] == lower);
    assert(v@ == seq![upper] ==> v@[0] == upper);
    r
}

/// The event of a key press, given the focus.
pub fn key_event(focus: Focus, key: KeyPress) -> (r: Option<Message>)
    ensures
        r == key_event_spec(focus, key),
{
    match key {
        KeyPress::ArrowUp => Some(Message::MoveSelection(-1)),
        KeyPress::ArrowDown => Some(Message::MoveSelection(1)),
        KeyPress::ArrowLeft => Some(Message::MoveSymbolSelection(-1)),
        KeyPress::ArrowRight => Some(Message::MoveSymbolSelection(1)),
        KeyPress::Enter => Some(Message::EnterPressed),
        KeyPress::Tab => Some(Message::FocusNext),
        KeyPress::Delete => Some(Message::DeleteSelected),
        KeyPress::F2 => Some(Message::TogglePinSelected),
        KeyPress::Escape => Some(Message::CloseRequested),
        KeyPress::Character(c) => {
            let on_list = match focus {
                Focus::List => true,
                _ => false,
            };
            if on_list && letter_key(c.as_str(), 'p', 'P') {
                Some(Message::TogglePinSelected)
            } else if on_list && letter_key(c.as_str(), 'd', 'D') {
                Some(Message::DeleteSelected)
            } else {
                None
            }
        },
        KeyPress::Other => None,
    }
}

/// The item at position `i` is a pin.
pub open spec fn is_pinned_at(items: Seq<ItemView>) -> spec_fn(usize) -> bool {
    |i: usize| items[i as int].pinned
}

/// The item at position `i` is not a pin.
pub open spec fn is_recent_at(items: Seq<ItemView>) -> spec_fn(usize) -> bool {
    |i: usize| !items[i as int].pinned
}

impl AppState {
    /// The shown items split into the pins and the others, each in order.
    pub fn stack_sections(&self) -> (r: (Vec<usize>, Vec<usize>))
        ensures
            r.0@ == visible(self.items@, self.search@).filter(is_pinned_at(self.items@)),
            r.1@ == visible(self.items@, self.search@).filter(is_recent_at(self.items@)),
    {
        let shown = self.filtered_items();
        let n = self.items.len();
        proof {
            lemma_visible_bounded(self.items@, self.search@, n as int);
        }
        let mut pinned: Vec<usize> = Vec::new();
        let mut normal: Vec<usize> = Vec::new();
        let mut k: usize = 0;
        while k < shown.len()
            invariant
                shown@ == visible(self.items@, self.search@),
                forall|j: int| 0 <= j < shown@.len() ==> shown@[j] < self.items@.len(),
                k <= shown@.len(),
                pinned@ == shown@.take(k as int).filter(is_pinned_at(self.items@)),
                normal@ == shown@.take(k as int).filter(is_recent_at(self.items@)),
            decreases shown@.len() - k,
        {
            let i = shown[k];
            proof {
                let t = shown@.take(k + 1);
                assert(t.drop_last() == shown@.take(k as int));
                assert(t.last() == i);
                reveal_with_fuel(Seq::<_>::filter, 1);
            }
            if self.items[i].pinned {
                pinned.push(i);
            } else {
                normal.push(i);
            }
            k = k + 1;
        }
        assert(shown@.take(shown@.len() as int) == shown@);
        (pinned, normal)
    }
}

proof fn lemma_missing_contains(items: Seq<ItemView>, requested: Seq<ItemId>, i: int)
    requires
        0 <= i < items.len(),
        items[i].kind is Image,
        !requested.contains(items[i].id),
    ensures
        missing_images(items, requested).contains(items[i].id),
    decreases items.len(),
{
    let before = missing_images(items.drop_last(), requested);
    if i == items.len() - 1 {
        assert(missing_images(items, requested) == before.push(items[i].id));
        assert(before.push(items[i].id)[before.len() as int] == items[i].id);
    } else {
        assert(items.drop_last()[i] == items[i]);
        lemma_missing_contains(items.drop_last(), requested, i);
        let k = choose|k: int| 0 <= k < before.len() && before[k] == items[i].id;
        if items.last().kind is Image && !requested.contains(items.last().id) {
            assert(before.push(items.last().id)[k] == items[i].id);
        }
    }
}

proof fn lemma_missing_none(items: Seq<ItemView>, requested: Seq<ItemId>)
    requires
        forall|i: int| 0 <= i < items.len() && (#[trigger] items[i]).kind is Image ==> requested.contains(items[i].id),
    ensures
        missing_images(items, requested).len() == 0,
    decreases items.len(),
{
    if items.len() > 0 {
        assert forall|i: int| 0 <= i < items.drop_last().len() && (#[trigger] items.drop_last()[i]).kind is Image
            implies requested.contains(items.drop_last()[i].id) by {
            assert(items.drop_last()[i] == items[i]);
        }
        lemma_missing_none(items.drop_last(), requested);
        assert(items.last() == items[items.len() - 1]);
    }
}

/// After the images of a list were asked for, every listed image is asked
/// for (or was before), so none is missing any more.
proof fn lemma_fetched_all(s: AppState, effects: Seq<Effect>, s2: AppState, effects2: Seq<Effect>)
    requires
        fetch_images_spec(s, effects, s2, effects2),
    ensures
        missing_images(s2.items@, s2.image_requested@).len() == 0,
{
    let missing = missing_images(s.items@, s.image_requested@);
    assert forall|i: int| 0 <= i < s2.items@.len() && (#[trigger] s2.items@[i]).kind is Image
        implies s2.image_requested@.contains(s2.items@[i].id) by {
        let id = s2.items@[i].id;
        if s.image_requested@.contains(id) {
            let k = choose|k: int| 0 <= k < s.image_requested@.len() && s.image_requested@[k] == id;
            assert(s2.image_requested@[k] == id);
        } else {
            lemma_missing_contains(s.items@, s.image_requested@, i);
            let k = choose|k: int| 0 <= k < missing.len() && missing[k] == id;
            assert(s2.image_requested@[s.image_requested@.len() + k] == id);
        }
    }
    lemma_missing_none(s2.items@, s2.image_requested@);
}

/// Asking for the missing images a second time right after the first asks
/// for nothing: the state and the effects stay as they are.
pub proof fn law_fetch_images_twice(
    s: AppState,
    effects: Seq<Effect>,
    s2: AppState,
    effects2: Seq<Effect>,
    s3: AppState,
    effects3: Seq<Effect>,
)
    requires
        fetch_images_spec(s, effects, s2, effects2),
        fetch_images_spec(s2, effects2, s3, effects3),
    ensures
        effects3 == effects2,
        s3.pending@ == s2.pending@,
        s3.image_requested@ == s2.image_requested@,
        s3 == (AppState { pending: s3.pending, image_requested: s3.image_requested, ..s2 }),
{
    lemma_fetched_all(s, effects, s2, effects2);
    let missing = missing_images(s2.items@, s2.image_requested@);
    assert(missing =~= Seq::<ItemId>::empty());
    assert(s2.image_requested@ + missing =~= s2.image_requested@);
    assert(s2.pending@ + missing.map_values(|id: ItemId| PendingAction::FetchImage(id)) =~= s2.pending@);
    assert(effects2 + missing.map_values(|id: ItemId| Effect::Send(Command::GetImageBytes { id }))
        =~= effects2);
}

/// The same list answered twice asks for its images only the first time.
pub proof fn law_same_list_twice_fetches_nothing(
    s: AppState,
    items: Vec<ItemView>,
    s2: AppState,
    effects2: Seq<Effect>,
    again: Vec<ItemView>,
    s3: AppState,
    effects3: Seq<Effect>,
)
    requires
        on_response_spec(s, Response::Items(items), s2, effects2),
        again@ == items@,
        on_response_spec(s2, Response::Items(again), s3, effects3),
    ensures
        effects3.len() == 0,
{
    let s1 = choose|s1: AppState| #![trigger pop_spec(s, s1)] pop_spec(s, s1) && {
        let s1b = AppState { items, selected: clamp_spec(items@, s1.search@, s1.selected), ..s1 };
        fetch_images_spec(s1b, Seq::empty(), s2, effects2)
    };
    let s1b = AppState { items, selected: clamp_spec(items@, s1.search@, s1.selected), ..s1 };
    lemma_fetched_all(s1b, Seq::empty(), s2, effects2);
    let t1 = choose|t1: AppState| #![trigger pop_spec(s2, t1)] pop_spec(s2, t1) && {
        let t1b = AppState { items: again, selected: clamp_spec(again@, t1.search@, t1.selected), ..t1 };
        fetch_images_spec(t1b, Seq::empty(), s3, effects3)
    };
    let t1b = AppState { items: again, selected: clamp_spec(again@, t1.search@, t1.selected), ..t1 };
    assert(t1b.image_requested@ == s2.image_requested@);
    let missing = missing_images(t1b.items@, t1b.image_requested@);
    assert(missing.len() == 0);
    assert(Seq::<Effect>::empty() + missing.map_values(|id: ItemId| Effect::Send(Command::GetImageBytes { id }))
        =~= Seq::<Effect>::empty());
}

/// Moving the symbol selection keeps it on a shown symbol, when one shows.
pub proof fn law_symbol_move_selects_shown(selected: Option<usize>, delta: int, n: int)
    requires
        0 < n <= usize::MAX,
    ensures
        symbol_move_spec(selected, delta, n) matches Some(i) && i < n,
{
    match selected {
        Some(i) => if i < n {
            assert(0 <= wrap_spec(i as int, delta, n) < n);
        },
        None => {},
    }
}

// ---------------------------------------------------------------------------
// What the search of the history shows

proof fn lemma_visible_upto_contains(items: Seq<ItemView>, search: Seq<char>, i: int, n: int)
    requires
        0 <= i < n <= items.len(),
        items.len() <= usize::MAX,
        matches_search(items[i], search),
    ensures
        visible_upto(items, search, n).contains(i as usize),
    decreases n,
{
    let before = visible_upto(items, search, n - 1);
    if i == n - 1 {
        assert(before.push(i as usize)[before.len() as int] == i as usize);
    } else {
        lemma_visible_upto_contains(items, search, i, n - 1);
        let k = choose|k: int| 0 <= k < before.len() && before[k] == i as usize;
        if matches_search(items[n - 1], search) {
            assert(before.push((n - 1) as usize)[k] == i as usize);
        }
    }
}

proof fn lemma_visible_upto_same(a: Seq<ItemView>, b: Seq<ItemView>, search: Seq<char>, n: int)
    requires
        0 <= n <= a.len(),
        a.len() == b.len(),
        forall|j: int| 0 <= j < a.len() ==> matches_search(a[j], search) == matches_search(b[j], search),
    ensures
        visible_upto(a, search, n) == visible_upto(b, search, n),
    decreases n,
{
    if n > 0 {
        lemma_visible_upto_same(a, b, search, n - 1);
        assert(matches_search(a[n - 1], search) == matches_search(b[n - 1], search));
    }
}

proof fn lemma_visible_upto_all(items: Seq<ItemView>, search: Seq<char>, n: int)
    requires
        0 <= n <= items.len(),
        items.len() <= usize::MAX,
        trim(search).len() == 0,
    ensures
        visible_upto(items, search, n).len() == n,
        forall|j: int| 0 <= j < n ==> visible_upto(items, search, n)[j] == j as usize,
    decreases n,
{
    if n > 0 {
        lemma_visible_upto_all(items, search, n - 1);
        let before = visible_upto(items, search, n - 1);
        assert(matches_search(items[n - 1], search));
        assert forall|j: int| 0 <= j < n implies visible_upto(items, search, n)[j] == j as usize by {
            if j < n - 1 {
                assert(before.push((n - 1) as usize)[j] == before[j]);
            }
        }
    }
}

/// Under a blank search every item shows, in order.
pub proof fn law_blank_search_shows_all(items: Seq<ItemView>, search: Seq<char>)
    requires
        items.len() <= usize::MAX,
        trim(search).len() == 0,
    ensures
        visible(items, search).len() == items.len(),
        forall|j: int| 0 <= j < items.len() ==> visible(items, search)[j] == j as usize,
{
    lemma_visible_upto_all(items, search, items.len() as int);
}

/// An item whose line, in lower case, contains the search in lower case
/// (from position `k` on) shows under that search, a pin as well as a recent
/// item.
pub proof fn law_search_shows_matching_line(items: Seq<ItemView>, search: Seq<char>, i: int, k: int)
    requires
        0 <= i < items.len(),
        items.len() <= usize::MAX,
        0 <= k,
        k + lowercase(search).len() <= lowercase(render_spec(items[i], false)).len(),
        lowercase(render_spec(items[i], false)).subrange(k, k + lowercase(search).len())
            == lowercase(search),
    ensures
        visible(items, search).contains(i as usize),
{
    assert(occurs_at(lowercase(render_spec(items[i], false)), lowercase(search), k));
    lemma_visible_upto_contains(items, search, i, items.len() as int);
}

/// Whether items show under a search does not depend on whether they are
/// pinned: pinning or unpinning an item changes no result of the search.
pub proof fn law_search_ignores_pinned(items: Seq<ItemView>, search: Seq<char>, i: int, pinned: bool)
    requires
        0 <= i < items.len(),
    ensures
        visible(items.update(i, ItemView { pinned, ..items[i] }), search) == visible(items, search),
{
    let other = items.update(i, ItemView { pinned, ..items[i] });
    assert forall|j: int| 0 <= j < items.len() implies matches_search(other[j], search)
        == matches_search(items[j], search) by {
        if j == i {
            assert(render_spec(other[j], false) == render_spec(items[j], false));
        }
    }
    lemma_visible_upto_same(other, items, search, items.len() as int);
}

proof fn lemma_visible_upto_sound(items: Seq<ItemView>, search: Seq<char>, n: int)
    requires
        0 <= n <= items.len(),
        items.len() <= usize::MAX,
    ensures
        forall|j: int|
            0 <= j < visible_upto(items, search, n).len() ==> (#[trigger] visible_upto(items, search, n)[j])
                < n && matches_search(items[visible_upto(items, search, n)[j] as int], search),
        forall|a: int, b: int|
            0 <= a < b < visible_upto(items, search, n).len() ==> #[trigger] visible_upto(items, search, n)[a]
                < #[trigger] visible_upto(items, search, n)[b],
    decreases n,
{
    if n > 0 {
        lemma_visible_upto_sound(items, search, n - 1);
        let before = visible_upto(items, search, n - 1);
        if matches_search(items[n - 1], search) {
            let now = before.push((n - 1) as usize);
            assert forall|j: int| 0 <= j < now.len() implies (#[trigger] now[j]) < n && matches_search(
                items[now[j] as int],
                search,
            ) by {
                if j < before.len() {
                    assert(now[j] == before[j]);
                }
            }
            assert forall|a: int, b: int| 0 <= a < b < now.len() implies #[trigger] now[a] < #[trigger] now[b] by {
                assert(now[a] == before[a]);
                if b < before.len() {
                    assert(now[b] == before[b]);
                }
            }
        }
    }
}

/// Under a search that is not blank, only items whose line, in lower case,
/// contains the search in lower case show; they show in the order of the
/// list, each once.
pub proof fn law_search_shows_only_matching(items: Seq<ItemView>, search: Seq<char>)
    requires
        items.len() <= usize::MAX,
    ensures
        forall|j: int|
            0 <= j < visible(items, search).len() ==> (#[trigger] visible(items, search)[j]) < items.len()
                && (trim(search).len() == 0 || contains_seq(
                lowercase(render_spec(items[visible(items, search)[j] as int], false)),
                lowercase(search),
            )),
        forall|a: int, b: int|
            0 <= a < b < visible(items, search).len() ==> #[trigger] visible(items, search)[a]
                < #[trigger] visible(items, search)[b],
{
    lemma_visible_upto_sound(items, search, items.len() as int);
}

} // verus!
