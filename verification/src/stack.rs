//! The clipboard history: recent items, most recent first, and pinned items.
use std::collections::VecDeque;
use std::path::PathBuf;
use std::time::SystemTime;

use sha2::{Digest, Sha256};
use uuid::Uuid;
use vstd::prelude::*;
use vstd::std_specs::iter::IteratorSpec;
use vstd::utf8::encode_utf8;

use crate::protocol::{Category, ItemId};

verus! {

broadcast use vstd::std_specs::vecdeque::group_vec_dequeue_axioms;

/// Most recent (not pinned) items kept; the oldest beyond it is evicted.
pub const MAX_ITEMS: usize = 15;

/// Most items that can be pinned at once.
pub const MAX_PINS: usize = 5;

/// A filesystem path, carried from where it is made to where it is used.
#[verifier::external_type_specification]
#[verifier::external_body]
pub struct ExPathBuf(PathBuf);

/// The SHA-256 digest of `data`.
pub uninterp spec fn sha256(data: Seq<u8>) -> Seq<u8>;

/// Hash of a content, used to recognize a content copied again.
/// Calls `sha2::Sha256`; its result is the SHA-256 digest of `bytes`.
#[verifier::external_body]
pub fn content_hash(bytes: &[u8]) -> (r: [u8; 32])
    ensures
        r@ == sha256(bytes@),
{
    let mut hasher = Sha256::new();
    hasher.update(bytes);
    hasher.finalize().into()
}

/// A fresh identifier, from `uuid::Uuid::new_v4`. Nothing is stated of its
/// value: it is random.
#[verifier::external_body]
pub(crate) fn random_item_id() -> (r: ItemId) {
    ItemId(Uuid::new_v4().as_u128())
}

/// The current time, from `std::time::SystemTime::now`. Nothing is stated of
/// its value.
#[verifier::external_body]
pub(crate) fn current_time() -> (r: SystemTime) {
    SystemTime::now()
}

/// What an item holds.
#[derive(Debug, PartialEq)]
pub enum ItemKind {
    Text(String),
    Image { path: PathBuf, mime: String, size_bytes: u64 },
}

/// One entry of the history.
#[derive(Debug, PartialEq)]
pub struct Item {
    pub id: ItemId,
    pub kind: ItemKind,
    pub content_hash: [u8; 32],
    pub copied_at: SystemTime,
    pub category: Category,
}

/// The hash that a text item of `content` carries.
pub open spec fn text_hash(content: Seq<char>) -> Seq<u8> {
    sha256(encode_utf8(content))
}

/// `it` is a freshly made text item of `content`: any id and time, the hash
/// of the content and the default category.
pub open spec fn is_new_text_item(it: Item, content: String) -> bool {
    &&& it.kind == ItemKind::Text(content)
    &&& it.content_hash@ == text_hash(content@)
    &&& it.category == Category::Outro
}

impl Item {
    /// A new text item, with a fresh id and the current time.
    pub fn new_text(content: String) -> (r: Self)
        ensures
            is_new_text_item(r, content),
    {
        let hash = content_hash(content.as_str().as_bytes());
        Item {
            id: random_item_id(),
            kind: ItemKind::Text(content),
            content_hash: hash,
            copied_at: current_time(),
            category: Category::default(),
        }
    }

    /// A new image item, with a fresh id and the current time.
    pub fn new_image(path: PathBuf, mime: String, size_bytes: u64, content_hash: [u8; 32]) -> (r:
        Self)
        ensures
            r.kind == (ItemKind::Image { path, mime, size_bytes }),
            r.content_hash == content_hash,
            r.category == Category::Outro,
    {
        Item {
            id: random_item_id(),
            kind: ItemKind::Image { path, mime, size_bytes },
            content_hash,
            copied_at: current_time(),
            category: Category::default(),
        }
    }
}

/// Why an item could not be pinned.
#[derive(Debug, PartialEq, Eq, Structural)]
pub enum PinError {
    NotFound,
    LimitReached,
}

/// Why a category could not be set.
#[derive(Debug, PartialEq, Eq, Structural)]
pub enum CategoryError {
    NotFound,
}

/// Whether a pushed text was new or already present.
#[derive(Debug, PartialEq, Eq, Structural)]
pub enum PushOutcome {
    Inserted,
    Touched,
}

/// What unpinning did.
#[derive(Debug, PartialEq)]
pub enum UnpinOutcome {
    NotPinned,
    Unpinned { evicted: Option<Item> },
}

/// The abstract history: the recent items, most recent first, then the pins
/// in the order they were pinned.
pub type StackView = (Seq<Item>, Seq<Item>);

/// The history of the daemon.
#[derive(Debug)]
pub struct Stack {
    items: VecDeque<Item>,
    pins: Vec<Item>,
}

impl View for Stack {
    type V = StackView;

    closed spec fn view(&self) -> StackView {
        (self.items@, self.pins@)
    }
}

// ---------------------------------------------------------------------------
// Searching a sequence of items

/// The test "has this id".
pub open spec fn has_id(id: ItemId) -> spec_fn(Item) -> bool {
    |it: Item| it.id == id
}

/// The test "has this content hash".
pub open spec fn has_hash(h: Seq<u8>) -> spec_fn(Item) -> bool {
    |it: Item| it.content_hash@ == h
}

/// `i` is the first index of `s` whose item passes `p`.
pub open spec fn is_first(s: Seq<Item>, p: spec_fn(Item) -> bool, i: int) -> bool {
    &&& 0 <= i < s.len()
    &&& p(s[i])
    &&& forall|j: int| 0 <= j < i ==> !p(#[trigger] s[j])
}

/// The first index of `s` whose item passes `p`, if any item does.
pub open spec fn first_index(s: Seq<Item>, p: spec_fn(Item) -> bool) -> Option<int> {
    if exists|i: int| is_first(s, p, i) {
        Some(choose|i: int| is_first(s, p, i))
    } else {
        None
    }
}

/// Some item of `s` passes `p`.
pub open spec fn any_item(s: Seq<Item>, p: spec_fn(Item) -> bool) -> bool {
    exists|i: int| 0 <= i < s.len() && p(#[trigger] s[i])
}

pub proof fn lemma_first_unique(s: Seq<Item>, p: spec_fn(Item) -> bool, i: int, k: int)
    requires
        is_first(s, p, i),
        is_first(s, p, k),
    ensures
        i == k,
{
    if i < k {
        assert(!p(s[i]));
    } else if k < i {
        assert(!p(s[k]));
    }
}

proof fn lemma_first_exists(s: Seq<Item>, p: spec_fn(Item) -> bool, i: int)
    requires
        0 <= i < s.len(),
        p(s[i]),
    ensures
        exists|k: int| is_first(s, p, k),
    decreases i,
{
    if exists|j: int| 0 <= j < i && p(#[trigger] s[j]) {
        let j = choose|j: int| 0 <= j < i && p(#[trigger] s[j]);
        lemma_first_exists(s, p, j);
    } else {
        assert(is_first(s, p, i));
    }
}

/// What `first_index` gives: the first passing index, or `None` exactly when
/// no item passes.
pub proof fn lemma_first_index(s: Seq<Item>, p: spec_fn(Item) -> bool)
    ensures
        match first_index(s, p) {
            Some(i) => is_first(s, p, i),
            None => !any_item(s, p),
        },
        first_index(s, p) is Some <==> any_item(s, p),
{
    if any_item(s, p) {
        let i = choose|i: int| 0 <= i < s.len() && p(#[trigger] s[i]);
        lemma_first_exists(s, p, i);
    }
}

pub proof fn lemma_first_index_is(s: Seq<Item>, p: spec_fn(Item) -> bool, i: int)
    requires
        is_first(s, p, i),
    ensures
        first_index(s, p) == Some(i),
{
    let k = choose|k: int| is_first(s, p, k);
    lemma_first_unique(s, p, i, k);
}

fn find_in_items(items: &VecDeque<Item>, id: ItemId) -> (r: Option<usize>)
    ensures
        match r {
            Some(i) => first_index(items@, has_id(id)) == Some(i as int),
            None => first_index(items@, has_id(id)) is None,
        },
{
    let mut i: usize = 0;
    while i < items.len()
        invariant
            i <= items@.len(),
            forall|j: int| 0 <= j < i ==> !has_id(id)(#[trigger] items@[j]),
        decreases items@.len() - i,
    {
        if items[i].id == id {
            proof {
                assert(is_first(items@, has_id(id), i as int));
                lemma_first_index_is(items@, has_id(id), i as int);
            }
            return Some(i);
        }
        i = i + 1;
    }
    proof {
        lemma_first_index(items@, has_id(id));
    }
    None
}

fn find_in_pins(pins: &Vec<Item>, id: ItemId) -> (r: Option<usize>)
    ensures
        match r {
            Some(i) => first_index(pins@, has_id(id)) == Some(i as int),
            None => first_index(pins@, has_id(id)) is None,
        },
{
    let mut i: usize = 0;
    while i < pins.len()
        invariant
            i <= pins@.len(),
            forall|j: int| 0 <= j < i ==> !has_id(id)(#[trigger] pins@[j]),
        decreases pins@.len() - i,
    {
        if pins[i].id == id {
            proof {
                assert(is_first(pins@, has_id(id), i as int));
                lemma_first_index_is(pins@, has_id(id), i as int);
            }
            return Some(i);
        }
        i = i + 1;
    }
    proof {
        lemma_first_index(pins@, has_id(id));
    }
    None
}


/// Whether two hashes are equal.
pub fn hash_eq(a: &[u8; 32], b: &[u8; 32]) -> (r: bool)
    ensures
        r == (a@ == b@),
{
    let mut i: usize = 0;
    while i < 32
        invariant
            i <= 32,
            a@.len() == 32,
            b@.len() == 32,
            forall|j: int| 0 <= j < i ==> a@[j] == b@[j],
        decreases 32 - i,
    {
        if a[i] != b[i] {
            return false;
        }
        i = i + 1;
    }
    assert(a@ =~= b@);
    true
}

fn find_hash_in_items(items: &VecDeque<Item>, h: &[u8; 32]) -> (r: Option<usize>)
    ensures
        match r {
            Some(i) => first_index(items@, has_hash(h@)) == Some(i as int),
            None => first_index(items@, has_hash(h@)) is None,
        },
{
    let mut i: usize = 0;
    while i < items.len()
        invariant
            i <= items@.len(),
            forall|j: int| 0 <= j < i ==> !has_hash(h@)(#[trigger] items@[j]),
        decreases items@.len() - i,
    {
        if hash_eq(&items[i].content_hash, h) {
            proof {
                assert(is_first(items@, has_hash(h@), i as int));
                lemma_first_index_is(items@, has_hash(h@), i as int);
            }
            return Some(i);
        }
        i = i + 1;
    }
    proof {
        lemma_first_index(items@, has_hash(h@));
    }
    None
}

fn find_hash_in_pins(pins: &Vec<Item>, h: &[u8; 32]) -> (r: Option<usize>)
    ensures
        match r {
            Some(i) => first_index(pins@, has_hash(h@)) == Some(i as int),
            None => first_index(pins@, has_hash(h@)) is None,
        },
{
    let mut i: usize = 0;
    while i < pins.len()
        invariant
            i <= pins@.len(),
            forall|j: int| 0 <= j < i ==> !has_hash(h@)(#[trigger] pins@[j]),
        decreases pins@.len() - i,
    {
        if hash_eq(&pins[i].content_hash, h) {
            proof {
                assert(is_first(pins@, has_hash(h@), i as int));
                lemma_first_index_is(pins@, has_hash(h@), i as int);
            }
            return Some(i);
        }
        i = i + 1;
    }
    proof {
        lemma_first_index(pins@, has_hash(h@));
    }
    None
}

// ---------------------------------------------------------------------------
// The operations, on the abstract history

/// `it` with the time `t`.
pub open spec fn with_time(it: Item, t: SystemTime) -> Item {
    Item { copied_at: t, ..it }
}

/// `it` with the category `c`.
pub open spec fn with_category(it: Item, c: Category) -> Item {
    Item { category: c, ..it }
}

/// The recent items after `item` is put on top, and the item evicted from the
/// bottom when there are then more than `MAX_ITEMS`.
pub open spec fn insert_items(items: Seq<Item>, item: Item) -> (Seq<Item>, Option<Item>) {
    let grown = seq![item] + items;
    if grown.len() > MAX_ITEMS {
        (grown.drop_last(), Some(grown.last()))
    } else {
        (grown, None)
    }
}

/// The item of the history with id `id`, looked up among the recent items
/// first, then among the pins.
pub open spec fn get_spec(s: StackView, id: ItemId) -> Option<Item> {
    match first_index(s.0, has_id(id)) {
        Some(p) => Some(s.0[p]),
        None => match first_index(s.1, has_id(id)) {
            Some(q) => Some(s.1[q]),
            None => None,
        },
    }
}


/// The history after the content with hash `h` was copied again at time `t`:
/// a recent item with that hash gets the time `t` and moves to the top; else a
/// pin with that hash gets the time `t`. The flag tells whether one was found.
pub open spec fn touch_spec(s: StackView, h: Seq<u8>, t: SystemTime) -> (StackView, bool) {
    match first_index(s.0, has_hash(h)) {
        Some(p) => ((seq![with_time(s.0[p], t)] + s.0.remove(p), s.1), true),
        None => match first_index(s.1, has_hash(h)) {
            Some(q) => ((s.0, s.1.update(q, with_time(s.1[q], t))), true),
            None => (s, false),
        },
    }
}

/// The history after `item` is inserted, and the item evicted, if any.
pub open spec fn insert_spec(s: StackView, item: Item) -> (StackView, Option<Item>) {
    let (items, evicted) = insert_items(s.0, item);
    ((items, s.1), evicted)
}

/// The history after a text of hash `h` is pushed at time `t`: a copy of a
/// known content is touched; otherwise `fresh` is inserted.
pub open spec fn push_text_spec(s: StackView, h: Seq<u8>, t: SystemTime, fresh: Item) -> (
    StackView,
    PushOutcome,
) {
    let (touched, found) = touch_spec(s, h, t);
    if found {
        (touched, PushOutcome::Touched)
    } else {
        (insert_spec(s, fresh).0, PushOutcome::Inserted)
    }
}

/// The history after pinning `id`: the first recent item with that id moves
/// to the end of the pins, unless there is none (`NotFound`) or all
/// `MAX_PINS` places are taken (`LimitReached`).
pub open spec fn pin_spec(s: StackView, id: ItemId) -> (StackView, Result<(), PinError>) {
    match first_index(s.0, has_id(id)) {
        None => (s, Err(PinError::NotFound)),
        Some(p) => if s.1.len() >= MAX_PINS {
            (s, Err(PinError::LimitReached))
        } else {
            ((s.0.remove(p), s.1.push(s.0[p])), Ok(()))
        },
    }
}

/// The history after unpinning `id`: the first pin with that id goes back on
/// top of the recent items, which may evict the oldest one.
pub open spec fn unpin_spec(s: StackView, id: ItemId) -> (StackView, UnpinOutcome) {
    match first_index(s.1, has_id(id)) {
        None => (s, UnpinOutcome::NotPinned),
        Some(q) => {
            let (items, evicted) = insert_items(s.0, s.1[q]);
            ((items, s.1.remove(q)), UnpinOutcome::Unpinned { evicted })
        },
    }
}

/// The history after the category of `id` is set to `c`, on the first recent
/// item with that id, else on the first such pin.
pub open spec fn set_category_spec(s: StackView, id: ItemId, c: Category) -> (
    StackView,
    Result<(), CategoryError>,
) {
    match first_index(s.0, has_id(id)) {
        Some(p) => ((s.0.update(p, with_category(s.0[p], c)), s.1), Ok(())),
        None => match first_index(s.1, has_id(id)) {
            Some(q) => ((s.0, s.1.update(q, with_category(s.1[q], c))), Ok(())),
            None => (s, Err(CategoryError::NotFound)),
        },
    }
}

/// The history after deleting `id` (first among the recent items, else among
/// the pins), and the item removed.
pub open spec fn delete_spec(s: StackView, id: ItemId) -> (StackView, Option<Item>) {
    match first_index(s.0, has_id(id)) {
        Some(p) => ((s.0.remove(p), s.1), Some(s.0[p])),
        None => match first_index(s.1, has_id(id)) {
            Some(q) => ((s.0, s.1.remove(q)), Some(s.1[q])),
            None => (s, None),
        },
    }
}

impl Stack {
    /// An empty history.
    pub fn new() -> (r: Self)
        ensures
            r@.0 == Seq::<Item>::empty(),
            r@.1 == Seq::<Item>::empty(),
    {
        Stack { items: VecDeque::new(), pins: Vec::new() }
    }

    /// A history rebuilt from items already loaded (from disk).
    pub fn from_parts(items: VecDeque<Item>, pins: Vec<Item>) -> (r: Self)
        ensures
            r@.0 == items@,
            r@.1 == pins@,
    {
        Stack { items, pins }
    }

    /// The recent items, most recent first.
    pub fn items(&self) -> (r: std::collections::vec_deque::Iter<'_, Item>)
        ensures
            r.remaining() == self@.0.as_ref(),
    {
        self.items.iter()
    }

    /// The pinned items, in the order they were pinned.
    pub fn pins(&self) -> (r: std::slice::Iter<'_, Item>)
        ensures
            r.remaining() == self@.1.as_ref(),
    {
        self.pins.iter()
    }

    /// How many recent items there are.
    pub fn item_count(&self) -> (r: usize)
        ensures
            r == self@.0.len(),
    {
        self.items.len()
    }

    /// How many pins there are.
    pub fn pin_count(&self) -> (r: usize)
        ensures
            r == self@.1.len(),
    {
        self.pins.len()
    }

    /// The recent item at position `i` (0 is the most recent).
    pub fn item_at(&self, i: usize) -> (r: &Item)
        requires
            i < self@.0.len(),
        ensures
            *r == self@.0[i as int],
    {
        &self.items[i]
    }

    /// The pin at position `i`.
    pub fn pin_at(&self, i: usize) -> (r: &Item)
        requires
            i < self@.1.len(),
        ensures
            *r == self@.1[i as int],
    {
        &self.pins[i]
    }

    /// Looks an item up by id, among the recent items first, then the pins.
    pub fn get(&self, id: ItemId) -> (r: Option<&Item>)
        ensures
            match r {
                Some(it) => get_spec(self@, id) == Some(*it),
                None => get_spec(self@, id) is None,
            },
    {
        if let Some(p) = find_in_items(&self.items, id) {
            return Some(&self.items[p]);
        }
        if let Some(q) = find_in_pins(&self.pins, id) {
            return Some(&self.pins[q]);
        }
        None
    }

    /// Puts `item` on top of the recent items; returns the oldest one when
    /// there are then more than `MAX_ITEMS`.
    pub fn insert(&mut self, item: Item) -> (r: Option<Item>)
        ensures
            (final(self)@.0, r) == insert_items(old(self)@.0, item),
            final(self)@.1 == old(self)@.1,
    {
        self.items.push_front(item);
        if self.items.len() > MAX_ITEMS {
            self.items.pop_back()
        } else {
            None
        }
    }

    /// If an item has the hash `hash`, gives it the time `now` and, when it is
    /// not pinned, moves it to the top. Returns whether one was found.
    pub fn touch_at(&mut self, hash: &[u8; 32], now: SystemTime) -> (r: bool)
        ensures
            (final(self)@, r) == touch_spec(old(self)@, hash@, now),
    {
        if let Some(pos) = find_hash_in_items(&self.items, hash) {
            let mut item = self.items.remove(pos).unwrap();
            item.copied_at = now;
            self.items.push_front(item);
            return true;
        }
        if let Some(q) = find_hash_in_pins(&self.pins, hash) {
            let mut item = self.pins.remove(q);
            item.copied_at = now;
            self.pins.insert(q, item);
            proof {
                assert(self.pins@ =~= old(self)@.1.update(q as int, with_time(old(self)@.1[q as int], now)));
            }
            return true;
        }
        false
    }

    /// If an item has the hash `hash`, gives it the current time and, when it
    /// is not pinned, moves it to the top. Returns whether one was found.
    pub fn touch(&mut self, hash: &[u8; 32]) -> (r: bool)
        ensures
            exists|t: SystemTime| (final(self)@, r) == #[trigger] touch_spec(old(self)@, hash@, t),
    {
        let now = current_time();
        self.touch_at(hash, now)
    }

    /// A text copied again is touched; a new one is inserted as a new item.
    pub fn push_text(&mut self, content: String) -> (r: PushOutcome)
        ensures
            exists|t: SystemTime, fresh: Item|
                is_new_text_item(fresh, content) && (final(self)@, r) == #[trigger] push_text_spec(
                    old(self)@,
                    text_hash(content@),
                    t,
                    fresh,
                ),
    {
        let hash = content_hash(content.as_str().as_bytes());
        let now = current_time();
        let ghost before = self@;
        if self.touch_at(&hash, now) {
            let ghost fresh = Item {
                id: ItemId(0),
                kind: ItemKind::Text(content),
                content_hash: hash,
                copied_at: now,
                category: Category::Outro,
            };
            assert(is_new_text_item(fresh, content));
            assert(push_text_spec(before, text_hash(content@), now, fresh).0 == self@);
            PushOutcome::Touched
        } else {
            let item = Item::new_text(content);
            let ghost fresh = item;
            self.insert(item);
            assert(push_text_spec(before, text_hash(content@), now, fresh).0 == self@);
            PushOutcome::Inserted
        }
    }

    /// Moves the first recent item with id `id` to the pins.
    pub fn pin(&mut self, id: ItemId) -> (r: Result<(), PinError>)
        ensures
            (final(self)@, r) == pin_spec(old(self)@, id),
    {
        let pos = match find_in_items(&self.items, id) {
            Some(pos) => pos,
            None => return Err(PinError::NotFound),
        };
        if self.pins.len() >= MAX_PINS {
            return Err(PinError::LimitReached);
        }
        let item = self.items.remove(pos).unwrap();
        self.pins.push(item);
        Ok(())
    }

    /// Puts the first pin with id `id` back on top of the recent items.
    pub fn unpin(&mut self, id: ItemId) -> (r: UnpinOutcome)
        ensures
            (final(self)@, r) == unpin_spec(old(self)@, id),
    {
        let q = match find_in_pins(&self.pins, id) {
            Some(q) => q,
            None => return UnpinOutcome::NotPinned,
        };
        let item = self.pins.remove(q);
        let evicted = self.insert(item);
        UnpinOutcome::Unpinned { evicted }
    }

    /// Sets the category of an item, pinned or not.
    pub fn set_category(&mut self, id: ItemId, category: Category) -> (r: Result<(), CategoryError>)
        ensures
            (final(self)@, r) == set_category_spec(old(self)@, id, category),
    {
        if let Some(p) = find_in_items(&self.items, id) {
            let mut item = self.items.remove(p).unwrap();
            item.category = category;
            self.items.insert(p, item);
            proof {
                assert(self.items@ =~= old(self)@.0.update(p as int, with_category(old(self)@.0[p as int], category)));
            }
            return Ok(());
        }
        if let Some(q) = find_in_pins(&self.pins, id) {
            let mut item = self.pins.remove(q);
            item.category = category;
            self.pins.insert(q, item);
            proof {
                assert(self.pins@ =~= old(self)@.1.update(q as int, with_category(old(self)@.1[q as int], category)));
            }
            return Ok(());
        }
        Err(CategoryError::NotFound)
    }

    /// Removes an item, wherever it is.
    pub fn delete(&mut self, id: ItemId) -> (r: Option<Item>)
        ensures
            (final(self)@, r) == delete_spec(old(self)@, id),
    {
        if let Some(p) = find_in_items(&self.items, id) {
            return self.items.remove(p);
        }
        if let Some(q) = find_in_pins(&self.pins, id) {
            return Some(self.pins.remove(q));
        }
        None
    }
}

impl Default for Stack {
    fn default() -> (r: Self)
        ensures
            r@.0 == Seq::<Item>::empty(),
            r@.1 == Seq::<Item>::empty(),
    {
        Stack::new()
    }
}

} // verus!
