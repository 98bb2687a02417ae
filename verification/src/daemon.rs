//! What the daemon decides: the answer to each command of a client, and how a
//! clipboard change enters the history. The program does the I/O that these
//! decisions call for.
use std::path::PathBuf;
use std::time::SystemTime;

use base64::engine::general_purpose::STANDARD;
use base64::Engine;
use vstd::prelude::*;

use crate::categorize::{detect, detect_spec};
use crate::protocol::{Category, Command, ItemId, ItemKindView, ItemView, Response};
use crate::stack::{
    content_hash, current_time, delete_spec, with_category, MAX_ITEMS, get_spec, pin_spec, push_text_spec, set_category_spec, sha256,
    text_hash, touch_spec, unpin_spec, is_new_text_item, insert_spec, Item, ItemKind, PinError,
    PushOutcome, Stack, StackView, UnpinOutcome, CategoryError,
};
use crate::stack::{any_item, first_index, has_hash, has_id, is_first, lemma_first_index, lemma_first_index_is};
use crate::stack_laws::{
    hashes_distinct, law_delete, law_delete_keeps_hashes_distinct, law_insert,
    law_insert_new_content_keeps_hashes_distinct, law_pin, law_pin_keeps_hashes_distinct,
    law_push_text, law_push_text_keeps_hashes_distinct, law_set_category_keeps_hashes_distinct,
    law_set_category_keeps_sizes, law_touch_finds_known_content, law_touch_keeps_hashes_distinct,
    law_unpin, law_unpin_keeps_hashes_distinct, within_limits,
};
use crate::text::{owned, prefix_string, push_str, take_chars};

verus! {

/// Characters of a text shown in a listing.
pub const PREVIEW_CHARS: usize = 200;

/// The character of the standard Base64 alphabet (`A`-`Z`, `a`-`z`, `0`-`9`,
/// `+`, `/`) for the 6-bit value `v`.
pub open spec fn base64_char(v: int) -> char {
    if v < 26 {
        (65 + v) as char
    } else if v < 52 {
        (97 + (v - 26)) as char
    } else if v < 62 {
        (48 + (v - 52)) as char
    } else if v == 62 {
        '+'
    } else {
        '/'
    }
}

/// The standard Base64 encoding of `bytes`, with padding: each group of three
/// bytes gives four characters; a last group of one or two bytes is padded
/// with `=` to four.
pub open spec fn base64_standard(bytes: Seq<u8>) -> Seq<char>
    decreases bytes.len(),
{
    if bytes.len() == 0 {
        Seq::empty()
    } else {
        let b0 = bytes[0] as int;
        let b1 = if bytes.len() > 1 {
            bytes[1] as int
        } else {
            0
        };
        let b2 = if bytes.len() > 2 {
            bytes[2] as int
        } else {
            0
        };
        let group = seq![
            base64_char(b0 / 4),
            base64_char((b0 % 4) * 16 + b1 / 16),
            if bytes.len() > 1 {
                base64_char((b1 % 16) * 4 + b2 / 64)
            } else {
                '='
            },
            if bytes.len() > 2 {
                base64_char(b2 % 64)
            } else {
                '='
            },
        ];
        if bytes.len() <= 3 {
            group
        } else {
            group + base64_standard(bytes.subrange(3, bytes.len() as int))
        }
    }
}

/// Encodes with `base64::engine::general_purpose::STANDARD`: the result is
/// `base64_standard` of the bytes. The length bound keeps the size
/// computation of the crate, which panics on overflow, in range.
#[verifier::external_body]
fn base64_encode(bytes: &[u8]) -> (r: String)
    requires
        bytes@.len() <= 3 * (usize::MAX / 4),
    ensures
        r@ == base64_standard(bytes@),
{
    STANDARD.encode(bytes)
}

/// A copy of a path, by `PathBuf::clone`: the copy is the same path.
#[verifier::external_body]
fn clone_path(p: &PathBuf) -> (r: PathBuf)
    ensures
        r == *p,
{
    p.clone()
}

/// `v` shows the item `it`, as a pin when `pinned`: same id, time and
/// category; a text shows its first `PREVIEW_CHARS` characters; an image
/// shows its type and size.
pub open spec fn shows(v: ItemView, it: Item, pinned: bool) -> bool {
    &&& v.id == it.id
    &&& v.pinned == pinned
    &&& v.copied_at == it.copied_at
    &&& v.category == it.category
    &&& match it.kind {
        ItemKind::Text(t) => v.kind matches ItemKindView::Text { preview } && preview@ == take_chars(
            t@,
            PREVIEW_CHARS as nat,
        ),
        ItemKind::Image { mime, size_bytes, .. } => v.kind matches ItemKindView::Image {
            mime: m,
            size_bytes: n,
        } && m@ == mime@ && n == size_bytes,
    }
}

/// `views` lists the history: the pins first, then the recent items.
pub open spec fn lists(views: Seq<ItemView>, s: StackView) -> bool {
    &&& views.len() == s.1.len() + s.0.len()
    &&& forall|i: int| 0 <= i < s.1.len() ==> shows(#[trigger] views[i], s.1[i], true)
    &&& forall|j: int| 0 <= j < s.0.len() ==> shows(#[trigger] views[s.1.len() + j], s.0[j], false)
}

/// How an item is shown to the clients.
pub fn item_view(item: &Item, pinned: bool) -> (r: ItemView)
    ensures
        shows(r, *item, pinned),
{
    let kind = match &item.kind {
        ItemKind::Text(text) => ItemKindView::Text {
            preview: prefix_string(text.as_str(), PREVIEW_CHARS),
        },
        ItemKind::Image { mime, size_bytes, .. } => ItemKindView::Image {
            mime: mime.clone(),
            size_bytes: *size_bytes,
        },
    };
    ItemView { id: item.id, kind, pinned, copied_at: item.copied_at, category: item.category }
}

/// The listing of the history: the pins, then the recent items.
pub fn list_views(stack: &Stack) -> (r: Vec<ItemView>)
    ensures
        lists(r@, stack@),
{
    let mut r: Vec<ItemView> = Vec::new();
    let np = stack.pin_count();
    let mut i: usize = 0;
    while i < np
        invariant
            np == stack@.1.len(),
            i <= np,
            r@.len() == i,
            forall|k: int| 0 <= k < i ==> shows(#[trigger] r@[k], stack@.1[k], true),
        decreases np - i,
    {
        r.push(item_view(stack.pin_at(i), true));
        i = i + 1;
    }
    let ni = stack.item_count();
    let mut j: usize = 0;
    while j < ni
        invariant
            np == stack@.1.len(),
            ni == stack@.0.len(),
            j <= ni,
            r@.len() == np + j,
            forall|k: int| 0 <= k < np ==> shows(#[trigger] r@[k], stack@.1[k], true),
            forall|k: int| 0 <= k < j ==> shows(#[trigger] r@[np + k], stack@.0[k], false),
        decreases ni - j,
    {
        r.push(item_view(stack.item_at(j), false));
        proof {
            assert(r@[np + j as int] == r@.last());
        }
        j = j + 1;
    }
    r
}

/// `r` is an error answer with the message `m`.
pub open spec fn is_error(r: Response, m: Seq<char>) -> bool {
    r matches Response::Error { message } && message@ == m
}

/// The answer to a command on an id that is not in the history.
pub fn not_found() -> (r: Response)
    ensures
        is_error(r, "item não encontrado"@),
{
    Response::Error { message: owned("item não encontrado") }
}

fn pin_limit_reached() -> (r: Response)
    ensures
        is_error(r, "Máximo de 5 pins atingido — despine algo primeiro"@),
{
    Response::Error { message: owned("Máximo de 5 pins atingido — despine algo primeiro") }
}

fn not_pinned() -> (r: Response)
    ensures
        is_error(r, "item não está pinado"@),
{
    Response::Error { message: owned("item não está pinado") }
}

fn not_an_image() -> (r: Response)
    ensures
        is_error(r, "item não é uma imagem"@),
{
    Response::Error { message: owned("item não é uma imagem") }
}

/// `prefix` followed by `detail`, as an error answer.
fn error_with(prefix: &str, detail: &str) -> (r: Response)
    ensures
        is_error(r, prefix@ + detail@),
{
    let mut message = owned(prefix);
    push_str(&mut message, detail);
    Response::Error { message }
}

/// The answer to a line that is not a valid command; `detail` describes why.
pub fn invalid_command(detail: &str) -> (r: Response)
    ensures
        is_error(r, "comando inválido: "@ + detail@),
{
    error_with("comando inválido: ", detail)
}

/// The answer when the cached file of an image could not be read.
pub fn image_read_failed(detail: &str) -> (r: Response)
    ensures
        is_error(r, "falha lendo arquivo de imagem: "@ + detail@),
{
    error_with("falha lendo arquivo de imagem: ", detail)
}

/// The answer once the clipboard was written (`None`) or failed (`Some`, with
/// the reason).
pub fn clipboard_written(failure: Option<&str>) -> (r: Response)
    ensures
        match failure {
            None => r == Response::Ack,
            Some(detail) => is_error(r, "falha escrevendo no clipboard: "@ + detail@),
        },
{
    match failure {
        None => Response::Ack,
        Some(detail) => error_with("falha escrevendo no clipboard: ", detail),
    }
}

/// The answer carrying the bytes of an image, in Base64.
pub fn image_bytes(mime: String, bytes: &[u8]) -> (r: Response)
    requires
        bytes@.len() <= 3 * (usize::MAX / 4),
    ensures
        r matches Response::ImageBytes { mime: m, data_base64 } && m == mime && data_base64@
            == base64_standard(bytes@),
{
    Response::ImageBytes { mime, data_base64: base64_encode(bytes) }
}

/// What the program does to answer a command.
#[derive(Debug)]
pub enum CommandStep {
    /// Send the answer; nothing changed.
    Reply(Response),
    /// The history changed: save it, remove the cached file of `discarded`
    /// when it is an image, then send the answer.
    Changed { response: Response, discarded: Option<Item> },
    /// Write `text` to the clipboard, then answer with `clipboard_written`.
    CopyText(String),
    /// Read the image at `path`, write it to the clipboard as `mime`, then
    /// answer with `clipboard_written` (or `image_read_failed`).
    CopyImage { path: PathBuf, mime: String },
    /// Read the image at `path` and answer with `image_bytes` (or
    /// `image_read_failed`).
    SendImage { path: PathBuf, mime: String },
}

/// `step` sends the error answer with message `m`.
pub open spec fn replies_error(step: CommandStep, m: Seq<char>) -> bool {
    step matches CommandStep::Reply(r) && is_error(r, m)
}

/// `step` sends the listing of `s`.
pub open spec fn replies_listing(step: CommandStep, s: StackView) -> bool {
    step matches CommandStep::Reply(Response::Items(v)) && lists(v@, s)
}

/// `step` records a change and acknowledges it, discarding `discarded`.
pub open spec fn acks_change(step: CommandStep, discarded: Option<Item>) -> bool {
    step == (CommandStep::Changed { response: Response::Ack, discarded })
}

/// The step that copies the item `it` to the clipboard.
pub open spec fn copies(step: CommandStep, it: Item) -> bool {
    match it.kind {
        ItemKind::Text(t) => step matches CommandStep::CopyText(c) && c@ == t@,
        ItemKind::Image { path, mime, .. } => step matches CommandStep::CopyImage {
            path: p,
            mime: m,
        } && p == path && m@ == mime@,
    }
}

/// The step that sends the bytes of the item `it`, which must be an image.
pub open spec fn sends_image(step: CommandStep, it: Item) -> bool {
    match it.kind {
        ItemKind::Text(_) => replies_error(step, "item não é uma imagem"@),
        ItemKind::Image { path, mime, .. } => step matches CommandStep::SendImage {
            path: p,
            mime: m,
        } && p == path && m@ == mime@,
    }
}

/// The step for a command on a history `before` that became `after`.
pub open spec fn command_spec(before: StackView, cmd: Command, after: StackView, step: CommandStep) -> bool {
    match cmd {
        Command::List => after == before && replies_listing(step, before),
        Command::Delete { id } => match delete_spec(before, id) {
            (s, Some(removed)) => after == s && acks_change(step, Some(removed)),
            (_, None) => after == before && replies_error(step, "item não encontrado"@),
        },
        Command::Pin { id } => after == pin_spec(before, id).0 && match pin_spec(before, id).1 {
            Ok(()) => acks_change(step, None),
            Err(PinError::LimitReached) => replies_error(
                step,
                "Máximo de 5 pins atingido — despine algo primeiro"@,
            ),
            Err(PinError::NotFound) => replies_error(step, "item não encontrado"@),
        },
        Command::Unpin { id } => after == unpin_spec(before, id).0 && match unpin_spec(
            before,
            id,
        ).1 {
            UnpinOutcome::Unpinned { evicted } => acks_change(step, evicted),
            UnpinOutcome::NotPinned => replies_error(step, "item não está pinado"@),
        },
        Command::SetCategory { id, category } => after == set_category_spec(before, id, category).0
            && match set_category_spec(before, id, category).1 {
            Ok(()) => acks_change(step, None),
            Err(CategoryError::NotFound) => replies_error(step, "item não encontrado"@),
        },
        Command::CopyToClipboard { id } => after == before && match get_spec(before, id) {
            None => replies_error(step, "item não encontrado"@),
            Some(it) => copies(step, it),
        },
        Command::GetImageBytes { id } => after == before && match get_spec(before, id) {
            None => replies_error(step, "item não encontrado"@),
            Some(it) => sends_image(step, it),
        },
    }
}

/// Decides the answer to a command, changing the history as it asks.
pub fn handle_command(stack: &mut Stack, cmd: Command) -> (r: CommandStep)
    ensures
        command_spec(old(stack)@, cmd, final(stack)@, r),
{
    match cmd {
        Command::List => CommandStep::Reply(Response::Items(list_views(stack))),
        Command::Delete { id } => match stack.delete(id) {
            Some(removed) => CommandStep::Changed { response: Response::Ack, discarded: Some(removed) },
            None => CommandStep::Reply(not_found()),
        },
        Command::Pin { id } => match stack.pin(id) {
            Ok(()) => CommandStep::Changed { response: Response::Ack, discarded: None },
            Err(PinError::LimitReached) => CommandStep::Reply(pin_limit_reached()),
            Err(PinError::NotFound) => CommandStep::Reply(not_found()),
        },
        Command::Unpin { id } => match stack.unpin(id) {
            UnpinOutcome::Unpinned { evicted } => CommandStep::Changed {
                response: Response::Ack,
                discarded: evicted,
            },
            UnpinOutcome::NotPinned => CommandStep::Reply(not_pinned()),
        },
        Command::SetCategory { id, category } => match stack.set_category(id, category) {
            Ok(()) => CommandStep::Changed { response: Response::Ack, discarded: None },
            Err(CategoryError::NotFound) => CommandStep::Reply(not_found()),
        },
        Command::CopyToClipboard { id } => match stack.get(id) {
            None => CommandStep::Reply(not_found()),
            Some(item) => match &item.kind {
                ItemKind::Text(text) => CommandStep::CopyText(text.clone()),
                ItemKind::Image { path, mime, .. } => CommandStep::CopyImage {
                    path: clone_path(path),
                    mime: mime.clone(),
                },
            },
        },
        Command::GetImageBytes { id } => match stack.get(id) {
            None => CommandStep::Reply(not_found()),
            Some(item) => match &item.kind {
                ItemKind::Text(_) => CommandStep::Reply(not_an_image()),
                ItemKind::Image { path, mime, .. } => CommandStep::SendImage {
                    path: clone_path(path),
                    mime: mime.clone(),
                },
            },
        },
    }
}

/// `after` is `before` once the text `text` was copied at time `t`: the text
/// is pushed (touching a known content, or inserting `fresh` on top); a newly
/// inserted item gets the category detected from the text. `evicted` is the
/// item that the insertion pushed off the full list, if any.
pub open spec fn record_text_spec(
    before: StackView,
    text: String,
    t: SystemTime,
    fresh: Item,
    after: StackView,
    evicted: Option<Item>,
) -> bool {
    let (pushed, outcome) = push_text_spec(before, text_hash(text@), t, fresh);
    if outcome == PushOutcome::Inserted {
        &&& after == set_category_spec(pushed, pushed.0[0].id, detect_spec(text@)).0
        &&& evicted == insert_spec(before, fresh).1
    } else {
        &&& after == pushed
        &&& evicted is None
    }
}

/// Records a text copied to the clipboard; returns the item evicted to make
/// room, whose cached file (for an image) the caller removes.
pub fn record_text(stack: &mut Stack, text: String) -> (r: Option<Item>)
    ensures
        exists|t: SystemTime, fresh: Item|
            is_new_text_item(fresh, text) && #[trigger] record_text_spec(
                old(stack)@,
                text,
                t,
                fresh,
                final(stack)@,
                r,
            ),
{
    let category = detect(text.as_str());
    let hash = content_hash(text.as_str().as_bytes());
    let now = current_time();
    let ghost text_copy = text;
    let ghost before = stack@;
    if stack.touch_at(&hash, now) {
        let ghost fresh = Item {
            id: ItemId(0),
            kind: ItemKind::Text(text),
            content_hash: hash,
            copied_at: now,
            category: Category::Outro,
        };
        assert(is_new_text_item(fresh, text_copy));
        assert(record_text_spec(before, text_copy, now, fresh, stack@, None));
        None
    } else {
        let item = Item::new_text(text);
        let ghost fresh = item;
        let evicted = stack.insert(item);
        proof {
            lemma_inserted_on_top(before, text_hash(text_copy@), now, fresh);
        }
        let id = stack.item_at(0).id;
        let _ = stack.set_category(id, category);
        assert(record_text_spec(before, text_copy, now, fresh, stack@, evicted));
        evicted
    }
}

proof fn lemma_inserted_on_top(s: StackView, h: Seq<u8>, t: SystemTime, fresh: Item)
    requires
        push_text_spec(s, h, t, fresh).1 == PushOutcome::Inserted,
    ensures
        push_text_spec(s, h, t, fresh).0.0.len() > 0,
        push_text_spec(s, h, t, fresh).0.0[0] == fresh,
{
    crate::stack_laws::law_insert(s, fresh);
}

/// A copied image: its hash when its content is new to the history, or
/// `None` when an item with that content was touched instead.
pub fn observe_image(stack: &mut Stack, bytes: &[u8]) -> (r: Option<[u8; 32]>)
    ensures
        exists|t: SystemTime|
            {
                let (touched, found) = #[trigger] touch_spec(old(stack)@, sha256(bytes@), t);
                &&& final(stack)@ == touched
                &&& found <==> r is None
            },
        r matches Some(h) ==> h@ == sha256(bytes@),
{
    let hash = content_hash(bytes);
    if stack.touch(&hash) {
        None
    } else {
        Some(hash)
    }
}

/// Records a new image, already saved in the cache at `path`, with the
/// category `Imagem`; returns the item evicted to make room, if any.
pub fn record_image(
    stack: &mut Stack,
    path: PathBuf,
    mime: String,
    size_bytes: u64,
    hash: [u8; 32],
) -> (r: Option<Item>)
    ensures
        exists|it: Item|
            {
                &&& it.kind == (ItemKind::Image { path, mime, size_bytes })
                &&& it.content_hash == hash
                &&& it.category == Category::Imagem
                &&& (final(stack)@, r) == #[trigger] insert_spec(old(stack)@, it)
            },
{
    let mut item = Item::new_image(path, mime, size_bytes, hash);
    item.category = Category::Imagem;
    let ghost it = item;
    let ghost before = stack@;
    let r = stack.insert(item);
    assert((stack@, r) == insert_spec(before, it));
    r
}

/// Every command keeps the history within its limits: at most `MAX_ITEMS`
/// recent items and at most `MAX_PINS` pins.
pub proof fn law_command_keeps_limits(before: StackView, cmd: Command, after: StackView, step: CommandStep)
    requires
        within_limits(before),
        command_spec(before, cmd, after, step),
    ensures
        within_limits(after),
{
    match cmd {
        Command::Delete { id } => law_delete(before, id),
        Command::Pin { id } => law_pin(before, id),
        Command::Unpin { id } => law_unpin(before, id),
        Command::SetCategory { id, category } => law_set_category_keeps_sizes(before, id, category),
        _ => {},
    }
}

/// Recording a copied text keeps the history within its limits, and the text
/// is then in the history.
pub proof fn law_record_text(
    before: StackView,
    text: String,
    t: SystemTime,
    fresh: Item,
    after: StackView,
    evicted: Option<Item>,
)
    requires
        is_new_text_item(fresh, text),
        record_text_spec(before, text, t, fresh, after, evicted),
    ensures
        within_limits(before) ==> within_limits(after),
        any_item(after.0, has_hash(text_hash(text@))) || any_item(after.1, has_hash(text_hash(text@))),
        hashes_distinct(before) ==> hashes_distinct(after),
{
    let (pushed, outcome) = push_text_spec(before, text_hash(text@), t, fresh);
    law_push_text(before, text, t, fresh);
    law_push_text_keeps_hashes_distinct(before, text, t, fresh);
    if outcome == PushOutcome::Inserted {
        law_set_category_keeps_hashes_distinct(pushed, pushed.0[0].id, detect_spec(text@));
    }
    if outcome == PushOutcome::Inserted {
        lemma_inserted_on_top(before, text_hash(text@), t, fresh);
        let id = pushed.0[0].id;
        law_set_category_keeps_sizes(pushed, id, detect_spec(text@));
        lemma_first_index(pushed.0, has_id(id));
        assert(is_first(pushed.0, has_id(id), 0));
        lemma_first_index_is(pushed.0, has_id(id), 0);
        assert(has_hash(text_hash(text@))(after.0[0]));
    }
}

/// Every command keeps the content hashes of the history unique.
pub proof fn law_command_keeps_hashes_distinct(
    before: StackView,
    cmd: Command,
    after: StackView,
    step: CommandStep,
)
    requires
        hashes_distinct(before),
        command_spec(before, cmd, after, step),
    ensures
        hashes_distinct(after),
{
    match cmd {
        Command::Delete { id } => law_delete_keeps_hashes_distinct(before, id),
        Command::Pin { id } => law_pin_keeps_hashes_distinct(before, id),
        Command::Unpin { id } => law_unpin_keeps_hashes_distinct(before, id),
        Command::SetCategory { id, category } => law_set_category_keeps_hashes_distinct(
            before,
            id,
            category,
        ),
        _ => {},
    }
}

/// Observing a copied image (which touches a known content) and, when it was
/// new, recording it keep the content hashes of the history unique.
pub proof fn law_image_keeps_hashes_distinct(before: StackView, bytes: Seq<u8>, t: SystemTime, it: Item)
    requires
        it.content_hash@ == sha256(bytes),
    ensures
        hashes_distinct(before) ==> hashes_distinct(touch_spec(before, sha256(bytes), t).0),
        hashes_distinct(before) && !touch_spec(before, sha256(bytes), t).1 ==> hashes_distinct(
            insert_spec(touch_spec(before, sha256(bytes), t).0, it).0,
        ),
{
    let h = sha256(bytes);
    law_touch_keeps_hashes_distinct(before, h, t);
    law_touch_finds_known_content(before, h, t);
    if hashes_distinct(before) && !touch_spec(before, h, t).1 {
        lemma_first_index(before.0, has_hash(h));
        lemma_first_index(before.1, has_hash(h));
        law_insert_new_content_keeps_hashes_distinct(before, it);
    }
}

/// Recording a new image keeps the history within its limits.
pub proof fn law_record_image(before: StackView, it: Item)
    ensures
        within_limits(before) ==> within_limits(insert_spec(before, it).0),
{
    law_insert(before, it);
}

// ---------------------------------------------------------------------------
// What recording a copied text does, item by item

/// Copying again a text whose content a recent item holds moves that item,
/// with the new time, to the top of the recent items: their number stays, the
/// others keep their order, the pins stay, and nothing is evicted.
pub proof fn law_record_known_text_moves_to_top(
    before: StackView,
    text: String,
    t: SystemTime,
    fresh: Item,
    after: StackView,
    evicted: Option<Item>,
    p: int,
)
    requires
        is_new_text_item(fresh, text),
        record_text_spec(before, text, t, fresh, after, evicted),
        0 <= p < before.0.len(),
        before.0[p].content_hash@ == text_hash(text@),
        forall|j: int| 0 <= j < p ==> (#[trigger] before.0[j]).content_hash@ != text_hash(text@),
    ensures
        after.0.len() == before.0.len(),
        after.0[0] == (Item { copied_at: t, ..before.0[p] }),
        after.0.subrange(1, after.0.len() as int) == before.0.remove(p),
        after.1 == before.1,
        evicted is None,
{
    let h = text_hash(text@);
    assert(is_first(before.0, has_hash(h), p));
    lemma_first_index_is(before.0, has_hash(h), p);
    let moved = seq![Item { copied_at: t, ..before.0[p] }] + before.0.remove(p);
    assert(after.0 == moved);
    assert(moved.subrange(1, moved.len() as int) =~= before.0.remove(p));
}

/// Copying again a text whose content only a pin holds gives that pin the
/// new time, in its place; the recent items stay and nothing is evicted.
pub proof fn law_record_known_pinned_text_gets_new_time(
    before: StackView,
    text: String,
    t: SystemTime,
    fresh: Item,
    after: StackView,
    evicted: Option<Item>,
    q: int,
)
    requires
        is_new_text_item(fresh, text),
        record_text_spec(before, text, t, fresh, after, evicted),
        forall|j: int| 0 <= j < before.0.len() ==> (#[trigger] before.0[j]).content_hash@ != text_hash(text@),
        0 <= q < before.1.len(),
        before.1[q].content_hash@ == text_hash(text@),
        forall|j: int| 0 <= j < q ==> (#[trigger] before.1[j]).content_hash@ != text_hash(text@),
    ensures
        after.0 == before.0,
        after.1 == before.1.update(q, Item { copied_at: t, ..before.1[q] }),
        evicted is None,
{
    let h = text_hash(text@);
    assert forall|j: int| 0 <= j < before.0.len() implies !has_hash(h)(#[trigger] before.0[j]) by {}
    lemma_first_index(before.0, has_hash(h));
    assert(is_first(before.1, has_hash(h), q));
    lemma_first_index_is(before.1, has_hash(h), q);
}

/// A text whose content the history does not hold goes on top of the recent
/// items, as a text item of that content with the category detected from it;
/// the recent items follow in their order, the oldest one evicted when there
/// were already `MAX_ITEMS`; the pins stay.
pub proof fn law_record_new_text_goes_on_top(
    before: StackView,
    text: String,
    t: SystemTime,
    fresh: Item,
    after: StackView,
    evicted: Option<Item>,
)
    requires
        is_new_text_item(fresh, text),
        record_text_spec(before, text, t, fresh, after, evicted),
        forall|j: int| 0 <= j < before.0.len() ==> (#[trigger] before.0[j]).content_hash@ != text_hash(text@),
        forall|j: int| 0 <= j < before.1.len() ==> (#[trigger] before.1[j]).content_hash@ != text_hash(text@),
    ensures
        after.0.len() > 0,
        after.0[0].kind == ItemKind::Text(text),
        after.0[0].content_hash@ == text_hash(text@),
        after.0[0].category == detect_spec(text@),
        after.1 == before.1,
        if before.0.len() >= MAX_ITEMS {
            &&& after.0.subrange(1, after.0.len() as int) == before.0.drop_last()
            &&& evicted == Some(before.0.last())
        } else {
            &&& after.0.subrange(1, after.0.len() as int) == before.0
            &&& evicted is None
        },
{
    let h = text_hash(text@);
    assert forall|j: int| 0 <= j < before.0.len() implies !has_hash(h)(#[trigger] before.0[j]) by {}
    assert forall|j: int| 0 <= j < before.1.len() implies !has_hash(h)(#[trigger] before.1[j]) by {}
    lemma_first_index(before.0, has_hash(h));
    lemma_first_index(before.1, has_hash(h));
    let pushed = insert_spec(before, fresh).0;
    lemma_inserted_on_top(before, h, t, fresh);
    assert(is_first(pushed.0, has_id(fresh.id), 0));
    lemma_first_index_is(pushed.0, has_id(fresh.id), 0);
    let grown = seq![fresh] + before.0;
    assert(after.0 == pushed.0.update(0, with_category(fresh, detect_spec(text@))));
    if before.0.len() >= MAX_ITEMS {
        assert(grown.drop_last().subrange(1, grown.len() - 1) =~= before.0.drop_last());
        assert(grown.last() == before.0.last());
    } else {
        assert(grown.subrange(1, grown.len() as int) =~= before.0);
    }
    assert(after.0.subrange(1, after.0.len() as int) =~= pushed.0.subrange(1, pushed.0.len() as int));
}

// ---------------------------------------------------------------------------
// What the clients are shown and given back

/// The preview of a listed text is its beginning: its first
/// `PREVIEW_CHARS` characters, or all of it when it is shorter.
pub proof fn law_preview_is_prefix(v: ItemView, it: Item, pinned: bool)
    requires
        shows(v, it, pinned),
    ensures
        match it.kind {
            ItemKind::Text(t) => v.kind matches ItemKindView::Text { preview } && {
                &&& preview@.len() == if t@.len() < PREVIEW_CHARS {
                    t@.len() as int
                } else {
                    PREVIEW_CHARS as int
                }
                &&& forall|k: int| 0 <= k < preview@.len() ==> preview@[k] == t@[k]
            },
            ItemKind::Image { .. } => v.kind is Image,
        },
{
}

/// Copying an item back asks to write exactly what it holds: all of its
/// text, or the file of its image with its type; the history stays.
pub proof fn law_copy_writes_stored_content(
    before: StackView,
    id: ItemId,
    after: StackView,
    step: CommandStep,
    it: Item,
)
    requires
        command_spec(before, Command::CopyToClipboard { id }, after, step),
        get_spec(before, id) == Some(it),
    ensures
        after == before,
        match it.kind {
            ItemKind::Text(t) => step matches CommandStep::CopyText(c) && c@.len() == t@.len() && forall|
                k: int,
            | 0 <= k < t@.len() ==> c@[k] == t@[k],
            ItemKind::Image { path, mime, .. } => step matches CommandStep::CopyImage { path: p, mime: m }
                && p == path && m@ == mime@,
        },
{
}

/// A new text, once recorded, is copied back from the top of the history
/// whole and unchanged.
pub proof fn law_copy_back_recorded_text(
    before: StackView,
    text: String,
    t: SystemTime,
    fresh: Item,
    mid: StackView,
    evicted: Option<Item>,
    after: StackView,
    step: CommandStep,
)
    requires
        is_new_text_item(fresh, text),
        record_text_spec(before, text, t, fresh, mid, evicted),
        forall|j: int| 0 <= j < before.0.len() ==> (#[trigger] before.0[j]).content_hash@ != text_hash(text@),
        forall|j: int| 0 <= j < before.1.len() ==> (#[trigger] before.1[j]).content_hash@ != text_hash(text@),
        mid.0.len() > 0,
        command_spec(mid, Command::CopyToClipboard { id: mid.0[0].id }, after, step),
    ensures
        step matches CommandStep::CopyText(c) && c@ == text@,
        after == mid,
{
    law_record_new_text_goes_on_top(before, text, t, fresh, mid, evicted);
    let id = mid.0[0].id;
    assert(is_first(mid.0, has_id(id), 0));
    lemma_first_index_is(mid.0, has_id(id), 0);
}

/// The listing shows every item once, the pins first in their order and
/// marked as pins, then the recent items in their order, not marked.
pub proof fn law_listing_order(views: Seq<ItemView>, s: StackView)
    requires
        lists(views, s),
    ensures
        views.len() == s.1.len() + s.0.len(),
        forall|i: int| 0 <= i < s.1.len() ==> (#[trigger] views[i]).id == s.1[i].id && views[i].pinned,
        forall|j: int|
            0 <= j < s.0.len() ==> (#[trigger] views[s.1.len() + j]).id == s.0[j].id && !views[s.1.len()
                + j].pinned,
{
}

/// A listed item keeps the id, time and category of the history's item, is
/// marked as a pin exactly when listed among the pins, and an image shows its
/// own type and size.
pub proof fn law_view_keeps_item_fields(v: ItemView, it: Item, pinned: bool)
    requires
        shows(v, it, pinned),
    ensures
        v.id == it.id,
        v.copied_at == it.copied_at,
        v.category == it.category,
        v.pinned == pinned,
        match it.kind {
            ItemKind::Image { mime, size_bytes, .. } => v.kind matches ItemKindView::Image {
                mime: m,
                size_bytes: n,
            } && m@ == mime@ && n == size_bytes,
            ItemKind::Text(_) => v.kind is Text,
        },
{
}

/// Asking for the bytes of an item gives the file and type of an image, and
/// an error for a text or an unknown id; the history stays.
pub proof fn law_image_request(before: StackView, id: ItemId, after: StackView, step: CommandStep)
    requires
        command_spec(before, Command::GetImageBytes { id }, after, step),
    ensures
        after == before,
        match get_spec(before, id) {
            None => step matches CommandStep::Reply(r) && r is Error,
            Some(it) => match it.kind {
                ItemKind::Image { path, mime, .. } => step matches CommandStep::SendImage {
                    path: p,
                    mime: m,
                } && p == path && m@ == mime@,
                ItemKind::Text(_) => step matches CommandStep::Reply(r) && r is Error,
            },
        },
{
}

} // verus!
