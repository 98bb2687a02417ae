//! What the clipboard watcher decides: which offered type to read, and how
//! long to wait before reconnecting. The program talks to the compositor.
use vstd::prelude::*;
use vstd::utf8::{decode_utf8, valid_utf8};

use crate::text::str_eq;

verus! {

/// A change of the clipboard content.
pub enum ClipboardChange {
    /// Plain text content.
    Text(String),
    /// Image content, with its MIME type.
    Image { bytes: Vec<u8>, mime: String },
}

/// What kind of content a chosen MIME type holds.
#[derive(Debug, Clone, Copy, PartialEq, Eq, Structural)]
pub enum ContentKind {
    Text,
    Image,
}

/// Some offered type is `m`.
pub open spec fn offered(offers: Seq<String>, m: Seq<char>) -> bool {
    exists|i: int| 0 <= i < offers.len() && (#[trigger] offers[i])@ == m
}

/// The type to read from an offer: the text types first, in the order
/// `text/plain`, `text/plain;charset=utf-8`, `UTF8_STRING`, then the image
/// types `image/png`, `image/jpeg`; none when nothing known is offered.
pub open spec fn choose_mime_spec(offers: Seq<String>) -> Option<(ContentKind, Seq<char>)> {
    if offered(offers, "text/plain"@) {
        Some((ContentKind::Text, "text/plain"@))
    } else if offered(offers, "text/plain;charset=utf-8"@) {
        Some((ContentKind::Text, "text/plain;charset=utf-8"@))
    } else if offered(offers, "UTF8_STRING"@) {
        Some((ContentKind::Text, "UTF8_STRING"@))
    } else if offered(offers, "image/png"@) {
        Some((ContentKind::Image, "image/png"@))
    } else if offered(offers, "image/jpeg"@) {
        Some((ContentKind::Image, "image/jpeg"@))
    } else {
        None
    }
}

/// Whether some offered type is `m`.
pub fn is_offered(offers: &Vec<String>, m: &str) -> (r: bool)
    ensures
        r == offered(offers@, m@),
{
    let mut i: usize = 0;
    while i < offers.len()
        invariant
            i <= offers@.len(),
            forall|j: int| 0 <= j < i ==> (#[trigger] offers@[j])@ != m@,
        decreases offers@.len() - i,
    {
        if str_eq(offers[i].as_str(), m) {
            return true;
        }
        i = i + 1;
    }
    false
}

/// The type to read from an offer, and what kind of content it holds.
pub fn choose_mime(offers: &Vec<String>) -> (r: Option<(ContentKind, &'static str)>)
    ensures
        match r {
            Some((kind, m)) => choose_mime_spec(offers@) == Some((kind, m@)),
            None => choose_mime_spec(offers@) is None,
        },
{
    if is_offered(offers, "text/plain") {
        Some((ContentKind::Text, "text/plain"))
    } else if is_offered(offers, "text/plain;charset=utf-8") {
        Some((ContentKind::Text, "text/plain;charset=utf-8"))
    } else if is_offered(offers, "UTF8_STRING") {
        Some((ContentKind::Text, "UTF8_STRING"))
    } else if is_offered(offers, "image/png") {
        Some((ContentKind::Image, "image/png"))
    } else if is_offered(offers, "image/jpeg") {
        Some((ContentKind::Image, "image/jpeg"))
    } else {
        None
    }
}

/// The characters that `String::from_utf8_lossy` makes of `bytes`.
pub uninterp spec fn utf8_lossy(bytes: Seq<u8>) -> Seq<char>;

/// `String::from_utf8_lossy`; its result is named `utf8_lossy`. For valid
/// UTF-8 the documentation gives the result: the text that the bytes encode.
/// What replaces invalid sequences is left to the name.
#[verifier::external_body]
fn decode_text(bytes: &[u8]) -> (r: String)
    ensures
        r@ == utf8_lossy(bytes@),
        valid_utf8(bytes@) ==> r@ == decode_utf8(bytes@),
{
    String::from_utf8_lossy(bytes).into_owned()
}

/// The change made of the bytes read for a chosen type: text is decoded
/// (invalid UTF-8 replaced), an image keeps its bytes and type.
pub fn change_from(kind: ContentKind, bytes: Vec<u8>, mime: String) -> (r: ClipboardChange)
    ensures
        match kind {
            ContentKind::Text => r matches ClipboardChange::Text(t) && t@ == utf8_lossy(bytes@) && (
            valid_utf8(bytes@) ==> t@ == decode_utf8(bytes@)),
            ContentKind::Image => r matches ClipboardChange::Image { bytes: b, mime: m } && b@
                == bytes@ && m == mime,
        },
{
    match kind {
        ContentKind::Text => ClipboardChange::Text(decode_text(bytes.as_slice())),
        ContentKind::Image => ClipboardChange::Image { bytes, mime },
    }
}

/// The waits between reconnection attempts, in seconds; the last one repeats.
pub open spec fn reconnect_delay_spec(attempt: nat) -> u64 {
    if attempt == 0 {
        1
    } else if attempt == 1 {
        2
    } else if attempt == 2 {
        5
    } else {
        30
    }
}

/// The wait before reconnection attempt number `attempt` (from 0).
pub fn reconnect_delay_secs(attempt: usize) -> (r: u64)
    ensures
        r == reconnect_delay_spec(attempt as nat),
{
    if attempt == 0 {
        1
    } else if attempt == 1 {
        2
    } else if attempt == 2 {
        5
    } else {
        30
    }
}

/// The waits never shrink from one attempt to the next, and never exceed 30
/// seconds.
pub proof fn law_backoff_grows_to_cap(a: nat, b: nat)
    requires
        a <= b,
    ensures
        reconnect_delay_spec(a) <= reconnect_delay_spec(b),
        reconnect_delay_spec(b) <= 30,
{
}

/// Where the reconnection loop stands: whether a connection was ever made,
/// and how many reconnection attempts failed since the last one.
#[derive(Debug, Clone, Copy, PartialEq, Eq, Structural)]
pub struct ReconnectState {
    pub ever_connected: bool,
    pub attempt: usize,
}

/// What happened to the connection to the compositor.
#[derive(Debug, Clone, Copy, PartialEq, Eq, Structural)]
pub enum WatchEvent {
    /// The data-control device was created.
    Connected,
    /// The connection failed or dropped.
    Disconnected,
}

/// What the loop does next.
#[derive(Debug, Clone, Copy, PartialEq, Eq, Structural)]
pub enum WatchAction {
    /// Keep watching.
    Continue,
    /// The very first connection failed: report it and stop the daemon.
    GiveUp,
    /// Wait this many seconds, then connect again.
    RetryAfter(u64),
}

/// The next state and action: a connection resets the attempts; a failure
/// before any connection gives up; a later one waits the delay of the current
/// attempt and counts it.
pub open spec fn watch_step_spec(s: ReconnectState, e: WatchEvent) -> (ReconnectState, WatchAction) {
    match e {
        WatchEvent::Connected => (ReconnectState { ever_connected: true, attempt: 0 }, WatchAction::Continue),
        WatchEvent::Disconnected => if !s.ever_connected {
            (s, WatchAction::GiveUp)
        } else {
            (
                ReconnectState {
                    ever_connected: true,
                    attempt: if s.attempt < usize::MAX {
                        (s.attempt + 1) as usize
                    } else {
                        s.attempt
                    },
                },
                WatchAction::RetryAfter(reconnect_delay_spec(s.attempt as nat)),
            )
        },
    }
}

/// Decides what the watcher loop does after an event.
pub fn watch_step(s: ReconnectState, e: WatchEvent) -> (r: (ReconnectState, WatchAction))
    ensures
        r == watch_step_spec(s, e),
{
    match e {
        WatchEvent::Connected => (ReconnectState { ever_connected: true, attempt: 0 }, WatchAction::Continue),
        WatchEvent::Disconnected => if !s.ever_connected {
            (s, WatchAction::GiveUp)
        } else {
            let delay = reconnect_delay_secs(s.attempt);
            let next = if s.attempt < usize::MAX {
                s.attempt + 1
            } else {
                s.attempt
            };
            (ReconnectState { ever_connected: true, attempt: next }, WatchAction::RetryAfter(delay))
        },
    }
}

} // verus!
