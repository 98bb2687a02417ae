//! What the daemon stores on disk: the history snapshot and the image cache
//! file names. Reading and writing the files is left to the program.
use std::collections::VecDeque;

use vstd::prelude::*;

use crate::stack::{Item, Stack};
use crate::text::{push_char, push_str, str_eq};

verus! {

broadcast use vstd::std_specs::vecdeque::group_vec_dequeue_axioms;

/// The history as it is stored: recent items, most recent first, then pins.
pub struct StackSnapshot {
    pub items: Vec<Item>,
    pub pins: Vec<Item>,
}

/// The history loaded from disk: the snapshot when one could be read and
/// parsed, else an empty history (a missing or corrupted file never stops the
/// daemon).
pub fn restore(snapshot: Option<StackSnapshot>) -> (r: Stack)
    ensures
        match snapshot {
            Some(snap) => r@.0 == snap.items@ && r@.1 == snap.pins@,
            None => r@.0.len() == 0 && r@.1.len() == 0,
        },
{
    match snapshot {
        Some(snap) => {
            let StackSnapshot { items, pins } = snap;
            let ghost expected = items@;
            let mut deque: VecDeque<Item> = VecDeque::new();
            for x in it: items.into_iter()
                invariant
                    it.seq() == expected,
                    deque@ == it.seq().take(it.index() as int),
            {
                assert(it.seq().take(it.index() + 1) == it.seq().take(it.index() as int).push(x));
                deque.push_back(x);
            }
            assert(deque@ =~= expected);
            Stack::from_parts(deque, pins)
        },
        None => Stack::new(),
    }
}

/// The file extension under which an image of type `mime` is cached.
pub open spec fn extension_spec(mime: Seq<char>) -> Seq<char> {
    if mime == "image/png"@ {
        "png"@
    } else if mime == "image/jpeg"@ {
        "jpg"@
    } else {
        "bin"@
    }
}

/// The file extension under which an image of type `mime` is cached.
pub fn extension_for_mime(mime: &str) -> (r: &'static str)
    ensures
        r@ == extension_spec(mime@),
{
    if str_eq(mime, "image/png") {
        "png"
    } else if str_eq(mime, "image/jpeg") {
        "jpg"
    } else {
        "bin"
    }
}

/// The lower-case hexadecimal digit of `d` (below 16).
pub open spec fn hex_digit(d: u8) -> char {
    if d < 10 {
        (('0' as u8) + d) as char
    } else {
        (('a' as u8) + d - 10) as char
    }
}

/// Two lower-case hexadecimal digits per byte.
pub open spec fn hex_spec(bytes: Seq<u8>) -> Seq<char>
    decreases bytes.len(),
{
    if bytes.len() == 0 {
        Seq::empty()
    } else {
        hex_spec(bytes.drop_last()) + seq![
            hex_digit(bytes.last() / 16),
            hex_digit(bytes.last() % 16),
        ]
    }
}

fn hex_char(d: u8) -> (r: char)
    requires
        d < 16,
    ensures
        r == hex_digit(d),
{
    if d < 10 {
        (48u8 + d) as char
    } else {
        (87u8 + d) as char
    }
}

/// The bytes in lower-case hexadecimal, two digits per byte.
pub fn hex_encode(bytes: &[u8]) -> (r: String)
    ensures
        r@ == hex_spec(bytes@),
{
    let mut r = String::new();
    let mut i: usize = 0;
    while i < bytes.len()
        invariant
            i <= bytes@.len(),
            r@ == hex_spec(bytes@.take(i as int)),
        decreases bytes@.len() - i,
    {
        let b = bytes[i];
        push_char(&mut r, hex_char(b / 16));
        push_char(&mut r, hex_char(b % 16));
        assert(bytes@.take(i + 1).drop_last() == bytes@.take(i as int));
        i = i + 1;
    }
    assert(bytes@.take(bytes@.len() as int) == bytes@);
    r
}

/// The name of the cache file of an image: its hash in hexadecimal, a dot,
/// and the extension of its type.
pub fn image_file_name(hash: &[u8; 32], mime: &str) -> (r: String)
    ensures
        r@ == hex_spec(hash@) + seq!['.'] + extension_spec(mime@),
{
    let mut name = hex_encode(hash);
    push_char(&mut name, '.');
    push_str(&mut name, extension_for_mime(mime));
    name
}

} // verus!
