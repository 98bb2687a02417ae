//! The framing of the protocol: one JSON message per line. The program turns
//! messages into JSON and back and moves the bytes.
use vstd::prelude::*;

use crate::text::{chars_of, string_from, trim, trim_end};

verus! {

/// A message on the wire: its bytes followed by a newline.
pub fn frame(payload: Vec<u8>) -> (r: Vec<u8>)
    ensures
        r@ == payload@.push(10u8),
{
    let mut r = payload;
    r.push(10u8);
    r
}

/// A received line that holds nothing but whitespace is skipped.
pub fn is_blank(line: &str) -> (r: bool)
    ensures
        r == (trim(line@).len() == 0),
{
    let v = chars_of(line);
    crate::text::trim_chars(&v).len() == 0
}

/// The text of the answer read from the daemon: `None` when the connection
/// closed before a line came (nothing was read), else the line without its
/// trailing whitespace.
pub fn answer_line(bytes_read: usize, line: &str) -> (r: Option<String>)
    ensures
        match r {
            None => bytes_read == 0,
            Some(s) => bytes_read != 0 && s@ == trim_end(line@),
        },
{
    if bytes_read == 0 {
        return None;
    }
    let v = chars_of(line);
    Some(string_from(&crate::text::trim_end_chars(&v)))
}

} // verus!
