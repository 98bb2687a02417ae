//! Heuristic category of copied text.
use vstd::prelude::*;

use crate::protocol::Category;
use crate::text::{
    chars_of, contains_char, contains_char_exec, contains_chars, contains_seq, starts_with,
    starts_with_chars, trim, trim_chars,
};

verus! {

/// Text that mentions `fn `, `def `, `{` or `;` is taken for code.
pub open spec fn looks_like_code_spec(t: Seq<char>) -> bool {
    ||| contains_seq(t, seq!['f', 'n', ' '])
    ||| contains_seq(t, seq!['d', 'e', 'f', ' '])
    ||| contains_char(t, '{')
    ||| contains_char(t, ';')
}

/// The category of a copied text: a URL when the trimmed text starts with
/// `http://` or `https://`, code when it looks like code, and otherwise `Outro`.
pub open spec fn detect_spec(text: Seq<char>) -> Category {
    let t = trim(text);
    if starts_with(t, seq!['h', 't', 't', 'p', ':', '/', '/']) || starts_with(
        t,
        seq!['h', 't', 't', 'p', 's', ':', '/', '/'],
    ) {
        Category::Url
    } else if looks_like_code_spec(t) {
        Category::Codigo
    } else {
        Category::Outro
    }
}

/// Categorizes a copied text.
pub fn detect(text: &str) -> (r: Category)
    ensures
        r == detect_spec(text@),
{
    let all = chars_of(text);
    let trimmed = trim_chars(&all);
    let http = vec!['h', 't', 't', 'p', ':', '/', '/'];
    let https = vec!['h', 't', 't', 'p', 's', ':', '/', '/'];
    assert(http@ == seq!['h', 't', 't', 'p', ':', '/', '/']);
    assert(https@ == seq!['h', 't', 't', 'p', 's', ':', '/', '/']);
    if starts_with_chars(&trimmed, &http) || starts_with_chars(&trimmed, &https) {
        return Category::Url;
    }
    if looks_like_code_chars(&trimmed) {
        return Category::Codigo;
    }
    Category::Outro
}

/// Whether `text` looks like code.
pub fn looks_like_code(text: &str) -> (r: bool)
    ensures
        r == looks_like_code_spec(text@),
{
    let chars = chars_of(text);
    looks_like_code_chars(&chars)
}

fn looks_like_code_chars(text: &Vec<char>) -> (r: bool)
    ensures
        r == looks_like_code_spec(text@),
{
    let fn_kw = vec!['f', 'n', ' '];
    let def_kw = vec!['d', 'e', 'f', ' '];
    assert(fn_kw@ == seq!['f', 'n', ' ']);
    assert(def_kw@ == seq!['d', 'e', 'f', ' ']);
    contains_chars(text, &fn_kw) || contains_chars(text, &def_kw) || contains_char_exec(text, '{')
        || contains_char_exec(text, ';')
}

} // verus!
