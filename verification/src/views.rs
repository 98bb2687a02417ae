//! How the clients render an item as one line of text.
use vstd::prelude::*;

use crate::protocol::{ItemKindView, ItemView};
use crate::text::{
    after_last_slash, chars_of, decimal, decimal_string, last_segment, owned, prefix_string, push_char,
    push_str, to_uppercase, uppercase,
};

verus! {

/// Characters of a text shown on one line before it is cut.
pub const LINE_CHARS: usize = 60;

/// The line shown for an item: a text (cut to `LINE_CHARS` characters and an
/// ellipsis unless `full`), or the type and size in KB of an image.
pub open spec fn render_spec(v: ItemView, full: bool) -> Seq<char> {
    match v.kind {
        ItemKindView::Text { preview } => if full || preview@.len() <= LINE_CHARS {
            preview@
        } else {
            preview@.take(LINE_CHARS as int).push('…')
        },
        ItemKindView::Image { mime, size_bytes } => "[Imagem "@ + uppercase(after_last_slash(mime@))
            + ", "@ + decimal((size_bytes / 1024) as nat) + "KB]"@,
    }
}

/// The line shown for an item.
pub fn render_content(item: &ItemView, full: bool) -> (r: String)
    ensures
        r@ == render_spec(*item, full),
{
    match &item.kind {
        ItemKindView::Text { preview } => {
            if full {
                return preview.clone();
            }
            let mut truncated = prefix_string(preview.as_str(), LINE_CHARS);
            if chars_of(preview.as_str()).len() > LINE_CHARS {
                push_char(&mut truncated, '…');
            }
            truncated
        },
        ItemKindView::Image { mime, size_bytes } => {
            let kb = *size_bytes / 1024;
            let format = to_uppercase(last_segment(mime.as_str()).as_str());
            let mut line = owned("[Imagem ");
            push_str(&mut line, format.as_str());
            push_str(&mut line, ", ");
            push_str(&mut line, decimal_string(kb).as_str());
            push_str(&mut line, "KB]");
            line
        },
    }
}

} // verus!
