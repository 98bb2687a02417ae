//! Types of the protocol between the daemon and its clients.
use std::time::SystemTime;

use vstd::prelude::*;

verus! {

/// The point in time at which an item was copied. The library only carries
/// it from where it is read to where it is shown.
#[verifier::external_type_specification]
#[verifier::external_body]
pub struct ExSystemTime(SystemTime);

/// Identifier of an item of the history: the 128 bits of a random UUID.
#[derive(Clone, Copy, Debug, PartialEq, Eq, Structural, Hash)]
pub struct ItemId(pub u128);

/// Category of the content of an item.
#[derive(Clone, Copy, Debug, PartialEq, Eq, Structural, Hash)]
pub enum Category {
    Url,
    Codigo,
    Imagem,
    Outro,
}

impl Default for Category {
    fn default() -> (r: Self)
        ensures
            r == Category::Outro,
    {
        Category::Outro
    }
}

/// A request of a client to the daemon.
#[derive(Debug, Clone, Copy, PartialEq, Eq, Structural)]
pub enum Command {
    List,
    CopyToClipboard { id: ItemId },
    Delete { id: ItemId },
    Pin { id: ItemId },
    Unpin { id: ItemId },
    GetImageBytes { id: ItemId },
    SetCategory { id: ItemId, category: Category },
}

/// What an item holds, as the clients see it.
#[derive(Debug, PartialEq)]
pub enum ItemKindView {
    Text { preview: String },
    Image { mime: String, size_bytes: u64 },
}

/// An item as the clients see it.
#[derive(Debug, PartialEq)]
pub struct ItemView {
    pub id: ItemId,
    pub kind: ItemKindView,
    pub pinned: bool,
    pub copied_at: SystemTime,
    pub category: Category,
}

/// The answer of the daemon to one command.
#[derive(Debug, PartialEq)]
pub enum Response {
    Items(Vec<ItemView>),
    Ack,
    Error { message: String },
    ImageBytes { mime: String, data_base64: String },
}

} // verus!
