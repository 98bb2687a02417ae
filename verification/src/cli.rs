//! The decisions of the terminal client: what each key asks of the daemon and
//! how each answer changes the screen. The program draws and talks to the
//! daemon.
use vstd::prelude::*;

use crate::protocol::{Command, ItemId, ItemView, Response};
use crate::views::{render_content, render_spec};
use crate::text::{owned, push_str};

verus! {

/// `(current + delta)` brought into `0..len`, as `rem_euclid` does.
pub open spec fn wrap_spec(current: int, delta: int, len: int) -> int {
    (current + delta) % len
}

/// `(current + delta).rem_euclid(len)`.
pub fn wrap_index(current: usize, delta: isize, len: usize) -> (r: usize)
    requires
        len > 0,
    ensures
        r == wrap_spec(current as int, delta as int, len as int),
        r < len,
{
    let m: u128 = len as u128;
    let c: u128 = current as u128;
    if delta >= 0 {
        let d: u128 = delta as u128;
        let r: u128 = (c + d % m) % m;
        proof {
            vstd::arithmetic::div_mod::lemma_add_mod_noop_right(c as int, d as int, m as int);
            vstd::arithmetic::div_mod::lemma_mod_bound((c + d % m) as int, m as int);
        }
        r as usize
    } else {
        let a: u128 = (-(delta as i128)) as u128;
        let k: u128 = a % m;
        let r: u128 = (c + (m - k)) % m;
        proof {
            vstd::arithmetic::div_mod::lemma_mod_bound(a as int, m as int);
            vstd::arithmetic::div_mod::lemma_sub_mod_noop_right(c as int, a as int, m as int);
            vstd::arithmetic::div_mod::lemma_mod_add_multiples_vanish(c - k, m as int);
            assert(c + (m - k) == m + (c - k));
            assert(current + delta == c - a);
            vstd::arithmetic::div_mod::lemma_mod_bound((c + (m - k)) as int, m as int);
        }
        r as usize
    }
}

/// The keys that the client reacts to.
#[derive(Debug, Clone, Copy, PartialEq, Eq, Structural)]
pub enum Key {
    Esc,
    Up,
    Down,
    Enter,
    Delete,
    F2,
    Other,
}

/// What the answer to a request is for.
#[derive(Debug, Clone, Copy, PartialEq, Eq, Structural)]
pub enum Request {
    /// Copying the selected item: success closes the client.
    Copy,
    /// Deleting or (un)pinning: success reloads the list.
    Change,
}

/// The state of the terminal client.
pub struct App {
    items: Vec<ItemView>,
    selected: Option<usize>,
    exit: bool,
    status: Option<String>,
}

impl App {
    /// The items listed.
    pub closed spec fn items_spec(&self) -> Seq<ItemView> {
        self.items@
    }

    /// The selected position.
    pub closed spec fn selected_spec(&self) -> Option<usize> {
        self.selected
    }

    /// Whether the client is to close.
    pub closed spec fn exit_spec(&self) -> bool {
        self.exit
    }

    /// The status line, if any.
    pub closed spec fn status_spec(&self) -> Option<Seq<char>> {
        match self.status {
            Some(s) => Some(s@),
            None => None,
        }
    }

    /// A client with nothing listed.
    pub fn new() -> (r: Self)
        ensures
            r.items_spec().len() == 0,
            r.selected_spec() is None,
            !r.exit_spec(),
            r.status_spec() is None,
    {
        App { items: Vec::new(), selected: None, exit: false, status: None }
    }

    /// The items listed.
    pub fn items(&self) -> (r: &Vec<ItemView>)
        ensures
            r@ == self.items_spec(),
    {
        &self.items
    }

    /// The selected position.
    pub fn selected(&self) -> (r: Option<usize>)
        ensures
            r == self.selected_spec(),
    {
        self.selected
    }

    /// Whether the client is to close.
    pub fn should_exit(&self) -> (r: bool)
        ensures
            r == self.exit_spec(),
    {
        self.exit
    }

    /// The status line, if any.
    pub fn status(&self) -> (r: Option<&String>)
        ensures
            match r {
                Some(s) => self.status_spec() == Some(s@),
                None => self.status_spec() is None,
            },
    {
        self.status.as_ref()
    }

    /// Takes the answer to a `List` request: a new list keeps the selected
    /// position, moved onto the last item when the list got shorter; an error
    /// is shown in the status line.
    pub fn apply_list(&mut self, response: Response)
        ensures
            match response {
                Response::Items(items) => {
                    &&& final(self).items_spec() == items@
                    &&& final(self).selected_spec() == if items@.len() == 0 {
                        None
                    } else {
                        let current = match old(self).selected_spec() {
                            Some(i) => i as int,
                            None => 0,
                        };
                        Some(
                            (if current < items@.len() - 1 {
                                current
                            } else {
                                items@.len() - 1
                            }) as usize,
                        )
                    }
                    &&& final(self).status_spec() == old(self).status_spec()
                },
                Response::Error { message } => {
                    &&& final(self).status_spec() == Some(message@)
                    &&& final(self).items_spec() == old(self).items_spec()
                    &&& final(self).selected_spec() == old(self).selected_spec()
                },
                _ => *final(self) == *old(self),
            },
            final(self).exit_spec() == old(self).exit_spec(),
    {
        match response {
            Response::Items(items) => {
                self.items = items;
                if self.items.len() == 0 {
                    self.selected = None;
                } else {
                    let current = match self.selected {
                        Some(i) => i,
                        None => 0,
                    };
                    let last = self.items.len() - 1;
                    self.selected = Some(
                        if current < last {
                            current
                        } else {
                            last
                        },
                    );
                }
            },
            Response::Error { message } => self.status = Some(message),
            _ => {},
        }
    }

    /// The id of the selected item, if any.
    pub fn selected_id(&self) -> (r: Option<ItemId>)
        ensures
            r == match self.selected_spec() {
                Some(i) => if i < self.items_spec().len() {
                    Some(self.items_spec()[i as int].id)
                } else {
                    None
                },
                None => None,
            },
    {
        match self.selected {
            Some(i) => if i < self.items.len() {
                Some(self.items[i].id)
            } else {
                None
            },
            None => None,
        }
    }

    /// The selection after moving it by `delta` from the selected position (or
    /// the first, when none is selected), wrapping around the list.
    pub open spec fn moved_selection_spec(&self, delta: int) -> Option<usize> {
        if self.items_spec().len() == 0 {
            self.selected_spec()
        } else {
            let current = match self.selected_spec() {
                Some(i) => i as int,
                None => 0,
            };
            Some(wrap_spec(current, delta, self.items_spec().len() as int) as usize)
        }
    }

    /// Moves the selection by `delta`, wrapping around the list.
    pub fn move_selection(&mut self, delta: isize)
        ensures
            final(self).items_spec() == old(self).items_spec(),
            final(self).status_spec() == old(self).status_spec(),
            final(self).exit_spec() == old(self).exit_spec(),
            final(self).selected_spec() == old(self).moved_selection_spec(delta as int),
    {
        if self.items.len() == 0 {
            return;
        }
        let len = self.items.len();
        let current = match self.selected {
            Some(i) => i,
            None => 0,
        };
        self.selected = Some(wrap_index(current, delta, len));
    }

    /// The command that copying the selected item sends, if one is selected.
    pub fn copy_request(&self) -> (r: Option<Command>)
        ensures
            r == self.copy_request_spec(),
    {
        match self.selected_id() {
            Some(id) => Some(Command::CopyToClipboard { id }),
            None => None,
        }
    }

    /// The command that deleting the selected item sends, if one is selected.
    pub fn delete_request(&self) -> (r: Option<Command>)
        ensures
            r == self.delete_request_spec(),
    {
        match self.selected_id() {
            Some(id) => Some(Command::Delete { id }),
            None => None,
        }
    }

    /// The command that (un)pins the selected item: `Unpin` for a pin, `Pin`
    /// otherwise.
    pub fn toggle_pin_request(&self) -> (r: Option<Command>)
        ensures
            r == match self.selected_spec() {
                Some(i) => if i < self.items_spec().len() {
                    let item = self.items_spec()[i as int];
                    if item.pinned {
                        Some(Command::Unpin { id: item.id })
                    } else {
                        Some(Command::Pin { id: item.id })
                    }
                } else {
                    None
                },
                None => None,
            },
    {
        match self.selected {
            Some(i) => if i < self.items.len() {
                let id = self.items[i].id;
                if self.items[i].pinned {
                    Some(Command::Unpin { id })
                } else {
                    Some(Command::Pin { id })
                }
            } else {
                None
            },
            None => None,
        }
    }

    /// What a key asks for: `Esc` closes, arrows move the selection, and
    /// `Enter`, `Delete` and `F2` give the request to send, if any.
    pub fn handle_key(&mut self, key: Key) -> (r: Option<(Command, Request)>)
        ensures
            key == Key::Esc ==> {
                &&& final(self).exit_spec()
                &&& r is None
                &&& final(self).items_spec() == old(self).items_spec()
                &&& final(self).selected_spec() == old(self).selected_spec()
                &&& final(self).status_spec() == old(self).status_spec()
            },
            key == Key::Enter ==> *final(self) == *old(self) && r == match old(self).copy_request_spec() {
                Some(c) => Some((c, Request::Copy)),
                None => None,
            },
            key == Key::Delete ==> *final(self) == *old(self) && r == match old(self).delete_request_spec() {
                Some(c) => Some((c, Request::Change)),
                None => None,
            },
            key == Key::F2 ==> *final(self) == *old(self) && r == match old(self).toggle_request_spec() {
                Some(c) => Some((c, Request::Change)),
                None => None,
            },
            key == Key::Other ==> *final(self) == *old(self) && r is None,
            (key == Key::Up || key == Key::Down) ==> {
                &&& r is None
                &&& final(self).selected_spec() == old(self).moved_selection_spec(
                    if key == Key::Up {
                        -1
                    } else {
                        1
                    },
                )
                &&& final(self).items_spec() == old(self).items_spec()
                &&& final(self).status_spec() == old(self).status_spec()
                &&& final(self).exit_spec() == old(self).exit_spec()
            },
    {
        match key {
            Key::Esc => {
                self.exit = true;
                None
            },
            Key::Up => {
                self.move_selection(-1);
                None
            },
            Key::Down => {
                self.move_selection(1);
                None
            },
            Key::Enter => match self.copy_request() {
                Some(c) => Some((c, Request::Copy)),
                None => None,
            },
            Key::Delete => match self.delete_request() {
                Some(c) => Some((c, Request::Change)),
                None => None,
            },
            Key::F2 => match self.toggle_pin_request() {
                Some(c) => Some((c, Request::Change)),
                None => None,
            },
            Key::Other => None,
        }
    }

    /// The copy request for the current state.
    pub open spec fn copy_request_spec(&self) -> Option<Command> {
        match self.selected_spec() {
            Some(i) => if i < self.items_spec().len() {
                Some(Command::CopyToClipboard { id: self.items_spec()[i as int].id })
            } else {
                None
            },
            None => None,
        }
    }

    /// The delete request for the current state.
    pub open spec fn delete_request_spec(&self) -> Option<Command> {
        match self.selected_spec() {
            Some(i) => if i < self.items_spec().len() {
                Some(Command::Delete { id: self.items_spec()[i as int].id })
            } else {
                None
            },
            None => None,
        }
    }

    /// The (un)pin request for the current state.
    pub open spec fn toggle_request_spec(&self) -> Option<Command> {
        match self.selected_spec() {
            Some(i) => if i < self.items_spec().len() {
                let item = self.items_spec()[i as int];
                if item.pinned {
                    Some(Command::Unpin { id: item.id })
                } else {
                    Some(Command::Pin { id: item.id })
                }
            } else {
                None
            },
            None => None,
        }
    }

    /// Takes the answer to a request. A copy that succeeded closes the
    /// client; a change that succeeded clears the status line and asks for
    /// the list again (the result); an error goes to the status line.
    pub fn apply_response(&mut self, request: Request, response: Response) -> (reload: bool)
        ensures
            match response {
                Response::Ack => match request {
                    Request::Copy => final(self).exit_spec() && !reload && final(self).items_spec()
                        == old(self).items_spec() && final(self).selected_spec() == old(self).selected_spec() && final(self).status_spec() == old(self).status_spec(),
                    Request::Change => reload && final(self).status_spec() is None
                        && final(self).items_spec() == old(self).items_spec() && final(self).selected_spec() == old(self).selected_spec() && final(self).exit_spec()
                        == old(self).exit_spec(),
                },
                Response::Error { message } => !reload && final(self).status_spec() == Some(
                    message@,
                ) && final(self).items_spec() == old(self).items_spec() && final(self).selected_spec() == old(self).selected_spec() && final(self).exit_spec() == old(self).exit_spec(),
                _ => !reload && *final(self) == *old(self),
            },
    {
        match response {
            Response::Ack => match request {
                Request::Copy => {
                    self.exit = true;
                    false
                },
                Request::Change => {
                    self.status = None;
                    true
                },
            },
            Response::Error { message } => {
                self.status = Some(message);
                false
            },
            _ => false,
        }
    }
}

impl Default for App {
    fn default() -> (r: Self)
        ensures
            r.items_spec().len() == 0,
            r.selected_spec() is None,
            !r.exit_spec(),
            r.status_spec() is None,
    {
        App::new()
    }
}

/// The line of an item in the terminal list: `[pin] ` before a pin, then
/// the item cut to one line.
pub open spec fn item_line_spec(item: ItemView) -> Seq<char> {
    (if item.pinned {
        "[pin] "@
    } else {
        Seq::empty()
    }) + render_spec(item, false)
}

/// The line of an item in the terminal list.
pub fn item_line(item: &ItemView) -> (r: String)
    ensures
        r@ == item_line_spec(*item),
{
    let mut line = if item.pinned {
        owned("[pin] ")
    } else {
        String::new()
    };
    push_str(&mut line, render_content(item, false).as_str());
    line
}

} // verus!
