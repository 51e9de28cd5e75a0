use vstd::prelude::*;
use crate::record::Record;

verus! {

/// The keys the dashboard tells apart.
#[derive(Clone, Copy, Debug, PartialEq, Eq, Structural)]
pub enum Key {
    Char(char),
    Up,
    Down,
    Other,
}

/// The key that ends the session.
pub open spec fn quit_key() -> Key {
    Key::Char('q')
}

pub fn is_quit(k: Key) -> (r: bool)
    ensures
        r == (k == quit_key()),
{
    match k {
        Key::Char(c) => c == 'q',
        _ => false,
    }
}

/// What the render loop consumes, one at a time and in order.
#[derive(Clone, Debug)]
pub enum Event {
    /// Time to consider redrawing.
    Tick,
    /// A key press.
    Input(Key),
    /// The outcome of one lookup on the data stream: `None` when nothing was found.
    Fetched(Option<Record>),
}

} // verus!
