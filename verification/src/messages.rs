//! Pattern matching over a message enum: each variant is taken apart and
//! answered with the text the caller should show.

use vstd::prelude::*;
use vstd::string::StringExecFns;

verus! {

/// A message a program may receive.
#[derive(Clone, PartialEq, Eq, Debug)]
pub enum Message {
    /// Stop.
    Quit,
    /// Move to the given coordinates.
    Move { x: i32, y: i32 },
    /// Show the given text.
    Write(String),
    /// Change the colour to the given channels.
    ChangeColor(i32, i32, i32),
}

/// Takes a message apart. The two data-carrying variants it inspects must
/// hold the expected coordinates and channels; they yield no text, while
/// the remaining variants yield a fixed note. Showing the text is the
/// caller's business.
pub fn show_message(msg: &Message) -> (r: String)
    requires
        msg matches Message::Move { x, y } ==> x == 1 && y == 3,
        msg matches Message::ChangeColor(_, g, b) ==> g == 255 && b == 0,
    ensures
        (msg matches Message::Move { .. } || msg matches Message::ChangeColor(..)) ==> r@.len()
            == 0,
        (msg matches Message::Quit || msg matches Message::Write(_)) ==> r@
            == "no data in these variants"@,
{
    match msg {
        Message::Move { .. } => String::new(),
        Message::ChangeColor(..) => String::new(),
        _ => String::from_str("no data in these variants"),
    }
}

} // verus!
