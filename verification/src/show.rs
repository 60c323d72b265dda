//! How each kind of progress message is shown: its text and, when colours are
//! in use, its colour. Writing it to the terminal is left to the caller.

use vstd::prelude::*;

verus! {

/// Terminal colours that messages can take.
#[derive(Clone, Copy, Debug, PartialEq, Eq, Structural)]
pub enum Color {
    Green,
    Red,
    BrightCyan,
}

/// A message ready to be written: its text, and its colour where it has one.
#[derive(Debug)]
pub struct Shown {
    pub text: String,
    pub color: Option<Color>,
}

/// The colour of a message of the given kind when colours are in use.
pub open spec fn shown_with(msg: Seq<char>, color: Color, use_colors: bool, shown: Shown) -> bool {
    &&& shown.text@ == msg
    &&& shown.color == (if use_colors { Some(color) } else { None })
}

/// A message written in plain text whatever the setting.
pub open spec fn shown_plain(msg: Seq<char>, shown: Shown) -> bool {
    &&& shown.text@ == msg
    &&& shown.color == None::<Color>
}

fn colored(msg: &str, color: Color, use_colors: bool) -> (r: Shown)
    ensures
        shown_with(msg@, color, use_colors, r),
{
    Shown { text: String::from_str(msg), color: if use_colors { Some(color) } else { None } }
}

/// A message that reports success: green when colours are in use.
pub fn show_ok(msg: &str, use_colors: bool) -> (r: Shown)
    ensures
        shown_with(msg@, Color::Green, use_colors, r),
{
    colored(msg, Color::Green, use_colors)
}

/// A message that reports an error: red when colours are in use.
pub fn show_error(msg: &str, use_colors: bool) -> (r: Shown)
    ensures
        shown_with(msg@, Color::Red, use_colors, r),
{
    colored(msg, Color::Red, use_colors)
}

/// An informative message: always plain.
pub fn show_info(msg: &str, use_colors: bool) -> (r: Shown)
    ensures
        shown_plain(msg@, r),
{
    Shown { text: String::from_str(msg), color: None }
}

/// A message about a file: always plain.
pub fn show_file(msg: &str, use_colors: bool) -> (r: Shown)
    ensures
        shown_plain(msg@, r),
{
    Shown { text: String::from_str(msg), color: None }
}

/// A message that names a directory: bright cyan when colours are in use.
pub fn show_dir(msg: &str, use_colors: bool) -> (r: Shown)
    ensures
        shown_with(msg@, Color::BrightCyan, use_colors, r),
{
    colored(msg, Color::BrightCyan, use_colors)
}

} // verus!
