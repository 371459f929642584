//! The terminal control sequences that style reading annotations and
//! highlighted words.

use vstd::prelude::*;

verus! {

/// Starts the reading style (underline).
pub open spec fn reading_on() -> Seq<char> {
    "\x1b[4m"@
}

/// Ends the reading style.
pub open spec fn reading_off() -> Seq<char> {
    "\x1b[24m"@
}

/// Starts the highlight style (green).
pub open spec fn highlight_on() -> Seq<char> {
    "\x1b[32m"@
}

/// Ends the highlight style (reset of all attributes).
pub open spec fn highlight_off() -> Seq<char> {
    "\x1b[0m"@
}

/// The sequence that starts the reading style.
pub fn reading_on_str() -> (r: &'static str)
    ensures
        r@ == reading_on(),
{
    "\x1b[4m"
}

/// The sequence that ends the reading style.
pub fn reading_off_str() -> (r: &'static str)
    ensures
        r@ == reading_off(),
{
    "\x1b[24m"
}

/// The sequence that starts the highlight style.
pub fn highlight_on_str() -> (r: &'static str)
    ensures
        r@ == highlight_on(),
{
    "\x1b[32m"
}

/// The sequence that ends the highlight style.
pub fn highlight_off_str() -> (r: &'static str)
    ensures
        r@ == highlight_off(),
{
    "\x1b[0m"
}

} // verus!
