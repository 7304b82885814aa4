//! What the scan's caller decides while it relays the output of the viewer
//! process.

use vstd::prelude::*;
use crate::text::{chars_of, same, slice_text};

verus! {

/// Whether `needle` stands somewhere in `s`.
pub open spec fn occurs_in(needle: Seq<char>, s: Seq<char>) -> bool {
    exists|i: int|
        0 <= i && i + needle.len() <= s.len() && #[trigger] s.subrange(i, i + needle.len())
            == needle
}

/// Whether a line of the viewer's output says that its server is running.
pub open spec fn announces_start(line: Seq<char>) -> bool {
    occurs_in("Running on"@, line)
}

/// Decides whether `needle` stands somewhere in `s`.
pub fn contains_text(s: &Vec<char>, needle: &Vec<char>) -> (found: bool)
    ensures
        found == occurs_in(needle@, s@),
{
    if needle.len() > s.len() {
        return false;
    }
    let last: usize = s.len() - needle.len();
    let mut i: usize = 0;
    loop
        invariant
            i <= last,
            last == s.len() - needle.len(),
            forall|j: int| 0 <= j < i ==> #[trigger] s@.subrange(j, j + needle.len()) != needle@,
        decreases last - i,
    {
        let window = slice_text(s, i, i + needle.len());
        if same(&window, needle) {
            return true;
        }
        if i == last {
            return false;
        }
        i += 1;
    }
}

/// Decides whether a line of the viewer's output says that its server is
/// running: from then on the output is no longer relayed.
pub fn server_started(line: &str) -> (started: bool)
    ensures
        started == announces_start(line@),
{
    contains_text(&chars_of(line), &chars_of("Running on"))
}

} // verus!
