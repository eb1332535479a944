//! Building entity names.

use vstd::prelude::*;

verus! {

/// The prefix that the name of a dead monster receives.
pub open spec fn remains_prefix() -> Seq<char> {
    "remains of "@
}

/// The name of what a monster called `name` leaves behind.
pub open spec fn remains_name(name: Seq<char>) -> Seq<char> {
    remains_prefix() + name
}

/// Builds the name of the remains of a monster called `name`.
pub fn remains_of(name: &str) -> (s: String)
    ensures
        s@ == remains_name(name@),
{
    let mut s = "remains of ".to_owned();
    s.append(name);
    s
}

} // verus!
