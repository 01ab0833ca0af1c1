//! A program to start, with its arguments.
use vstd::prelude::*;
use crate::text::views;

verus! {

/// A program to start and its arguments.
pub struct Launch {
    pub program: String,
    pub args: Vec<String>,
}

/// The launch of `program` with `args`.
pub fn launch(program: &str, args: Vec<String>) -> (r: Launch)
    ensures
        r.program@ == program@,
        r.args@ == args@,
{
    Launch { program: String::from_str(program), args }
}

/// The view of a launch.
pub open spec fn launch_view(l: Launch) -> (Seq<char>, Seq<Seq<char>>) {
    (l.program@, views(l.args@))
}

} // verus!
