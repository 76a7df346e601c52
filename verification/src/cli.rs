//! What a command line asks for.

use crate::exercise::views;
use vstd::prelude::*;
use vstd::string::*;

verus! {

/// Value of an [`Invocation`].
pub enum InvocationView {
    Input,
    Usage(Seq<char>),
}

/// What the program is to do.
#[derive(Clone, Debug, PartialEq, Eq)]
pub enum Invocation {
    /// Run an entry session and store what it gives.
    Input,
    /// Print the usage line that is carried, and do nothing else.
    Usage(String),
}

impl View for Invocation {
    type V = InvocationView;

    open spec fn view(&self) -> InvocationView {
        match *self {
            Invocation::Input => InvocationView::Input,
            Invocation::Usage(line) => InvocationView::Usage(line@),
        }
    }
}

/// Whether the flag `--input` is among the arguments, at any place.
pub open spec fn asks_for_input(args: Seq<Seq<char>>) -> bool {
    exists|i: int| 0 <= i < args.len() && args[i] == "--input"@
}

/// The usage line. It names the program by the first argument, or as
/// `program` where there is none.
pub open spec fn usage_line(args: Seq<Seq<char>>) -> Seq<char> {
    let program = if args.len() > 0 {
        args[0]
    } else {
        "program"@
    };
    "Usage: "@ + program + " --input"@
}

/// What a list of arguments asks for.
pub open spec fn invocation_of(args: Seq<Seq<char>>) -> InvocationView {
    if asks_for_input(args) {
        InvocationView::Input
    } else {
        InvocationView::Usage(usage_line(args))
    }
}

/// Reads the arguments of the program, its own name first.
pub fn invocation(args: &Vec<String>) -> (asked: Invocation)
    ensures
        asked@ == invocation_of(views(args@)),
{
    let flag = String::from_str("--input");
    let mut i: usize = 0;
    while i < args.len()
        invariant
            i <= args.len(),
            flag@ == "--input"@,
            forall|j: int| 0 <= j < i ==> args[j]@ != "--input"@,
        decreases args.len() - i,
    {
        if args[i] == flag {
            assert(views(args@)[i as int] == "--input"@);
            return Invocation::Input;
        }
        i += 1;
    }
    assert(!asks_for_input(views(args@)));
    let mut line = String::from_str("Usage: ");
    if args.len() > 0 {
        line.append(args[0].as_str());
    } else {
        line.append("program");
    }
    line.append(" --input");
    Invocation::Usage(line)
}

} // verus!
