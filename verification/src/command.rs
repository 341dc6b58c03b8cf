//! Commands for the caller to run: the library says which, the caller runs
//! them.

use vstd::prelude::*;
use crate::text::chars::string_texts;

verus! {

/// A program and the arguments to run it with.
#[derive(Debug, PartialEq, Eq)]
pub struct Invocation {
    pub program: String,
    pub args: Vec<String>,
}

/// The mathematical model of an [`Invocation`].
pub struct Call {
    pub program: Seq<char>,
    pub args: Seq<Seq<char>>,
}

impl View for Invocation {
    type V = Call;

    open spec fn view(&self) -> Call {
        Call { program: self.program@, args: string_texts(self.args@) }
    }
}

/// The call of `program` with three arguments.
pub open spec fn call3(program: Seq<char>, a: Seq<char>, b: Seq<char>, c: Seq<char>) -> Call {
    Call { program, args: seq![a, b, c] }
}

/// The call of `program` with two arguments.
pub open spec fn call2(program: Seq<char>, a: Seq<char>, b: Seq<char>) -> Call {
    Call { program, args: seq![a, b] }
}

/// Makes the call of `program` with the arguments `args`.
pub fn invoke(program: &str, args: Vec<String>) -> (call: Invocation)
    ensures
        call@ == (Call { program: program@, args: string_texts(args@) }),
{
    Invocation { program: program.to_owned(), args }
}

/// Makes the call of `program` with two arguments.
pub fn invoke2(program: &str, a: &str, b: &str) -> (call: Invocation)
    ensures
        call@ == call2(program@, a@, b@),
{
    let mut args: Vec<String> = Vec::new();
    args.push(a.to_owned());
    args.push(b.to_owned());
    assert(string_texts(args@) == seq![a@, b@]);
    invoke(program, args)
}

/// Makes the call of `program` with three arguments.
pub fn invoke3(program: &str, a: &str, b: &str, c: &str) -> (call: Invocation)
    ensures
        call@ == call3(program@, a@, b@, c@),
{
    let mut args: Vec<String> = Vec::new();
    args.push(a.to_owned());
    args.push(b.to_owned());
    args.push(c.to_owned());
    assert(string_texts(args@) == seq![a@, b@, c@]);
    invoke(program, args)
}

} // verus!
