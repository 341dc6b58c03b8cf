//! Running a command with the rights of the superuser: which command to
//! run at each step, and what a failure means.

use vstd::prelude::*;
use crate::command::{invoke, Call, Invocation};
use crate::text::chars::{chars_of, str_texts, string_of, string_texts};
use crate::text::scan::{contains, contains_text};
use crate::text::space::{trim, trim_chars};

verus! {

/// How `sudo` is to take the password.
#[derive(Clone, Copy, Debug, PartialEq, Eq, Structural)]
pub enum SudoMode {
    /// Ask for none: succeed on cached credentials or fail.
    Cached,
    /// Read it from the standard input.
    FromInput,
}

/// The option that tells `sudo` how to take the password.
pub open spec fn mode_option(mode: SudoMode) -> Seq<char> {
    match mode {
        SudoMode::Cached => "--non-interactive"@,
        SudoMode::FromInput => "-S"@,
    }
}

/// The call of `program` through `sudo`: the option for the mode, the
/// program, then the program's own arguments.
pub open spec fn sudo_call(
    sudo: Seq<char>,
    mode: SudoMode,
    program: Seq<char>,
    args: Seq<Seq<char>>,
) -> Call {
    Call { program: sudo, args: seq![mode_option(mode), program] + args }
}

/// Makes the call of `program` through `sudo`.
pub fn sudo_command(sudo: &str, mode: SudoMode, program: &str, args: &[&str]) -> (call:
    Invocation)
    ensures
        call@ == sudo_call(sudo@, mode, program@, str_texts(args@)),
{
    let option = match mode {
        SudoMode::Cached => "--non-interactive",
        SudoMode::FromInput => "-S",
    };
    let mut all: Vec<String> = Vec::new();
    all.push(option.to_owned());
    all.push(program.to_owned());
    let mut i: usize = 0;
    while i < args.len()
        invariant
            i <= args@.len(),
            string_texts(all@) == seq![mode_option(mode), program@] + str_texts(args@).take(
                i as int,
            ),
        decreases args@.len() - i,
    {
        let ghost before = string_texts(all@);
        all.push(args[i].to_owned());
        assert(string_texts(all@) == before.push(args@[i as int]@));
        assert(str_texts(args@).take(i + 1) == str_texts(args@).take(i as int).push(
            args@[i as int]@,
        ));
        i += 1;
    }
    assert(str_texts(args@).take(args@.len() as int) == str_texts(args@));
    invoke(sudo, all)
}

/// What a failure of `sudo` with a password means: a wrong password where
/// the error stream says so, and else what the error stream holds, without
/// the white space around it.
pub open spec fn sudo_failure_text(stderr: Seq<char>) -> Seq<char> {
    if contains_text(stderr, "incorrect password"@) || contains_text(stderr, "Sorry"@) {
        "Incorrect password"@
    } else {
        trim(stderr)
    }
}

/// Says what a failure of `sudo` with a password means.
pub fn sudo_failure(stderr: &str) -> (reason: String)
    ensures
        reason@ == sudo_failure_text(stderr@),
{
    let text = chars_of(stderr);
    let wrong = chars_of("incorrect password");
    let sorry = chars_of("Sorry");
    if contains(text.as_slice(), wrong.as_slice()) || contains(text.as_slice(), sorry.as_slice()) {
        "Incorrect password".to_owned()
    } else {
        string_of(trim_chars(text.as_slice()))
    }
}

} // verus!
