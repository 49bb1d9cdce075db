//! How the project REPL reads one line, and the lines it answers with.
use vstd::prelude::*;
use crate::text::{append_str, decimal, format_u64, lemma_trimmed_idempotent, owned, same_text, trim, trimmed};

verus! {

/// What one line typed at the REPL asks for.
#[derive(Debug)]
pub enum ReplInput {
    /// Nothing but white space.
    Empty,
    /// One of the words that end the session.
    Exit,
    /// A command to hand to the kernel, without surrounding white space.
    Command(String),
}

/// The words that end the session.
pub open spec fn is_exit_word(s: Seq<char>) -> bool {
    s == "exit"@ || s == "x"@ || s == "q"@ || s == "quit"@
}

/// The kind of a line: 0 for empty, 1 for an exit word, 2 for a command.
pub open spec fn input_kind(line: Seq<char>) -> int {
    if trimmed(line).len() == 0 {
        0
    } else if is_exit_word(trimmed(line)) {
        1
    } else {
        2
    }
}

/// Reads one REPL line.
pub fn classify_input(line: &str) -> (r: ReplInput)
    ensures
        input_kind(line@) == 0 <==> r is Empty,
        input_kind(line@) == 1 <==> r is Exit,
        r matches ReplInput::Command(c) ==> input_kind(line@) == 2 && c@ == trimmed(line@),
{
    let t = trim(line);
    let s = t.as_str();
    if s.unicode_len() == 0 {
        ReplInput::Empty
    } else if same_text(s, "exit") || same_text(s, "x") || same_text(s, "q") || same_text(
        s,
        "quit",
    ) {
        ReplInput::Exit
    } else {
        ReplInput::Command(t)
    }
}

/// White space around a line does not change what it asks for.
pub proof fn lemma_input_kind_ignores_padding(line: Seq<char>)
    ensures
        input_kind(trimmed(line)) == input_kind(line),
{
    lemma_trimmed_idempotent(line);
}

/// The answer to a command the kernel accepted: how many effects it gave.
pub fn poke_summary(effects: usize) -> (s: String)
    ensures
        s@ == decimal(effects as nat) + " effect(s)"@,
{
    let mut s = format_u64(effects as u64);
    append_str(&mut s, " effect(s)");
    s
}

/// The answer to a command the kernel refused.
pub fn poke_failure(reason: &str) -> (s: String)
    ensures
        s@ == "command failed: "@ + reason@,
{
    let mut s = owned("command failed: ");
    append_str(&mut s, reason);
    s
}

} // verus!
