//! The overwrite arbiter: what happens to an entry whose target path is
//! already taken, under a confirmation policy and the answers given so far
//! in one extraction.
use vstd::prelude::*;

verus! {

/// The confirmation policy chosen by the caller for a whole extraction.
#[derive(Clone, Copy, Debug, PartialEq, Eq, Structural)]
pub enum Flags {
    /// Ask about each conflict, unless a blanket answer was given.
    Interactive,
    /// Overwrite every conflicting file without asking.
    AlwaysYes,
    /// Keep every conflicting file without asking.
    AlwaysNo,
}

/// An answer to the overwrite question.
#[derive(Clone, Copy, Debug, PartialEq, Eq, Structural)]
pub enum Answer {
    Yes,
    No,
    YesToAll,
    NoToAll,
}

/// What one extraction remembers of the answers given so far.
#[derive(Clone, Copy, Debug, PartialEq, Eq, Structural)]
pub enum Confirmation {
    /// No blanket answer yet: the next conflict is asked about.
    Undecided,
    /// "Yes to all" was answered.
    AllYes,
    /// "No to all" was answered.
    AllNo,
}

/// What to do with the entry at hand.
#[derive(Clone, Copy, Debug, PartialEq, Eq, Structural)]
pub enum Step {
    /// Write the entry to its target path.
    Write,
    /// Leave the target alone and go on with the next entry.
    Skip,
    /// Ask the overwrite question about the target path.
    Ask,
}

/// A target that does not exist is written; an existing one follows the
/// policy, then the blanket answer, and is asked about otherwise.
pub open spec fn step_for(flags: Flags, state: Confirmation, exists: bool) -> Step {
    if !exists {
        Step::Write
    } else {
        match flags {
            Flags::AlwaysYes => Step::Write,
            Flags::AlwaysNo => Step::Skip,
            Flags::Interactive => match state {
                Confirmation::AllYes => Step::Write,
                Confirmation::AllNo => Step::Skip,
                Confirmation::Undecided => Step::Ask,
            },
        }
    }
}

/// Whether an answer lets the file at hand be overwritten.
pub open spec fn answer_writes(a: Answer) -> bool {
    a == Answer::Yes || a == Answer::YesToAll
}

/// The state after an answer: a blanket answer is remembered, a single one
/// leaves the state as it was.
pub open spec fn state_after(state: Confirmation, a: Answer) -> Confirmation {
    match a {
        Answer::YesToAll => Confirmation::AllYes,
        Answer::NoToAll => Confirmation::AllNo,
        _ => state,
    }
}

/// The answer that a line of input stands for: `y`, `n`, `Y` (yes to all)
/// or `N` (no to all).
pub open spec fn answer_of(s: Seq<char>) -> Option<Answer> {
    if s == seq!['y'] {
        Some(Answer::Yes)
    } else if s == seq!['n'] {
        Some(Answer::No)
    } else if s == seq!['Y'] {
        Some(Answer::YesToAll)
    } else if s == seq!['N'] {
        Some(Answer::NoToAll)
    } else {
        None
    }
}

pub open spec fn question_for(path: Seq<char>) -> Seq<char> {
    "Do you want to overwrite '"@ + path + "'? [y]es, [n]o, [Y]es to all, [N]o to all "@
}

impl Confirmation {
    /// The state at the start of an extraction.
    pub fn new() -> (r: Confirmation)
        ensures
            r == Confirmation::Undecided,
    {
        Confirmation::Undecided
    }

    /// What to do with an entry whose target exists (or not) at the moment.
    pub fn decide(&self, flags: Flags, exists: bool) -> (r: Step)
        ensures
            r == step_for(flags, *self, exists),
    {
        if !exists {
            return Step::Write;
        }
        match flags {
            Flags::AlwaysYes => Step::Write,
            Flags::AlwaysNo => Step::Skip,
            Flags::Interactive => match self {
                Confirmation::AllYes => Step::Write,
                Confirmation::AllNo => Step::Skip,
                Confirmation::Undecided => Step::Ask,
            },
        }
    }

    /// Takes in an answer to the overwrite question, and returns whether the
    /// file at hand is to be overwritten.
    pub fn answer(&mut self, a: Answer) -> (r: bool)
        ensures
            r == answer_writes(a),
            *final(self) == state_after(*old(self), a),
    {
        match a {
            Answer::Yes => true,
            Answer::No => false,
            Answer::YesToAll => {
                *self = Confirmation::AllYes;
                true
            },
            Answer::NoToAll => {
                *self = Confirmation::AllNo;
                false
            },
        }
    }
}

/// Reads an answer from a line of input, without its line ending.
pub fn parse_answer(s: &str) -> (r: Option<Answer>)
    ensures
        r == answer_of(s@),
{
    if s.unicode_len() != 1 {
        proof {
            assert(s@ != seq!['y'] && s@ != seq!['n'] && s@ != seq!['Y'] && s@ != seq!['N']);
        }
        return None;
    }
    let c = s.get_char(0);
    proof {
        assert(s@ == seq![c]);
    }
    if c == 'y' {
        Some(Answer::Yes)
    } else if c == 'n' {
        Some(Answer::No)
    } else if c == 'Y' {
        Some(Answer::YesToAll)
    } else if c == 'N' {
        Some(Answer::NoToAll)
    } else {
        None
    }
}

/// The overwrite question about `path`.
pub fn overwrite_question(path: &str) -> (r: String)
    ensures
        r@ == question_for(path@),
{
    let mut r = "Do you want to overwrite '".to_owned();
    r.append(path);
    r.append("'? [y]es, [n]o, [Y]es to all, [N]o to all ");
    r
}

} // verus!
