//! The command line.

use vstd::prelude::*;

use crate::text;

verus! {

/// What the program is asked to do.
#[derive(Debug, Clone, Copy, PartialEq, Eq, Structural)]
pub enum Mode {
    /// Print how the program is used.
    Help,
    /// Run the line-based front-end.
    Minimal,
    /// Run the full-screen front-end.
    Full,
}

/// Whether an argument asks for help.
pub open spec fn asks_help(argument: Seq<char>) -> bool {
    argument == "-h"@ || argument == "--help"@
}

/// Whether an argument asks for the line-based front-end.
pub open spec fn asks_minimal(argument: Seq<char>) -> bool {
    argument == "-m"@ || argument == "--minimal"@ || argument == "--mini"@
}

/// What these arguments ask for: help where any asks for it, else the line-based
/// front-end where any asks for that, else the full-screen one. Others are
/// ignored.
pub fn mode(arguments: &Vec<String>) -> (mode: Mode)
    ensures
        mode == Mode::Help <==> exists|i: int|
            0 <= i < arguments@.len() && asks_help(#[trigger] arguments@[i]@),
        mode == Mode::Minimal <==> mode != Mode::Help && exists|i: int|
            0 <= i < arguments@.len() && asks_minimal(#[trigger] arguments@[i]@),
{
    let mut minimal = false;
    let mut i: usize = 0;
    while i < arguments.len()
        invariant
            i <= arguments@.len(),
            forall|j: int| 0 <= j < i ==> !asks_help(#[trigger] arguments@[j]@),
            minimal <==> exists|j: int| 0 <= j < i && asks_minimal(#[trigger] arguments@[j]@),
        decreases arguments@.len() - i,
    {
        let argument = arguments[i].as_str();
        if text::same(argument, "-h") || text::same(argument, "--help") {
            assert(asks_help(arguments@[i as int]@));
            return Mode::Help;
        }
        if text::same(argument, "-m") || text::same(argument, "--minimal") || text::same(
            argument,
            "--mini",
        ) {
            assert(asks_minimal(arguments@[i as int]@));
            minimal = true;
        }
        i = i + 1;
    }
    if minimal {
        Mode::Minimal
    } else {
        Mode::Full
    }
}

/// An argument counts only where it is written exactly so.
pub proof fn law_arguments_are_exact(argument: Seq<char>)
    ensures
        asks_help(argument) <==> argument == seq!['-', 'h'] || argument == seq![
            '-',
            '-',
            'h',
            'e',
            'l',
            'p',
        ],
        asks_minimal(argument) <==> argument == seq!['-', 'm'] || argument == seq![
            '-',
            '-',
            'm',
            'i',
            'n',
            'i',
        ] || argument == seq!['-', '-', 'm', 'i', 'n', 'i', 'm', 'a', 'l'],
{
    reveal_strlit("-h");
    reveal_strlit("--help");
    reveal_strlit("-m");
    reveal_strlit("--mini");
    reveal_strlit("--minimal");
    assert("-h"@ =~= seq!['-', 'h']);
    assert("--help"@ =~= seq!['-', '-', 'h', 'e', 'l', 'p']);
    assert("-m"@ =~= seq!['-', 'm']);
    assert("--mini"@ =~= seq!['-', '-', 'm', 'i', 'n', 'i']);
    assert("--minimal"@ =~= seq!['-', '-', 'm', 'i', 'n', 'i', 'm', 'a', 'l']);
}

} // verus!
