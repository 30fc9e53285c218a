//! The solution's command line, split into a program and its arguments.

use crate::text::views;
use vstd::prelude::*;

verus! {

/// The words of a command line under shell quoting; `None` where the quoting is malformed.
pub uninterp spec fn shell_words(s: Seq<char>) -> Option<Seq<Seq<char>>>;

/// Relies on shlex::split: the words of a command line under POSIX shell
/// quoting, or `None` where a quote or escape is left open.
#[verifier::external_body]
fn split_words(s: &str) -> (r: Option<Vec<String>>)
    ensures
        match r {
            Some(v) => shell_words(s@) == Some(views(v@)),
            None => shell_words(s@) is None,
        },
{
    shlex::split(s)
}

/// A program to run and the arguments handed to it.
pub struct SolutionCommand {
    pub program: String,
    pub args: Vec<String>,
}

/// The program and arguments that a list of words names: the first word
/// and the rest.
pub open spec fn command_of(words: Option<Seq<Seq<char>>>) -> Option<(Seq<char>, Seq<Seq<char>>)> {
    match words {
        Some(ws) => if ws.len() > 0 { Some((ws[0], ws.drop_first())) } else { None },
        None => None,
    }
}

pub open spec fn command_view(c: Option<SolutionCommand>) -> Option<(Seq<char>, Seq<Seq<char>>)> {
    match c {
        Some(c) => Some((c.program@, views(c.args@))),
        None => None,
    }
}

/// The program and arguments of already split words; `None` where there is no word.
pub fn command_from_words(words: Option<Vec<String>>) -> (r: Option<SolutionCommand>)
    ensures
        command_view(r) == command_of(match words { Some(v) => Some(views(v@)), None => None }),
{
    match words {
        Some(v) => {
            if v.len() == 0 {
                None
            } else {
                let program = v[0].clone();
                let mut args: Vec<String> = Vec::new();
                let mut i: usize = 1;
                while i < v.len()
                    invariant
                        1 <= i <= v@.len(),
                        views(args@) =~= views(v@).subrange(1, i as int),
                    decreases v@.len() - i,
                {
                    let ghost prev = args@;
                    args.push(v[i].clone());
                    assert(views(args@) =~= views(prev).push(v@[i as int]@));
                    i = i + 1;
                }
                assert(views(v@).drop_first() =~= views(v@).subrange(1, v@.len() as int));
                Some(SolutionCommand { program, args })
            }
        },
        None => None,
    }
}

/// Splits a command line into the program and its arguments; `None` where
/// the quoting is malformed or there is no word.
pub fn parse_command(command: &str) -> (r: Option<SolutionCommand>)
    ensures
        command_view(r) == command_of(shell_words(command@)),
{
    command_from_words(split_words(command))
}

} // verus!
