//! The command to run: a list of words that is never empty. The first word
//! names the program, the others are its arguments.

use vstd::prelude::*;
use nonempty::NonEmpty;
use crate::text::{join, joined, texts};

verus! {

/// The list type of the `nonempty` crate: a head and a tail that may be empty.
#[verifier::external_type_specification]
#[verifier::external_body]
#[verifier::reject_recursive_types(T)]
pub struct ExNonEmpty<T>(NonEmpty<T>);

/// The words of a command in order, the head first.
pub uninterp spec fn words(command: NonEmpty<String>) -> Seq<Seq<char>>;

/// `NonEmpty::first`.
///
/// Trusted: the result is the first word of the list.
#[verifier::external_body]
fn first_word(command: &NonEmpty<String>) -> (word: &String)
    ensures
        word@ == words(*command)[0],
{
    command.first()
}

/// `NonEmpty::tail`.
///
/// Trusted: the result holds every word but the first, in order; so the
/// list has one word more than the result.
#[verifier::external_body]
fn tail_words(command: &NonEmpty<String>) -> (rest: &[String])
    ensures
        words(*command).len() == rest@.len() + 1,
        texts(rest@) == words(*command).skip(1),
{
    command.tail()
}

/// `NonEmpty::iter`, gathered into a vector.
///
/// Trusted: the iterator gives every word once, the head first and then the
/// tail in order.
#[verifier::external_body]
fn each_word(command: &NonEmpty<String>) -> (all: Vec<String>)
    ensures
        texts(all@) == words(*command),
{
    command.iter().cloned().collect()
}

/// What is handed to the system to create the child process.
#[derive(Debug)]
pub struct Invocation {
    /// The program to run.
    pub program: String,
    /// Its arguments, in order.
    pub args: Vec<String>,
}

/// Splits a command into the program, which is its first word, and the
/// arguments, which are all the others.
pub fn build_command(command: &NonEmpty<String>) -> (invocation: Invocation)
    ensures
        words(*command).len() >= 1,
        invocation.program@ == words(*command)[0],
        texts(invocation.args@) == words(*command).skip(1),
{
    let program = first_word(command).clone();
    let rest = tail_words(command);
    let mut args: Vec<String> = Vec::new();
    let mut i: usize = 0;
    while i < rest.len()
        invariant
            i <= rest.len(),
            texts(args@) == texts(rest@).take(i as int),
        decreases rest.len() - i,
    {
        args.push(rest[i].clone());
        assert(texts(rest@).take(i + 1) =~= texts(rest@).take(i as int).push(rest@[i as int]@));
        i = i + 1;
    }
    Invocation { program, args }
}

/// The command as one would type it: its words with a space between each two.
pub fn printable_command(command: &NonEmpty<String>) -> (out: String)
    ensures
        out@ == joined(words(*command), seq![' ']),
{
    let all = each_word(command);
    proof {
        reveal_strlit(" ");
        assert(" "@ =~= seq![' ']);
    }
    join(&all, " ")
}

/// The name under which a command is announced: the name that was given for
/// it, or else the command as one would type it.
pub fn display_name(name: Option<String>, command: &NonEmpty<String>) -> (out: String)
    ensures
        out@ == (match name {
            Some(given) => given@,
            None => joined(words(*command), seq![' ']),
        }),
{
    match name {
        Some(given) => given,
        None => printable_command(command),
    }
}

} // verus!
