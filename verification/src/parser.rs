//! From a line of text to a command invocation.

use crate::text::{
    is_word, lemma_words_are_words, split, split_str, split_words, trim, trim_str, words,
};
use crate::CommandView;
use crate::UserCommand;
use vstd::prelude::*;
use vstd::string::*;

verus! {

/// The invocation that a line of text encodes: its first word is the
/// command's name, the words after it are the arguments. A line without a
/// word encodes nothing.
pub open spec fn parsed(input: Seq<char>) -> Option<CommandView> {
    let w = words(input);
    if w.len() == 0 {
        None
    } else {
        Some(CommandView { cmd: w[0], args: w.skip(1) })
    }
}

/// Parses a line of text into a command invocation.
pub fn parse(input: &str) -> (r: Option<UserCommand>)
    ensures
        r.deep_view() == parsed(input@),
{
    let mut list = split_words(input);
    if list.len() == 0 {
        return None;
    }
    let ghost all = list.deep_view();
    let cmd = list.remove(0);
    assert(list.deep_view() == all.skip(1));
    assert(cmd@ == all[0]);
    Some(UserCommand { cmd, args: list })
}

/// A command's name is never empty and holds no white space, and neither
/// does any of its arguments.
pub proof fn lemma_parsed_words(input: Seq<char>)
    requires
        parsed(input) is Some,
    ensures
        is_word(parsed(input)->0.cmd),
        forall|i: int|
            0 <= i < parsed(input)->0.args.len() ==> is_word(#[trigger] parsed(input)->0.args[i]),
{
    lemma_words_are_words(input);
    let w = words(input);
    assert(is_word(w[0]));
    assert forall|i: int| 0 <= i < w.skip(1).len() implies is_word(#[trigger] w.skip(1)[i]) by {
        assert(w.skip(1)[i] == w[i + 1]);
    }
}

/// The character that separates the stages of a pipeline.
pub const PIPE: char = '|';

/// The texts of the stages that a line holds: the pieces between its pipe
/// characters, each without the white space around it. A line of white space
/// holds none.
pub open spec fn stage_texts(line: Seq<char>) -> Seq<Seq<char>> {
    let pieces = split(trim(line), PIPE);
    if trim(line).len() == 0 {
        Seq::empty()
    } else {
        Seq::new(pieces.len(), |i: int| trim(pieces[i]))
    }
}

/// Splits a line into the texts of its stages.
pub fn split_stages<'a>(line: &'a str) -> (stages: Vec<&'a str>)
    ensures
        stages.deep_view() == stage_texts(line@),
{
    let line = trim_str(line);
    let mut stages: Vec<&'a str> = Vec::new();
    if line.unicode_len() == 0 {
        return stages;
    }
    let pieces = split_str(line, PIPE);
    let mut i: usize = 0;
    while i < pieces.len()
        invariant
            i <= pieces.len(),
            stages.len() == i,
            forall|k: int| 0 <= k < i ==> #[trigger] stages.deep_view()[k] == trim(pieces[k]@),
        decreases pieces.len() - i,
    {
        let ghost before = stages.deep_view();
        stages.push(trim_str(pieces[i]));
        assert(stages.deep_view() == before.push(trim(pieces[i as int]@)));
        i += 1;
    }
    assert forall|k: int| 0 <= k < pieces.len() implies pieces.deep_view()[k] == pieces[k]@ by {}
    stages
}

} // verus!
