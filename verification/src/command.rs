//! Command lines: a command string is split on white space into the program
//! to run and its arguments.
use crate::text::{chars_of, is_whitespace, is_whitespace_char};
use vstd::prelude::*;

verus! {

/// The number of characters at the start of `s` that come before the first
/// white space: the length of the word that `s` starts with.
pub open spec fn word_len(s: Seq<char>) -> nat
    decreases s.len(),
{
    if s.len() > 0 && !is_whitespace(s[0]) {
        1 + word_len(s.drop_first())
    } else {
        0
    }
}

/// The words of `s`: its maximal runs of characters that are not white
/// space, from left to right.
pub open spec fn words(s: Seq<char>) -> Seq<Seq<char>>
    decreases s.len(),
    via words_terminates
{
    if s.len() == 0 {
        Seq::empty()
    } else if is_whitespace(s[0]) {
        words(s.drop_first())
    } else {
        let n = word_len(s) as int;
        seq![s.take(n)] + words(s.skip(n))
    }
}

#[via_fn]
proof fn words_terminates(s: Seq<char>) {
    lemma_word_len_bounds(s);
}

/// A word is no longer than the text it starts, and not empty where the
/// text starts with a character that is not white space.
pub proof fn lemma_word_len_bounds(s: Seq<char>)
    ensures
        word_len(s) <= s.len(),
        s.len() > 0 && !is_whitespace(s[0]) ==> word_len(s) >= 1,
        forall|i: int| 0 <= i < word_len(s) ==> !is_whitespace(#[trigger] s[i]),
        word_len(s) < s.len() ==> is_whitespace(s[word_len(s) as int]),
    decreases s.len(),
{
    if s.len() > 0 && !is_whitespace(s[0]) {
        let rest = s.drop_first();
        lemma_word_len_bounds(rest);
        assert forall|i: int| 0 <= i < word_len(s) implies !is_whitespace(#[trigger] s[i]) by {
            if i > 0 {
                assert(s[i] == rest[i - 1]);
            }
        }
        if word_len(s) < s.len() {
            assert(s[word_len(s) as int] == rest[word_len(rest) as int]);
        }
    }
}

/// Whether `w` can be a word: it is not empty and holds no white space.
pub open spec fn is_word(w: Seq<char>) -> bool {
    &&& w.len() > 0
    &&& forall|i: int| 0 <= i < w.len() ==> !is_whitespace(#[trigger] w[i])
}

/// Every word of a text is non-empty and free of white space.
pub proof fn lemma_words_are_words(s: Seq<char>)
    ensures
        forall|k: int| 0 <= k < words(s).len() ==> is_word(#[trigger] words(s)[k]),
    decreases s.len(),
{
    if s.len() == 0 {
    } else if is_whitespace(s[0]) {
        lemma_words_are_words(s.drop_first());
        assert(words(s) == words(s.drop_first()));
    } else {
        let n = word_len(s) as int;
        lemma_word_len_bounds(s);
        lemma_words_are_words(s.skip(n));
        let first = s.take(n);
        let rest = words(s.skip(n));
        assert(words(s) == seq![first] + rest);
        assert(is_word(first)) by {
            assert forall|i: int| 0 <= i < first.len() implies !is_whitespace(
                #[trigger] first[i],
            ) by {
                assert(first[i] == s[i]);
            }
        }
        assert forall|k: int| 0 <= k < words(s).len() implies is_word(#[trigger] words(s)[k]) by {
            if k == 0 {
                assert(words(s)[0] == first);
            } else {
                assert(words(s)[k] == rest[k - 1]);
            }
        }
    }
}

/// A text has no words exactly when all its characters are white space.
pub proof fn lemma_no_words_iff_blank(s: Seq<char>)
    ensures
        words(s).len() == 0 <==> forall|i: int| 0 <= i < s.len() ==> is_whitespace(#[trigger] s[i]),
    decreases s.len(),
{
    if s.len() == 0 {
    } else if is_whitespace(s[0]) {
        let rest = s.drop_first();
        lemma_no_words_iff_blank(rest);
        if words(s).len() == 0 {
            assert forall|i: int| 0 <= i < s.len() implies is_whitespace(#[trigger] s[i]) by {
                if i > 0 {
                    assert(s[i] == rest[i - 1]);
                }
            }
        } else {
            let i = choose|i: int| 0 <= i < rest.len() && !is_whitespace(#[trigger] rest[i]);
            assert(s[i + 1] == rest[i]);
        }
    } else {
        assert(words(s).len() > 0);
        assert(!is_whitespace(s[0]));
    }
}

/// The characters of each string of a sequence.
pub open spec fn texts(strings: Seq<String>) -> Seq<Seq<char>> {
    strings.map_values(|s: String| s@)
}

/// Splits `text` into its words.
pub fn split_words(text: &str) -> (result: Vec<String>)
    ensures
        texts(result@) == words(text@),
{
    let chars = chars_of(text);
    let n = chars.len();
    let mut result: Vec<String> = Vec::new();
    let mut pos: usize = 0;
    assert(text@.skip(0) == text@);
    assert(texts(result@) + words(text@) == words(text@));
    while pos < n
        invariant
            chars@ == text@,
            n == chars@.len(),
            pos <= n,
            words(text@) == texts(result@) + words(text@.skip(pos as int)),
        decreases n - pos,
    {
        let ghost rest = text@.skip(pos as int);
        if is_whitespace_char(chars[pos]) {
            assert(rest.drop_first() == text@.skip(pos + 1));
            pos = pos + 1;
        } else {
            let start = pos;
            let mut end = pos + 1;
            assert(rest.drop_first() == text@.skip(end as int));
            while end < n && !is_whitespace_char(chars[end])
                invariant
                    chars@ == text@,
                    n == chars@.len(),
                    start < end <= n,
                    word_len(text@.skip(start as int)) == (end - start) + word_len(
                        text@.skip(end as int),
                    ),
                decreases n - end,
            {
                assert(text@.skip(end as int).drop_first() == text@.skip(end + 1));
                end = end + 1;
            }
            let word = text.substring_char(start, end).to_owned();
            proof {
                let len = (end - start) as int;
                assert(word_len(rest) == len);
                assert(rest.take(len) == text@.subrange(start as int, end as int));
                assert(rest.skip(len) == text@.skip(end as int));
                assert(texts(result@.push(word)) == texts(result@) + seq![word@]);
            }
            result.push(word);
            pos = end;
        }
    }
    assert(text@.skip(pos as int).len() == 0);
    result
}

/// A program and the arguments it is started with.
#[derive(Debug, Clone)]
pub struct CommandLine {
    pub program: String,
    pub args: Vec<String>,
}

/// The mathematical content of a [`CommandLine`].
pub struct CommandLineView {
    pub program: Seq<char>,
    pub args: Seq<Seq<char>>,
}

impl View for CommandLine {
    type V = CommandLineView;

    open spec fn view(&self) -> CommandLineView {
        CommandLineView { program: self.program@, args: texts(self.args@) }
    }
}

/// The command line that the words `w` stand for: the first is the
/// program, the others are its arguments. There is none without a word.
pub open spec fn command_of_words(w: Seq<Seq<char>>) -> Option<CommandLineView> {
    if w.len() == 0 {
        None
    } else {
        Some(CommandLineView { program: w[0], args: w.skip(1) })
    }
}

/// The command line that a command string stands for.
pub open spec fn parsed_command(command: Seq<char>) -> Option<CommandLineView> {
    command_of_words(words(command))
}

/// The view of an optional command line.
pub open spec fn option_command_view(c: Option<CommandLine>) -> Option<CommandLineView> {
    match c {
        Some(c) => Some(c@),
        None => None,
    }
}

impl CommandLine {
    /// Splits a command string into the program and its arguments. A string
    /// without a word, empty or all white space, stands for no command.
    pub fn parse(command: &str) -> (result: Option<CommandLine>)
        ensures
            option_command_view(result) == parsed_command(command@),
    {
        let mut parts = split_words(command);
        if parts.len() == 0 {
            None
        } else {
            let ghost all = parts@;
            let program = parts.remove(0);
            assert(texts(parts@) == texts(all).skip(1));
            Some(CommandLine { program, args: parts })
        }
    }
}

} // verus!
