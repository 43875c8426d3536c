//! Splits an input line into words, honouring quotes and backslash escapes,
//! and cuts off the trailing output-redirection directive.
use vstd::prelude::*;
use vstd::string::*;

use crate::redirection::{Redirection, RedirectionMode, RedirectionSource, redirection_of};
use crate::text::{
    CharClass, in_class, is_digit_char, lemma_run_end_bounds, lemma_run_end_whole, push_char,
    scan_run,
};

verus! {

/// The quoting context that governs the next character.
#[derive(Clone, Copy, PartialEq, Eq, Structural, Debug)]
pub enum QuoteState {
    Unquoted,
    SingleQuoted,
    DoubleQuoted,
}

/// Why a line could not be split into words.
#[derive(Clone, Copy, PartialEq, Eq, Structural, Debug)]
pub enum LexError {
    /// The line ends right after a backslash that escapes.
    UnterminatedEscape,
}

/// The words of a line, in order, and the raw redirection tail if there is one.
pub type Lexed = (Seq<Seq<char>>, Option<Seq<char>>);

/// A word is kept only when it is not empty.
pub open spec fn emit(words: Seq<Seq<char>>, word: Seq<char>) -> Seq<Seq<char>> {
    if word.len() > 0 {
        words.push(word)
    } else {
        words
    }
}

/// A word standing right before `>` that names the redirected stream (`2`, `&`).
pub open spec fn is_stream_prefix(word: Seq<char>) -> bool {
    word.len() > 0 && ((forall|k: int| 0 <= k < word.len() ==> is_digit_char(#[trigger] word[k]))
        || word == seq!['&'])
}

/// A character that a backslash escapes inside double quotes.
pub open spec fn escapable_in_double(c: char) -> bool {
    c == '\\' || c == '$' || c == '"' || c == '\n'
}

/// The outcome of lexing `s` from index `i`, in quoting state `q`, with the word
/// `word` under construction and the words `words` already complete.
pub open spec fn lex_from(
    s: Seq<char>,
    i: int,
    q: QuoteState,
    word: Seq<char>,
    words: Seq<Seq<char>>,
) -> Result<Lexed, LexError>
    decreases s.len() - i,
{
    if i < 0 || i >= s.len() {
        Ok((emit(words, word), None))
    } else {
        let c = s[i];
        match q {
            QuoteState::Unquoted => {
                if c == '"' {
                    lex_from(s, i + 1, QuoteState::DoubleQuoted, word, words)
                } else if c == '\'' {
                    lex_from(s, i + 1, QuoteState::SingleQuoted, word, words)
                } else if c == '\\' {
                    if i + 1 < s.len() {
                        lex_from(s, i + 2, q, word.push(s[i + 1]), words)
                    } else {
                        Err(LexError::UnterminatedEscape)
                    }
                } else if c == ' ' || c == '\n' {
                    lex_from(s, i + 1, q, Seq::empty(), emit(words, word))
                } else if c == '>' {
                    if is_stream_prefix(word) {
                        Ok((words, Some(word + s.subrange(i, s.len() as int))))
                    } else {
                        Ok((emit(words, word), Some(s.subrange(i, s.len() as int))))
                    }
                } else {
                    lex_from(s, i + 1, q, word.push(c), words)
                }
            },
            QuoteState::SingleQuoted => {
                if c == '\'' {
                    lex_from(s, i + 1, QuoteState::Unquoted, word, words)
                } else {
                    lex_from(s, i + 1, q, word.push(c), words)
                }
            },
            QuoteState::DoubleQuoted => {
                if c == '"' {
                    lex_from(s, i + 1, QuoteState::Unquoted, word, words)
                } else if c == '\\' {
                    if i + 1 < s.len() {
                        if escapable_in_double(s[i + 1]) {
                            lex_from(s, i + 2, q, word.push(s[i + 1]), words)
                        } else {
                            lex_from(s, i + 1, q, word.push('\\'), words)
                        }
                    } else {
                        Err(LexError::UnterminatedEscape)
                    }
                } else {
                    lex_from(s, i + 1, q, word.push(c), words)
                }
            },
        }
    }
}

/// The words and redirection tail of a whole line.
pub open spec fn lex(s: Seq<char>) -> Result<Lexed, LexError> {
    lex_from(s, 0, QuoteState::Unquoted, Seq::empty(), Seq::empty())
}

/// Every word of a list is non-empty.
pub open spec fn all_non_empty(words: Seq<Seq<char>>) -> bool {
    forall|k: int| 0 <= k < words.len() ==> (#[trigger] words[k]).len() > 0
}

proof fn lemma_lex_from_total(
    s: Seq<char>,
    i: int,
    q: QuoteState,
    word: Seq<char>,
    words: Seq<Seq<char>>,
)
    requires
        0 <= i,
        all_non_empty(words),
    ensures
        lex_from(s, i, q, word, words) is Err ==> s.len() > 0 && s.last() == '\\',
        lex_from(s, i, q, word, words) matches Ok((ws, _)) ==> all_non_empty(ws),
    decreases s.len() - i,
{
    let e = emit(words, word);
    assert(all_non_empty(e)) by {
        if word.len() > 0 {
            assert forall|k: int| 0 <= k < e.len() implies (#[trigger] e[k]).len() > 0 by {
                if k < words.len() {
                    assert(e[k] == words[k]);
                }
            }
        }
    }
    if i < s.len() {
        let c = s[i];
        lemma_lex_from_total(s, i + 1, QuoteState::Unquoted, word, words);
        lemma_lex_from_total(s, i + 1, QuoteState::SingleQuoted, word, words);
        lemma_lex_from_total(s, i + 1, QuoteState::DoubleQuoted, word, words);
        lemma_lex_from_total(s, i + 1, q, word.push(c), words);
        lemma_lex_from_total(s, i + 1, q, word.push('\\'), words);
        lemma_lex_from_total(s, i + 1, q, Seq::empty(), e);
        if i + 1 < s.len() {
            lemma_lex_from_total(s, i + 2, q, word.push(s[i + 1]), words);
        }
    }
}

/// Lexing always comes to an end, and fails only on a line whose last character is a
/// backslash; every word it gives is non-empty. Since `tokenize` returns exactly
/// `lex` of the line's text, runs on the same text agree.
pub proof fn lemma_lex_total(s: Seq<char>)
    ensures
        lex(s) is Err ==> s.len() > 0 && s.last() == '\\',
        lex(s) matches Ok((words, _)) ==> all_non_empty(words),
{
    lemma_lex_from_total(s, 0, QuoteState::Unquoted, Seq::empty(), Seq::empty());
}

fn is_stream_prefix_word(word: &String) -> (r: bool)
    ensures
        r == is_stream_prefix(word@),
{
    let w = word.as_str();
    let n = w.unicode_len();
    if n == 0 {
        return false;
    }
    if n == 1 && w.get_char(0) == '&' {
        assert(w@ =~= seq!['&']);
        return true;
    }
    let e = scan_run(w, n, 0, CharClass::Digit);
    proof {
        lemma_run_end_bounds(w@, 0, CharClass::Digit);
        if forall|k: int| 0 <= k < w@.len() ==> is_digit_char(#[trigger] w@[k]) {
            assert forall|k: int| 0 <= k < w@.len() implies in_class(
                #[trigger] w@[k],
                CharClass::Digit,
            ) by {
                assert(is_digit_char(w@[k]));
            }
            lemma_run_end_whole(w@, 0, CharClass::Digit);
        }
        if w@ == seq!['&'] {
            assert(w@[0] == '&');
        }
    }
    e == n
}

fn push_word(words: &mut Vec<String>, word: String)
    ensures
        final(words).deep_view() == emit(old(words).deep_view(), word@),
{
    if word.as_str().unicode_len() > 0 {
        let ghost before = words.deep_view();
        words.push(word);
        assert(words.deep_view() =~= before.push(word@));
    }
}

/// Splits `line` into its words and the raw text of its redirection directive.
pub fn tokenize(line: &str) -> (r: Result<(Vec<String>, Option<String>), LexError>)
    ensures
        match r {
            Ok((words, tail)) => lex(line@) == Ok::<Lexed, LexError>(
                (words.deep_view(), tail.deep_view()),
            ),
            Err(e) => lex(line@) == Err::<Lexed, LexError>(e),
        },
{
    let ghost s = line@;
    let n = line.unicode_len();
    let mut i: usize = 0;
    let mut q = QuoteState::Unquoted;
    let mut word = String::new();
    let mut words: Vec<String> = Vec::new();
    assert(words.deep_view() =~= Seq::<Seq<char>>::empty());
    while i < n
        invariant
            n == s.len(),
            s == line@,
            i <= n,
            lex_from(s, i as int, q, word@, words.deep_view()) == lex(s),
        decreases n - i,
    {
        let c = line.get_char(i);
        match q {
            QuoteState::Unquoted => {
                if c == '"' {
                    q = QuoteState::DoubleQuoted;
                    i = i + 1;
                } else if c == '\'' {
                    q = QuoteState::SingleQuoted;
                    i = i + 1;
                } else if c == '\\' {
                    if i + 1 < n {
                        push_char(&mut word, line.get_char(i + 1));
                        i = i + 2;
                    } else {
                        return Err(LexError::UnterminatedEscape);
                    }
                } else if c == ' ' || c == '\n' {
                    push_word(&mut words, word);
                    word = String::new();
                    i = i + 1;
                } else if c == '>' {
                    let rest = line.substring_char(i, n);
                    if is_stream_prefix_word(&word) {
                        word.append(rest);
                        return Ok((words, Some(word)));
                    } else {
                        push_word(&mut words, word);
                        return Ok((words, Some(String::from_str(rest))));
                    }
                } else {
                    push_char(&mut word, c);
                    i = i + 1;
                }
            },
            QuoteState::SingleQuoted => {
                if c == '\'' {
                    q = QuoteState::Unquoted;
                } else {
                    push_char(&mut word, c);
                }
                i = i + 1;
            },
            QuoteState::DoubleQuoted => {
                if c == '"' {
                    q = QuoteState::Unquoted;
                    i = i + 1;
                } else if c == '\\' {
                    if i + 1 < n {
                        let d = line.get_char(i + 1);
                        if d == '\\' || d == '$' || d == '"' || d == '\n' {
                            push_char(&mut word, d);
                            i = i + 2;
                        } else {
                            push_char(&mut word, '\\');
                            i = i + 1;
                        }
                    } else {
                        return Err(LexError::UnterminatedEscape);
                    }
                } else {
                    push_char(&mut word, c);
                    i = i + 1;
                }
            },
        }
    }
    push_word(&mut words, word);
    Ok((words, None))
}

/// The words of one line, handed out in order, and its redirection directive.
pub struct LineTokenIter {
    words: Vec<String>,
    tail: Option<String>,
}

impl View for LineTokenIter {
    type V = Lexed;

    closed spec fn view(&self) -> Lexed {
        (self.words.deep_view(), self.tail.deep_view())
    }
}

impl LineTokenIter {
    /// Lexes `line` whole; the words are then taken one at a time with `next`.
    pub fn new(line: &str) -> (r: Result<LineTokenIter, LexError>)
        ensures
            match r {
                Ok(it) => lex(line@) == Ok::<Lexed, LexError>(it@),
                Err(e) => lex(line@) == Err::<Lexed, LexError>(e),
            },
    {
        match tokenize(line) {
            Ok((words, tail)) => Ok(LineTokenIter { words, tail }),
            Err(e) => Err(e),
        }
    }

    /// The next word, or `None` once all have been taken.
    pub fn next(&mut self) -> (r: Option<String>)
        ensures
            old(self)@.0.len() == 0 ==> r is None && final(self)@ == old(self)@,
            old(self)@.0.len() > 0 ==> r is Some && r->0@ == old(self)@.0[0] && final(self)@ == (
            old(self)@.0.drop_first(), old(self)@.1),
    {
        if self.words.len() == 0 {
            None
        } else {
            let ghost before = self.words.deep_view();
            let w = self.words.remove(0);
            assert(self.words.deep_view() =~= before.drop_first());
            Some(w)
        }
    }

    /// The words not taken yet, in order.
    pub fn rest(self) -> (r: Vec<String>)
        ensures
            r.deep_view() == self@.0,
    {
        self.words
    }

    /// The raw text of the redirection directive, if the line has one.
    pub fn raw_redirection(&self) -> (r: Option<String>)
        ensures
            r.deep_view() == self@.1,
    {
        match &self.tail {
            Some(t) => Some(t.clone()),
            None => None,
        }
    }

    /// The parsed redirection directive; a malformed one counts as none.
    pub fn redirection(&self) -> (r: Option<Redirection>)
        ensures
            r.deep_view() == redirection_of_tail(self@.1),
    {
        match &self.tail {
            Some(t) => Redirection::parse(t.as_str()),
            None => None,
        }
    }
}

/// What the raw tail of a line redirects, where it is well formed.
pub open spec fn redirection_of_tail(tail: Option<Seq<char>>) -> Option<
    (RedirectionSource, RedirectionMode, Seq<char>),
> {
    match tail {
        Some(t) => redirection_of(t),
        None => None,
    }
}

} // verus!
