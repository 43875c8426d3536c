//! Output-redirection directives such as `> out.txt`, `2>> err.log` or `&> all.log`.
use peeking_take_while::PeekableExt;
use vstd::prelude::*;
use vstd::string::*;

use crate::text::{
    CharClass, digits_value, is_ascii_digit, is_digit_char, lemma_run_end_bounds, run_end,
    scan_run,
};

verus! {

/// How the target file is opened.
#[derive(Clone, Copy, PartialEq, Eq, Structural, Debug)]
pub enum RedirectionMode {
    Write,
    Append,
}

/// Which of the command's output streams goes to the target file.
#[derive(Clone, Copy, PartialEq, Eq, Structural, Debug)]
pub enum RedirectionSource {
    Stdout,
    Stderr,
    Both,
}

/// A parsed redirection directive.
#[derive(Clone, Debug, PartialEq, Eq)]
pub struct Redirection {
    pub source: RedirectionSource,
    pub mode: RedirectionMode,
    pub target: String,
}

impl View for Redirection {
    type V = (RedirectionSource, RedirectionMode, Seq<char>);

    open spec fn view(&self) -> Self::V {
        (self.source, self.mode, self.target@)
    }
}

impl DeepView for Redirection {
    type V = (RedirectionSource, RedirectionMode, Seq<char>);

    open spec fn deep_view(&self) -> Self::V {
        self@
    }
}

/// The stream named by the prefix of `s`, with the index just past that prefix.
pub open spec fn source_prefix(s: Seq<char>) -> Option<(RedirectionSource, int)> {
    if s.len() > 0 && s[0] == '&' {
        Some((RedirectionSource::Both, 1))
    } else {
        let e = run_end(s, 0, CharClass::Digit);
        let v = digits_value(s.subrange(0, e));
        if v <= 1 {
            Some((RedirectionSource::Stdout, e))
        } else if v == 2 {
            Some((RedirectionSource::Stderr, e))
        } else {
            None
        }
    }
}

/// The mode given by the run of `>` that starts at `i`.
pub open spec fn mode_at(s: Seq<char>, i: int) -> Option<RedirectionMode> {
    let n = run_end(s, i, CharClass::Angle) - i;
    if n == 1 {
        Some(RedirectionMode::Write)
    } else if n == 2 {
        Some(RedirectionMode::Append)
    } else {
        None
    }
}

/// The first word of `s` at or after `i`, after any whitespace.
pub open spec fn word_at(s: Seq<char>, i: int) -> Seq<char> {
    let b = run_end(s, i, CharClass::Space);
    s.subrange(b, run_end(s, b, CharClass::NonSpace))
}

/// What a redirection directive means, or `None` where it is malformed.
pub open spec fn redirection_of(s: Seq<char>) -> Option<
    (RedirectionSource, RedirectionMode, Seq<char>),
> {
    if s.len() == 0 {
        None
    } else {
        match source_prefix(s) {
            None => None,
            Some((source, i)) => match mode_at(s, i) {
                None => None,
                Some(mode) => Some((source, mode, word_at(s, run_end(s, i, CharClass::Angle)))),
            },
        }
    }
}

/// Relies on peeking_take_while::PeekableExt::peeking_take_while: it yields the
/// leading characters for which the predicate holds and stops before the first that fails it.
#[verifier::external_body]
fn leading_digits(value: &str) -> (r: String)
    ensures
        r@ == value@.subrange(0, run_end(value@, 0, CharClass::Digit)),
{
    value.chars().peekable().peeking_take_while(|c| is_ascii_digit(*c)).collect()
}

/// The value of the digits `d`, or 3 where it is larger.
fn small_digits_value(d: &str) -> (r: u8)
    requires
        forall|k: int| 0 <= k < d@.len() ==> is_digit_char(#[trigger] d@[k]),
    ensures
        r == if digits_value(d@) < 3 {
            digits_value(d@)
        } else {
            3
        },
{
    let n = d.unicode_len();
    let mut v: u8 = 0;
    let mut i: usize = 0;
    while i < n
        invariant
            n == d@.len(),
            i <= n,
            forall|k: int| 0 <= k < d@.len() ==> is_digit_char(#[trigger] d@[k]),
            v == if digits_value(d@.subrange(0, i as int)) < 3 {
                digits_value(d@.subrange(0, i as int))
            } else {
                3
            },
        decreases n - i,
    {
        let c = d.get_char(i);
        let digit = (c as u32 - 48) as u8;
        assert(d@.subrange(0, i + 1).drop_last() =~= d@.subrange(0, i as int));
        if v < 3 {
            let w = v * 10 + digit;
            v = if w < 3 {
                w
            } else {
                3
            };
        }
        i = i + 1;
    }
    assert(d@.subrange(0, n as int) =~= d@);
    v
}

impl Redirection {
    /// Parses a raw directive; a malformed one gives `None`.
    pub fn parse(value: &str) -> (r: Option<Redirection>)
        ensures
            r.deep_view() == redirection_of(value@),
    {
        let n = value.unicode_len();
        if n == 0 {
            return None;
        }
        let ghost s = value@;
        let mut source = RedirectionSource::Stdout;
        let mut i: usize;
        if value.get_char(0) == '&' {
            source = RedirectionSource::Both;
            i = 1;
        } else {
            let digits = leading_digits(value);
            proof {
                lemma_run_end_bounds(s, 0, CharClass::Digit);
            }
            let d = digits.as_str();
            i = d.unicode_len();
            let v = small_digits_value(d);
            if v == 2 {
                source = RedirectionSource::Stderr;
            } else if v > 2 {
                return None;
            }
        }
        let after = scan_run(value, n, i, CharClass::Angle);
        proof {
            lemma_run_end_bounds(s, i as int, CharClass::Angle);
        }
        let mode = if after - i == 1 {
            RedirectionMode::Write
        } else if after - i == 2 {
            RedirectionMode::Append
        } else {
            return None;
        };
        let b = scan_run(value, n, after, CharClass::Space);
        proof {
            lemma_run_end_bounds(s, after as int, CharClass::Space);
        }
        let e = scan_run(value, n, b, CharClass::NonSpace);
        proof {
            lemma_run_end_bounds(s, b as int, CharClass::NonSpace);
        }
        let target = String::from_str(value.substring_char(b, e));
        Some(Redirection { source, mode, target })
    }
}

} // verus!
