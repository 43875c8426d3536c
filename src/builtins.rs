//! The text that the builtins and the command lookup write, and where it goes.
use vstd::prelude::*;
use vstd::string::*;

use crate::command::{CommandDiscriminants, is_builtin_name};
use crate::output::CommandWriterTarget;
use crate::text::{push_char, same_text, trim, trimmed};

verus! {

/// The words joined with one space between each two.
pub open spec fn join_words(words: Seq<Seq<char>>) -> Seq<char>
    decreases words.len(),
{
    if words.len() == 0 {
        Seq::empty()
    } else if words.len() == 1 {
        words[0]
    } else {
        join_words(words.drop_last()) + seq![' '] + words.last()
    }
}

/// What `echo` prints: its arguments joined by spaces and a newline, or nothing at all
/// when it has none.
pub open spec fn echo_text(args: Seq<Seq<char>>) -> Seq<char> {
    if args.len() == 0 {
        Seq::empty()
    } else {
        join_words(args).push('\n')
    }
}

/// The output of `echo` with the arguments `args`.
pub fn echo_output(args: &Vec<String>) -> (r: String)
    ensures
        r@ == echo_text(args.deep_view()),
{
    let ghost ws = args.deep_view();
    let n = args.len();
    if n == 0 {
        return String::new();
    }
    let mut out = String::new();
    let mut i: usize = 0;
    while i < n
        invariant
            n == args@.len(),
            ws == args.deep_view(),
            i <= n,
            out@ == join_words(ws.take(i as int)),
        decreases n - i,
    {
        if i > 0 {
            push_char(&mut out, ' ');
        }
        out.append(args[i].as_str());
        assert(ws.take(i + 1).drop_last() =~= ws.take(i as int));
        i = i + 1;
    }
    assert(ws.take(n as int) =~= ws);
    push_char(&mut out, '\n');
    out
}

/// A line of text and the stream it is written to.
pub struct Report {
    pub channel: CommandWriterTarget,
    pub text: String,
}

/// What `type` reports for `name`, given where a search of the executable path
/// found it, if anywhere.
pub open spec fn type_report_of(name: Seq<char>, resolved: Option<Seq<char>>) -> (
    CommandWriterTarget,
    Seq<char>,
) {
    if is_builtin_name(name) {
        (CommandWriterTarget::Stdout, name + " is a shell builtin\n"@)
    } else {
        match resolved {
            Some(path) => (CommandWriterTarget::Stdout, name + " is "@ + path + "\n"@),
            None => (CommandWriterTarget::Stderr, name + ": not found\n"@),
        }
    }
}

/// The line that `type` writes for `name`; `resolved` is the executable that a
/// search of the executable path found under that name, if any.
pub fn type_report(name: &str, resolved: Option<String>) -> (r: Report)
    ensures
        (r.channel, r.text@) == type_report_of(name@, resolved.deep_view()),
{
    let mut text = String::from_str(name);
    if CommandDiscriminants::is_builtin(name) {
        text.append(" is a shell builtin\n");
        Report { channel: CommandWriterTarget::Stdout, text }
    } else {
        match resolved {
            Some(path) => {
                text.append(" is ");
                text.append(path.as_str());
                text.append("\n");
                Report { channel: CommandWriterTarget::Stdout, text }
            },
            None => {
                text.append(": not found\n");
                Report { channel: CommandWriterTarget::Stderr, text }
            },
        }
    }
}

/// What is reported on standard error for a line whose command was found nowhere.
pub open spec fn not_found_text(line: Seq<char>) -> Seq<char> {
    trimmed(line) + ": command not found\n"@
}

/// The report for a line whose command is neither a builtin nor on the executable path.
pub fn not_found_message(line: &str) -> (r: String)
    ensures
        r@ == not_found_text(line@),
{
    let mut text = trim(line);
    text.append(": command not found\n");
    text
}

/// Why `cd` cannot tell where to go.
#[derive(Clone, Copy, PartialEq, Eq, Structural, Debug)]
pub enum CdError {
    /// The argument is `~` and no home directory is known.
    HomeUnavailable,
}

/// The directory `cd` goes to for the argument `path`: `~` stands for the home
/// directory `home`.
pub open spec fn cd_target_of(path: Seq<char>, home: Option<Seq<char>>) -> Result<
    Seq<char>,
    CdError,
> {
    if path == "~"@ {
        match home {
            Some(h) => Ok(h),
            None => Err(CdError::HomeUnavailable),
        }
    } else {
        Ok(path)
    }
}

/// Resolves the argument of `cd`, where `home` is the home directory if one is known.
pub fn cd_target(path: &str, home: Option<String>) -> (r: Result<String, CdError>)
    ensures
        match r {
            Ok(p) => cd_target_of(path@, home.deep_view()) == Ok::<Seq<char>, CdError>(p@),
            Err(e) => cd_target_of(path@, home.deep_view()) == Err::<Seq<char>, CdError>(e),
        },
{
    if same_text(path, "~") {
        match home {
            Some(h) => Ok(h),
            None => Err(CdError::HomeUnavailable),
        }
    } else {
        Ok(String::from_str(path))
    }
}

} // verus!
