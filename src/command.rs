//! The commands a line can ask for, and how a line becomes one.
use vstd::prelude::*;
use vstd::string::*;

use crate::lexer::{LexError, LineTokenIter, lex, redirection_of_tail};
use crate::redirection::{Redirection, RedirectionMode, RedirectionSource};
use crate::text::{i32_of, parse_i32, same_text};

verus! {

/// A command, ready to run.
pub enum Command {
    Exit(i32),
    Echo(Vec<String>),
    Type(Vec<String>),
    Pwd,
    Cd(Option<String>),
    NotFound(String, Vec<String>),
}

/// The mathematical value of a [`Command`].
pub enum CommandView {
    Exit(i32),
    Echo(Seq<Seq<char>>),
    Type(Seq<Seq<char>>),
    Pwd,
    Cd(Option<Seq<char>>),
    NotFound(Seq<char>, Seq<Seq<char>>),
}

impl View for Command {
    type V = CommandView;

    open spec fn view(&self) -> CommandView {
        match self {
            Command::Exit(code) => CommandView::Exit(*code),
            Command::Echo(args) => CommandView::Echo(args.deep_view()),
            Command::Type(args) => CommandView::Type(args.deep_view()),
            Command::Pwd => CommandView::Pwd,
            Command::Cd(path) => CommandView::Cd(path.deep_view()),
            Command::NotFound(name, args) => CommandView::NotFound(name@, args.deep_view()),
        }
    }
}

/// The kind of a [`Command`], without its arguments.
#[derive(Clone, Copy, PartialEq, Eq, Structural, Debug)]
pub enum CommandDiscriminants {
    Exit,
    Echo,
    Type,
    Pwd,
    Cd,
    NotFound,
}

/// The name under which a builtin is invoked; the other kind has none.
pub open spec fn builtin_name_of(d: CommandDiscriminants) -> Option<Seq<char>> {
    match d {
        CommandDiscriminants::Exit => Some("exit"@),
        CommandDiscriminants::Echo => Some("echo"@),
        CommandDiscriminants::Type => Some("type"@),
        CommandDiscriminants::Pwd => Some("pwd"@),
        CommandDiscriminants::Cd => Some("cd"@),
        CommandDiscriminants::NotFound => None,
    }
}

/// `name` invokes one of the builtins.
pub open spec fn is_builtin_name(name: Seq<char>) -> bool {
    exists|d: CommandDiscriminants| builtin_name_of(d) == Some(name)
}

impl CommandDiscriminants {
    /// Every kind of command, each once.
    pub fn variants() -> (r: Vec<CommandDiscriminants>)
        ensures
            r@ == seq![
                CommandDiscriminants::Exit,
                CommandDiscriminants::Echo,
                CommandDiscriminants::Type,
                CommandDiscriminants::Pwd,
                CommandDiscriminants::Cd,
                CommandDiscriminants::NotFound,
            ],
    {
        let r = vec![
            CommandDiscriminants::Exit,
            CommandDiscriminants::Echo,
            CommandDiscriminants::Type,
            CommandDiscriminants::Pwd,
            CommandDiscriminants::Cd,
            CommandDiscriminants::NotFound,
        ];
        assert(r@ =~= seq![
            CommandDiscriminants::Exit,
            CommandDiscriminants::Echo,
            CommandDiscriminants::Type,
            CommandDiscriminants::Pwd,
            CommandDiscriminants::Cd,
            CommandDiscriminants::NotFound,
        ]);
        r
    }

    /// The name that invokes this builtin.
    pub fn builtin_name(&self) -> (r: Option<&'static str>)
        ensures
            match r {
                Some(s) => builtin_name_of(*self) == Some(s@),
                None => builtin_name_of(*self) is None,
            },
    {
        match self {
            CommandDiscriminants::Exit => Some("exit"),
            CommandDiscriminants::Echo => Some("echo"),
            CommandDiscriminants::Type => Some("type"),
            CommandDiscriminants::Pwd => Some("pwd"),
            CommandDiscriminants::Cd => Some("cd"),
            CommandDiscriminants::NotFound => None,
        }
    }

    /// Whether `command` is the name of a builtin.
    pub fn is_builtin(command: &str) -> (r: bool)
        ensures
            r == is_builtin_name(command@),
    {
        let all = CommandDiscriminants::variants();
        let mut i: usize = 0;
        while i < all.len()
            invariant
                i <= all@.len(),
                all@ == seq![
                    CommandDiscriminants::Exit,
                    CommandDiscriminants::Echo,
                    CommandDiscriminants::Type,
                    CommandDiscriminants::Pwd,
                    CommandDiscriminants::Cd,
                    CommandDiscriminants::NotFound,
                ],
                forall|k: int| 0 <= k < i ==> builtin_name_of(#[trigger] all@[k]) != Some(command@),
            decreases all@.len() - i,
        {
            match all[i].builtin_name() {
                Some(name) => {
                    if same_text(name, command) {
                        assert(builtin_name_of(all@[i as int]) == Some(command@));
                        return true;
                    }
                },
                None => {},
            }
            i = i + 1;
        }
        assert forall|d: CommandDiscriminants| builtin_name_of(d) != Some(command@) by {
            match d {
                CommandDiscriminants::Exit => assert(all@[0] == d),
                CommandDiscriminants::Echo => assert(all@[1] == d),
                CommandDiscriminants::Type => assert(all@[2] == d),
                CommandDiscriminants::Pwd => assert(all@[3] == d),
                CommandDiscriminants::Cd => assert(all@[4] == d),
                CommandDiscriminants::NotFound => assert(all@[5] == d),
            }
        }
        false
    }
}

/// Why a line does not give a command.
#[derive(Clone, Copy, PartialEq, Eq, Structural, Debug)]
pub enum ParseError {
    /// The line could not be split into words.
    Lex(LexError),
    /// The line holds no word.
    EmptyLine,
    /// A builtin was given more arguments than it takes.
    ArgumentCount { command: CommandDiscriminants, got: usize },
    /// The argument of `exit` is not an `i32`.
    InvalidExitCode,
}

/// The code `exit` ends the shell with when it is given none.
pub const DEFAULT_EXIT_CODE: i32 = 127;

/// The command that the words of a line ask for.
pub open spec fn command_of(words: Seq<Seq<char>>) -> Result<CommandView, ParseError> {
    if words.len() == 0 {
        Err(ParseError::EmptyLine)
    } else {
        let name = words[0];
        let rest = words.drop_first();
        if name == "exit"@ {
            if rest.len() == 0 {
                Ok(CommandView::Exit(DEFAULT_EXIT_CODE))
            } else if rest.len() == 1 {
                match i32_of(rest[0]) {
                    Some(code) => Ok(CommandView::Exit(code)),
                    None => Err(ParseError::InvalidExitCode),
                }
            } else {
                Err(ParseError::ArgumentCount { command: CommandDiscriminants::Exit, got: rest.len() as usize })
            }
        } else if name == "echo"@ {
            Ok(CommandView::Echo(rest))
        } else if name == "type"@ {
            Ok(CommandView::Type(rest))
        } else if name == "pwd"@ {
            if rest.len() == 0 {
                Ok(CommandView::Pwd)
            } else {
                Err(ParseError::ArgumentCount { command: CommandDiscriminants::Pwd, got: rest.len() as usize })
            }
        } else if name == "cd"@ {
            if rest.len() == 0 {
                Ok(CommandView::Cd(None))
            } else if rest.len() == 1 {
                Ok(CommandView::Cd(Some(rest[0])))
            } else {
                Err(ParseError::ArgumentCount { command: CommandDiscriminants::Cd, got: rest.len() as usize })
            }
        } else {
            Ok(CommandView::NotFound(name, rest))
        }
    }
}

impl Command {
    /// Builds the command that `words` ask for: the first word names it, the rest are its arguments.
    pub fn build(words: Vec<String>) -> (r: Result<Command, ParseError>)
        ensures
            match r {
                Ok(c) => command_of(words.deep_view()) == Ok::<CommandView, ParseError>(c@),
                Err(e) => command_of(words.deep_view()) == Err::<CommandView, ParseError>(e),
            },
    {
        let ghost all = words.deep_view();
        let mut rest = words;
        if rest.len() == 0 {
            return Err(ParseError::EmptyLine);
        }
        let name = rest.remove(0);
        assert(rest.deep_view() =~= all.drop_first());
        let n = rest.len();
        if same_text(name.as_str(), "exit") {
            if n == 0 {
                Ok(Command::Exit(DEFAULT_EXIT_CODE))
            } else if n == 1 {
                match parse_i32(rest[0].as_str()) {
                    Some(code) => Ok(Command::Exit(code)),
                    None => Err(ParseError::InvalidExitCode),
                }
            } else {
                Err(ParseError::ArgumentCount { command: CommandDiscriminants::Exit, got: n })
            }
        } else if same_text(name.as_str(), "echo") {
            Ok(Command::Echo(rest))
        } else if same_text(name.as_str(), "type") {
            Ok(Command::Type(rest))
        } else if same_text(name.as_str(), "pwd") {
            if n == 0 {
                Ok(Command::Pwd)
            } else {
                Err(ParseError::ArgumentCount { command: CommandDiscriminants::Pwd, got: n })
            }
        } else if same_text(name.as_str(), "cd") {
            if n == 0 {
                Ok(Command::Cd(None))
            } else if n == 1 {
                let path = rest.remove(0);
                Ok(Command::Cd(Some(path)))
            } else {
                Err(ParseError::ArgumentCount { command: CommandDiscriminants::Cd, got: n })
            }
        } else {
            Ok(Command::NotFound(name, rest))
        }
    }
}

/// A command together with the redirection of its output.
pub struct InputCommand {
    pub command: Command,
    pub redirect: Option<Redirection>,
}

impl View for InputCommand {
    type V = (CommandView, Option<(RedirectionSource, RedirectionMode, Seq<char>)>);

    open spec fn view(&self) -> Self::V {
        (self.command@, self.redirect.deep_view())
    }
}

/// What a whole input line asks for; a malformed redirection counts as none.
pub open spec fn input_of(line: Seq<char>) -> Result<
    (CommandView, Option<(RedirectionSource, RedirectionMode, Seq<char>)>),
    ParseError,
> {
    match lex(line) {
        Err(e) => Err(ParseError::Lex(e)),
        Ok((words, tail)) => match command_of(words) {
            Err(e) => Err(e),
            Ok(c) => Ok((c, redirection_of_tail(tail))),
        },
    }
}

impl InputCommand {
    /// Parses one input line into the command it asks for.
    pub fn parse(line: &str) -> (r: Result<InputCommand, ParseError>)
        ensures
            match r {
                Ok(ic) => input_of(line@) == Ok::<_, ParseError>(ic@),
                Err(e) => input_of(line@) == Err::<
                    (CommandView, Option<(RedirectionSource, RedirectionMode, Seq<char>)>),
                    ParseError,
                >(e),
            },
    {
        let tokens = match LineTokenIter::new(line) {
            Ok(t) => t,
            Err(e) => return Err(ParseError::Lex(e)),
        };
        let redirect = tokens.redirection();
        let words = tokens.rest();
        match Command::build(words) {
            Ok(command) => Ok(InputCommand { command, redirect }),
            Err(e) => Err(e),
        }
    }
}

} // verus!
