//! Where each of a command's two output streams goes.
use vstd::prelude::*;

use crate::redirection::{Redirection, RedirectionMode, RedirectionSource, redirection_of};

verus! {

/// The output stream of a command that a sink stands for.
#[derive(Clone, Copy, PartialEq, Eq, Structural, Debug)]
pub enum CommandWriterTarget {
    Stdout,
    Stderr,
}

/// Where a sink's writes and flushes go.
#[derive(Clone, Copy, PartialEq, Eq, Structural, Debug)]
pub enum Destination {
    /// The one file opened for the redirection, shared by both sinks.
    File,
    /// The stream that the shell process inherited for this channel.
    Inherited,
}

/// A directive for `source` takes over the stream `target`.
pub open spec fn serves(target: CommandWriterTarget, source: RedirectionSource) -> bool {
    match source {
        RedirectionSource::Stdout => target == CommandWriterTarget::Stdout,
        RedirectionSource::Stderr => target == CommandWriterTarget::Stderr,
        RedirectionSource::Both => true,
    }
}

/// The sink for `target` writes to the file if and only if a directive is present
/// and its source takes over `target`.
pub open spec fn destination_of(
    target: CommandWriterTarget,
    redirect: Option<(RedirectionSource, RedirectionMode, Seq<char>)>,
) -> Destination {
    match redirect {
        Some(d) => if serves(target, d.0) {
            Destination::File
        } else {
            Destination::Inherited
        },
        None => Destination::Inherited,
    }
}

impl CommandWriterTarget {
    /// Whether a directive for `src` takes over this stream.
    pub fn matches_source(&self, src: &RedirectionSource) -> (r: bool)
        ensures
            r == serves(*self, *src),
    {
        match src {
            RedirectionSource::Stdout => matches!(self, CommandWriterTarget::Stdout),
            RedirectionSource::Stderr => matches!(self, CommandWriterTarget::Stderr),
            RedirectionSource::Both => true,
        }
    }

    /// Where this stream's writes go under the redirection `redirect`.
    pub fn destination(&self, redirect: &Option<Redirection>) -> (r: Destination)
        ensures
            r == destination_of(*self, redirect.deep_view()),
    {
        match redirect {
            Some(d) => if self.matches_source(&d.source) {
                Destination::File
            } else {
                Destination::Inherited
            },
            None => Destination::Inherited,
        }
    }
}

/// Under a directive for both streams, parsed from `raw`, the sink of standard output
/// and the sink of standard error write to the same, single file: the bytes
/// handed to either land in it alike.
pub proof fn lemma_both_sinks_share_file(
    raw: Seq<char>,
    d: (RedirectionSource, RedirectionMode, Seq<char>),
)
    requires
        redirection_of(raw) == Some(d),
        d.0 == RedirectionSource::Both,
    ensures
        destination_of(CommandWriterTarget::Stdout, Some(d)) == Destination::File,
        destination_of(CommandWriterTarget::Stderr, Some(d)) == Destination::File,
{
}

} // verus!
