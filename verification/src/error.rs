//! Errors the coordinator reports. Every one is a per-request condition:
//! none is fatal to the process.

use vstd::prelude::*;

verus! {

/// A state conflict reported to the requesting user as a short message.
#[derive(Clone, Copy, Debug, PartialEq, Eq, Structural)]
pub enum Error {
    /// A `join` was asked for a server that already has a session.
    AlreadyConnected,
    /// An `enqueue` was asked for a server that has no session.
    NotConnected,
    /// A `skip` or `status` was asked while nothing is playing.
    NoSongPlaying,
    /// A `queue` was asked for a server with no session or an empty queue.
    EmptyQueue,
}

/// The wording of each report, as the user sees it.
pub open spec fn spec_message(e: Error) -> Seq<char> {
    match e {
        Error::AlreadyConnected => "Already in a voice channel"@,
        Error::NotConnected => "Not in a voice channel"@,
        Error::NoSongPlaying => "No song is currently playing"@,
        Error::EmptyQueue => "No songs are queued"@,
    }
}

impl Error {
    /// The short message reported for this condition.
    pub fn message(&self) -> (r: &'static str)
        ensures
            r@ == spec_message(*self),
    {
        match self {
            Error::AlreadyConnected => "Already in a voice channel",
            Error::NotConnected => "Not in a voice channel",
            Error::NoSongPlaying => "No song is currently playing",
            Error::EmptyQueue => "No songs are queued",
        }
    }
}

} // verus!
