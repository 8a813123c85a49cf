//! Queued requests and the currently-playing record, with the skip-vote
//! decision they are subject to, and the `MM:SS` rendering of a duration.

use vstd::prelude::*;
use vstd::string::StringExecFns;
use crate::youtube_dl::Response;

verus! {

/// What a single skip request decided.
#[derive(Copy, Clone, Debug, PartialEq, Eq, Structural)]
pub enum SkipVote {
    /// The voter's vote was already counted; nothing changes.
    AlreadyVoted,
    /// The vote reached the required tally: forced stop.
    Passed,
    /// The vote was counted and the tally is still short.
    Voted,
    /// The requester skipped their own item: forced stop, whatever the tally.
    VoterSkipped,
}

/// One entry of a server's queue: a resolved item and who asked for it.
#[derive(Clone, Debug)]
pub struct MusicRequest {
    /// The resolved item to play.
    pub response: Response,
    /// The channel the request was made in.
    pub requested_in: u64,
    /// Display name of the requesting user.
    pub requester_name: String,
    /// The requesting user.
    pub requester: u64,
}

/// The record that exists only while a server is playing something.
#[derive(Clone, Debug)]
pub struct MusicPlaying {
    /// The request being played; it left the queue when playback started.
    pub req: MusicRequest,
    /// How many counted votes force a stop; fixed when the record is made.
    pub skip_votes_required: u16,
    /// The users whose skip votes were counted. Never contains the
    /// requester: the requester's skip is a distinct, always-passing action.
    pub skip_votes: Vec<u64>,
    /// When playback started, in seconds since the epoch.
    pub started_at: u64,
}

/// The skip-vote state machine: what one vote by `voter` decides against
/// the record `rec`, before any mutation.
pub open spec fn skip_outcome(rec: MusicPlaying, voter: u64) -> SkipVote {
    if voter == rec.req.requester {
        SkipVote::VoterSkipped
    } else if rec.skip_votes@.contains(voter) {
        SkipVote::AlreadyVoted
    } else if rec.skip_votes@.len() + 1 >= rec.skip_votes_required {
        SkipVote::Passed
    } else {
        SkipVote::Voted
    }
}

/// Whether an outcome forces the current item to stop: the record is
/// cleared, the server leaves the completion index, the gateway is told
/// to stop.
pub open spec fn forces_stop(vote: SkipVote) -> bool {
    vote == SkipVote::Passed || vote == SkipVote::VoterSkipped
}

/// A vote by the requester of the current item forces a stop, whatever
/// the tally or the prior voters.
pub proof fn lemma_requester_skip_always_passes(rec: MusicPlaying)
    ensures
        skip_outcome(rec, rec.req.requester) == SkipVote::VoterSkipped,
        forces_stop(skip_outcome(rec, rec.req.requester)),
{
}

/// A voter whose vote was just counted (`Voted`) and who votes again on
/// the resulting record — no forced stop in between — is told
/// `AlreadyVoted`, and `AlreadyVoted` mutates nothing.
pub proof fn lemma_second_vote_already_voted(rec: MusicPlaying, rec2: MusicPlaying, voter: u64)
    requires
        skip_outcome(rec, voter) == SkipVote::Voted,
        rec2.req == rec.req,
        rec2.skip_votes_required == rec.skip_votes_required,
        rec2.skip_votes@ == rec.skip_votes@.push(voter),
    ensures
        skip_outcome(rec2, voter) == SkipVote::AlreadyVoted,
{
    assert(rec2.skip_votes@[rec.skip_votes@.len() as int] == voter);
    assert(rec2.skip_votes@.contains(voter));
}

/// The digit character for `d`.
pub open spec fn digit_char(d: u64) -> char {
    if d == 0 {
        '0'
    } else if d == 1 {
        '1'
    } else if d == 2 {
        '2'
    } else if d == 3 {
        '3'
    } else if d == 4 {
        '4'
    } else if d == 5 {
        '5'
    } else if d == 6 {
        '6'
    } else if d == 7 {
        '7'
    } else if d == 8 {
        '8'
    } else {
        '9'
    }
}

/// A duration of `secs` seconds rendered as `MM:SS`: minutes within the
/// hour, zero-padded, then seconds within the minute, zero-padded.
pub open spec fn duration_display(secs: u64) -> Seq<char> {
    let minutes = (secs / 60) % 60;
    let seconds = secs % 60;
    seq![
        digit_char(minutes / 10),
        digit_char(minutes % 10),
        ':',
        digit_char(seconds / 10),
        digit_char(seconds % 10),
    ]
}

/// The one-character string for a single digit.
fn digit_str(d: u64) -> (r: &'static str)
    requires
        d < 10,
    ensures
        r@ == seq![digit_char(d)],
{
    proof {
        reveal_strlit("0");
        reveal_strlit("1");
        reveal_strlit("2");
        reveal_strlit("3");
        reveal_strlit("4");
        reveal_strlit("5");
        reveal_strlit("6");
        reveal_strlit("7");
        reveal_strlit("8");
        reveal_strlit("9");
    }
    let r = if d == 0 {
        "0"
    } else if d == 1 {
        "1"
    } else if d == 2 {
        "2"
    } else if d == 3 {
        "3"
    } else if d == 4 {
        "4"
    } else if d == 5 {
        "5"
    } else if d == 6 {
        "6"
    } else if d == 7 {
        "7"
    } else if d == 8 {
        "8"
    } else {
        "9"
    };
    proof {
        assert(r@ =~= seq![digit_char(d)]);
    }
    r
}

/// Renders `secs` as `MM:SS`.
pub fn get_duration(secs: u64) -> (r: String)
    ensures
        r@ == duration_display(secs),
{
    let minutes = (secs / 60) % 60;
    let seconds = secs % 60;
    let mut out = String::from_str(digit_str(minutes / 10));
    out.append(digit_str(minutes % 10));
    out.append(":");
    out.append(digit_str(seconds / 10));
    out.append(digit_str(seconds % 10));
    proof {
        reveal_strlit(":");
        assert(out@ =~= duration_display(secs));
    }
    out
}

impl MusicRequest {
    /// The item's duration rendered as `MM:SS`.
    pub fn format_duration(&self) -> (r: String)
        ensures
            r@ == duration_display(self.response.data.duration),
    {
        get_duration(self.response.data.duration)
    }
}

} // verus!
