//! The join → enqueue → start → vote/skip → complete flow, server by
//! server, against the facade's observable state.

use music_session::error::Error;
use music_session::music::Music;
use music_session::music::PlayPrep;
use music_session::request::{MusicRequest, SkipVote};
use music_session::youtube_dl::{Response, YoutubeDLData};

fn sample_request(title: &str, duration: u64, requester: u64) -> MusicRequest {
    MusicRequest {
        response: Response {
            data: YoutubeDLData {
                duration,
                fulltitle: title.to_string(),
                title: title.to_string(),
                uploader: "uploader".to_string(),
                view_count: 7,
            },
            filepath: "./mu/sample.mp3".to_string(),
        },
        requested_in: 99,
        requester_name: "requester".to_string(),
        requester,
    }
}

#[test]
fn join_play_vote_and_pass() {
    let mut music = Music::new();
    let server: u64 = 10;

    assert!(music.join(server).is_ok());
    assert!(music.state.has_session(server));
    assert!(music.skip(server, 2).is_err()); // connected-idle: nothing playing

    // userA queues a 185-second song while idle and connected.
    music.play(server, sample_request("song-x", 185, 1), true);
    let lines = music.queue(server).unwrap();
    assert_eq!(lines.len(), 1);
    assert_eq!(lines[0].title, "song-x");
    assert_eq!(lines[0].requester_name, "requester");
    assert_eq!(lines[0].duration, "03:05");
    assert_eq!(music.state.scheduled_key(server), Some(0));

    // The driver starts it; it is rescheduled at its expected completion.
    assert!(music.start_next(server, 1000, 2));
    assert_eq!(music.state.scheduled_key(server), Some(1185));
    assert!(music.queue(server).is_err()); // the head left the queue

    // userB votes: counted, tally one of two.
    assert_eq!(music.skip(server, 2).unwrap(), SkipVote::Voted);
    assert_eq!(music.skip_tally(server).unwrap(), (1, 2));

    // userC votes: passed; the record is gone and the index is clear.
    assert_eq!(music.skip(server, 3).unwrap(), SkipVote::Passed);
    assert!(music.skip_tally(server).is_err());
    assert!(!music.state.is_scheduled(server));
    assert!(music.state.has_session(server)); // back to connected-idle
}

#[test]
fn skip_without_playing_record_mutates_nothing() {
    let mut music = Music::new();
    let server: u64 = 11;

    assert_eq!(music.skip(server, 5), Err(Error::NoSongPlaying));
    assert!(!music.state.has_session(server));

    assert!(music.join(server).is_ok());
    music.play(server, sample_request("idle-song", 30, 1), false);
    assert_eq!(music.skip(server, 5), Err(Error::NoSongPlaying));
    // the queued request is untouched
    assert_eq!(music.queue(server).unwrap().len(), 1);
}

#[test]
fn leave_discards_queue_and_session() {
    let mut music = Music::new();
    let server: u64 = 12;

    assert!(music.join(server).is_ok());
    music.play(server, sample_request("gone", 60, 1), true);
    assert!(music.queue(server).is_ok());

    music.leave(server);
    assert!(matches!(music.queue(server), Err(Error::EmptyQueue)));
    assert!(!music.state.has_session(server));
    assert!(!music.state.is_scheduled(server));

    music.leave(server); // safe to repeat
    assert!(!music.state.has_session(server));
}

#[test]
fn play_appends_to_own_queue_only() {
    let mut music = Music::new();
    let one: u64 = 21;
    let two: u64 = 22;

    music.play(one, sample_request("first", 10, 1), false);
    music.play(one, sample_request("second", 20, 2), false);
    music.play(two, sample_request("other", 30, 3), false);

    let q1 = music.queue(one).unwrap();
    assert_eq!(q1.len(), 2);
    assert_eq!(q1[0].title, "first");
    assert_eq!(q1[1].title, "second");

    let q2 = music.queue(two).unwrap();
    assert_eq!(q2.len(), 1);
    assert_eq!(q2[0].title, "other");
}

#[test]
fn requester_skip_forces_stop_whatever_the_tally() {
    let mut music = Music::new();
    let server: u64 = 31;
    let requester: u64 = 1;

    music.play(server, sample_request("mine", 120, requester), true);
    assert!(music.start_next(server, 50, 5));

    // two counted votes, far short of the five required
    assert_eq!(music.skip(server, 2).unwrap(), SkipVote::Voted);
    assert_eq!(music.skip(server, 3).unwrap(), SkipVote::Voted);
    assert_eq!(music.skip_tally(server).unwrap(), (2, 5));

    // the requester's own skip passes at once
    assert_eq!(music.skip(server, requester).unwrap(), SkipVote::VoterSkipped);
    assert!(music.skip_tally(server).is_err());
    assert!(!music.state.is_scheduled(server));
}

#[test]
fn second_vote_in_a_row_is_already_voted() {
    let mut music = Music::new();
    let server: u64 = 32;

    music.play(server, sample_request("tune", 90, 1), true);
    assert!(music.start_next(server, 0, 3));

    assert_eq!(music.skip(server, 7).unwrap(), SkipVote::Voted);
    assert_eq!(music.skip_tally(server).unwrap(), (1, 3));
    assert_eq!(music.skip(server, 7).unwrap(), SkipVote::AlreadyVoted);
    assert_eq!(music.skip_tally(server).unwrap(), (1, 3)); // no mutation
}

#[test]
fn server_never_scheduled_twice() {
    let mut music = Music::new();
    let server: u64 = 41;

    music.play(server, sample_request("a", 10, 1), true);
    assert_eq!(music.state.scheduled_key(server), Some(0));
    // a second enqueue while already scheduled adds no second entry
    music.play(server, sample_request("b", 10, 1), true);
    assert_eq!(music.state.scheduled_key(server), Some(0));

    // starting moves the one entry to the completion key
    assert!(music.start_next(server, 100, 2));
    assert_eq!(music.state.scheduled_key(server), Some(110));

    // a forced stop clears the server from the index entirely: one
    // removal suffices, as it would not if it sat under two keys
    assert_eq!(music.skip(server, 1).unwrap(), SkipVote::VoterSkipped);
    assert!(!music.state.is_scheduled(server));
}

#[test]
fn join_twice_is_rejected() {
    let mut music = Music::new();
    let server: u64 = 51;

    assert_eq!(music.join(server), Ok(()));
    assert_eq!(music.join(server), Err(Error::AlreadyConnected));
    assert!(music.state.has_session(server));
}

#[test]
fn enqueue_requires_a_session() {
    let mut state = music_session::music::MusicState::new();
    assert_eq!(state.enqueue(61, sample_request("x", 5, 1)), Err(Error::NotConnected));
    state.ensure_session(61);
    assert_eq!(state.enqueue(61, sample_request("x", 5, 1)), Ok(()));
}

#[test]
fn queue_of_idle_session_is_empty() {
    let mut music = Music::new();
    assert!(music.join(62).is_ok());
    assert!(matches!(music.queue(62), Err(Error::EmptyQueue)));
}

#[test]
fn status_reports_elapsed_and_remaining() {
    let mut music = Music::new();
    let server: u64 = 71;

    assert!(matches!(music.status_at(server, 0), Err(Error::NoSongPlaying)));

    music.play(server, sample_request("timed", 185, 1), true);
    assert!(music.start_next(server, 100, 2));

    let st = music.status_at(server, 150).unwrap();
    assert_eq!(st.title, "timed");
    assert_eq!(st.duration, 185);
    assert_eq!(st.elapsed, 50);
    assert_eq!(st.remaining, 135);

    // on the wall clock, played and left still add up to the duration
    let live = music.status(server).unwrap();
    assert_eq!(live.elapsed + live.remaining, 185);
}

#[test]
fn start_next_with_nothing_queued_starts_nothing() {
    let mut music = Music::new();
    let server: u64 = 81;

    assert!(!music.start_next(server, 5, 2)); // absent server
    assert!(music.join(server).is_ok());
    music.state.schedule_immediate_start(server);
    assert!(!music.start_next(server, 5, 2)); // empty queue
    assert!(!music.state.is_scheduled(server)); // stale scheduling consumed
}

#[test]
fn driver_pass_starts_due_servers() {
    let mut music = Music::new();

    music.play(1, sample_request("one", 100, 9), true);
    music.play(2, sample_request("two", 50, 9), true);

    // both sit under the immediate key; a pass consumes and starts both
    let due = music.state.take_due(10);
    assert_eq!(due.len(), 2);
    for (server, key) in due {
        assert_eq!(key, 0);
        assert!(music.start_next(server, 10, 2));
    }
    assert_eq!(music.state.scheduled_key(1), Some(110));
    assert_eq!(music.state.scheduled_key(2), Some(60));

    // at 60 only the shorter item is due; starting nothing leaves it idle
    let due_later = music.state.take_due(60);
    assert_eq!(due_later, vec![(2, 60)]);
    assert!(!music.start_next(2, 60, 2)); // its queue is empty
    assert!(!music.state.is_scheduled(2));
    assert_eq!(music.state.scheduled_key(1), Some(110));
}

#[test]
fn play_prepare_mirrors_the_join_decision() {
    let mut music = Music::new();
    let server: u64 = 91;

    assert_eq!(music.play_prepare(server, Some(4), false), PlayPrep::ConnectFirst(4));
    assert_eq!(music.play_prepare(server, None, false), PlayPrep::NothingToDo);
    assert_eq!(music.play_prepare(server, None, true), PlayPrep::Proceed);
    assert!(music.join(server).is_ok());
    assert_eq!(music.play_prepare(server, None, false), PlayPrep::Proceed);
}

#[test]
fn error_messages_are_the_reported_wording() {
    assert_eq!(Error::AlreadyConnected.message(), "Already in a voice channel");
    assert_eq!(Error::NotConnected.message(), "Not in a voice channel");
    assert_eq!(Error::NoSongPlaying.message(), "No song is currently playing");
    assert_eq!(Error::EmptyQueue.message(), "No songs are queued");
}
