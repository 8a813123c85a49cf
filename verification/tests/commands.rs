//! The command glue around the coordinator: duration rendering, the event
//! tallies, and the chance-driven answers.

use music_session::completion::{CompletionIndex, IMMEDIATE_KEY};
use music_session::event_counter::{event_types, EventCounter, EventType};
use music_session::random::Random;
use music_session::request::{get_duration, MusicRequest};
use music_session::youtube_dl::{Response, YoutubeDLData};

#[test]
fn completion_index_tracks_one_key_per_server() {
    let mut index = CompletionIndex::new();
    assert!(!index.is_scheduled(5));
    assert!(!index.remove_server(5)); // removal is idempotent

    index.register_completion(5, 900);
    index.register_completion(6, 800);
    assert_eq!(index.scheduled_key(5), Some(900));
    assert_eq!(index.scheduled_key(6), Some(800));

    // already scheduled: the immediate request changes nothing
    index.schedule_immediate(5);
    assert_eq!(index.scheduled_key(5), Some(900));

    assert!(index.remove_server(5));
    assert!(!index.is_scheduled(5));
    assert_eq!(index.scheduled_key(6), Some(800)); // others untouched

    index.schedule_immediate(5);
    assert_eq!(index.scheduled_key(5), Some(IMMEDIATE_KEY));
}

#[test]
fn take_due_hands_out_oldest_keys_first() {
    let mut index = CompletionIndex::new();
    index.register_completion(1, 500);
    index.register_completion(2, 100);
    index.register_completion(3, 900);
    index.register_completion(4, 0);

    let due = index.take_due(600);
    assert_eq!(due, vec![(4, 0), (2, 100), (1, 500)]);
    assert!(!index.is_scheduled(1));
    assert_eq!(index.scheduled_key(3), Some(900)); // not yet due: stays

    assert!(index.take_due(600).is_empty());
}

#[test]
fn durations_render_zero_padded() {
    assert_eq!(get_duration(0), "00:00");
    assert_eq!(get_duration(59), "00:59");
    assert_eq!(get_duration(60), "01:00");
    assert_eq!(get_duration(185), "03:05");
    assert_eq!(get_duration(3661), "01:01"); // minutes wrap at the hour
}

#[test]
fn format_duration_reads_the_request() {
    let request = MusicRequest {
        response: Response {
            data: YoutubeDLData {
                duration: 605,
                fulltitle: "t".to_string(),
                title: "t".to_string(),
                uploader: "u".to_string(),
                view_count: 0,
            },
            filepath: "f".to_string(),
        },
        requested_in: 1,
        requester_name: "n".to_string(),
        requester: 2,
    };
    assert_eq!(request.format_duration(), "10:05");
}

#[test]
fn event_types_lists_every_countable_kind() {
    let kinds = event_types();
    assert_eq!(kinds.len(), 43);
    assert_eq!(kinds[0], EventType::CallCreate);
    assert_eq!(kinds[42], EventType::VoiceStateUpdate);
    assert!(!kinds.contains(&EventType::Any));
}

#[test]
fn counting_moves_any_and_the_kind() {
    let mut counter = EventCounter::new();
    assert_eq!(counter.get_count(EventType::Any), None);

    counter.increment(EventType::MessageCreate);
    counter.increment(EventType::MessageCreate);
    counter.increment(EventType::Ready);

    assert_eq!(counter.get_count(EventType::Any), Some(3));
    assert_eq!(counter.get_count(EventType::MessageCreate), Some(2));
    assert_eq!(counter.get_count(EventType::Ready), Some(1));
    assert_eq!(counter.get_count(EventType::CallCreate), None);
}

#[test]
fn map_groups_tallies_ascending() {
    let mut counter = EventCounter::new();
    counter.increment(EventType::MessageCreate);
    counter.increment(EventType::MessageCreate);
    counter.increment(EventType::Ready);
    counter.increment(EventType::TypingStart);

    let groups = counter.map(vec![
        EventType::MessageCreate,
        EventType::Ready,
        EventType::TypingStart,
        EventType::CallCreate, // never seen: left out
    ]);

    assert_eq!(groups.len(), 2);
    assert_eq!(groups[0].0, 1);
    assert_eq!(groups[0].1, vec!["Ready".to_string(), "TypingStart".to_string()]);
    assert_eq!(groups[1].0, 2);
    assert_eq!(groups[1].1, vec!["MessageCreate".to_string()]);
}

#[test]
fn event_names_match_their_kinds() {
    assert_eq!(EventType::MessageCreate.name(), "MessageCreate");
    assert_eq!(EventType::ServerEmojisUpdate.name(), "ServerEmojisUpdate");
    assert_eq!(EventType::Any.name(), "Any");
}

#[test]
fn coin_reports_follow_the_byte() {
    assert_eq!(Random::coinflip_for(0), "Heads");
    assert_eq!(Random::coinflip_for(126), "Heads");
    assert_eq!(Random::coinflip_for(127), "On its side");
    assert_eq!(Random::coinflip_for(128), "Tails");
    assert_eq!(Random::coinflip_for(255), "Tails");

    let flipped = Random::new().coinflip();
    assert!(flipped == "Heads" || flipped == "Tails" || flipped == "On its side");
}

#[test]
fn pick_takes_one_of_the_choices() {
    let random = Random::new();
    let none: Vec<String> = vec![];
    assert_eq!(random.pick(&none), None);

    let one = vec!["only".to_string()];
    assert_eq!(random.pick(&one), Some(&one[0]));

    let many = vec!["a".to_string(), "b".to_string(), "c".to_string()];
    let picked = random.pick(&many).unwrap();
    assert!(many.contains(picked));
}

#[test]
fn eight_ball_answers_are_stock() {
    assert_eq!(Random::answer_at(0), "It is certain");
    assert_eq!(Random::answer_at(13), "Very doubtful");

    let answer = Random::new().magic_eight_ball();
    let mut found = false;
    for i in 0..14 {
        if Random::answer_at(i) == answer {
            found = true;
        }
    }
    assert!(found);
}

#[test]
fn roll_stays_between_its_bounds() {
    let random = Random::new();
    for _ in 0..32 {
        let r = random.roll(3, 7);
        assert!((3..7).contains(&r));
        let reversed = random.roll(7, 3);
        assert!((3..7).contains(&reversed));
    }
    // a one-wide range pins the draw completely
    assert_eq!(random.roll(0, 1), 0);
    assert_eq!(random.roll(-5, -4), -5);
}

#[test]
fn roulette_spins() {
    let _fired: bool = Random::new().roulette();
}

#[test]
fn teams_deal_names_in_order() {
    let random = Random::new();
    let names: Vec<String> =
        vec!["a".to_string(), "b".to_string(), "c".to_string(), "d".to_string(), "e".to_string()];

    let two = random.teams(&names, 2);
    assert_eq!(two.len(), 3);
    assert_eq!(two[0], vec!["a".to_string(), "b".to_string()]);
    assert_eq!(two[1], vec!["c".to_string(), "d".to_string()]);
    assert_eq!(two[2], vec!["e".to_string()]);

    let too_many = random.teams(&names, 10);
    assert_eq!(too_many.len(), 1);
    assert_eq!(too_many[0], names);

    let nobody: Vec<String> = vec![];
    assert!(random.teams(&nobody, 3).is_empty());
}
