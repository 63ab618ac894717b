use shrinking_arena::boundary::{Boundary, BoundaryError};
use shrinking_arena::pools::{
    audio_name, pick_index, sound_path, texture_path, visual_name, AUDIO_POOL_LEN,
    VISUAL_POOL_LEN,
};
use shrinking_arena::reaction::{
    Arena, ArenaError, AudioCue, CollisionEvent, Draw, Phase, ReactiveBody,
};

const WALL: u64 = 1;
const SQUARE: u64 = 2;
const OTHER: u64 = 3;
const STRANGER: u64 = 77;

fn arena() -> Arena {
    let boundary = Boundary::new(243_000_000_000, 100, 8000).unwrap();
    let mut arena = Arena::new(boundary, WALL, VISUAL_POOL_LEN, AUDIO_POOL_LEN).unwrap();
    assert_eq!(arena.add_body(SQUARE), Ok(()));
    assert_eq!(arena.add_body(OTHER), Ok(()));
    assert_eq!(arena.apply(&started(WALL, OTHER), Draw { visual: 4, audio: 0 }).map(|c| c.body), Some(OTHER));
    arena
}

fn started(first: u64, second: u64) -> CollisionEvent {
    CollisionEvent { phase: Phase::Started, first, second }
}

fn stopped(first: u64, second: u64) -> CollisionEvent {
    CollisionEvent { phase: Phase::Stopped, first, second }
}

#[test]
fn pick_index_is_the_remainder() {
    assert_eq!(pick_index(0, 10), 0);
    assert_eq!(pick_index(9, 10), 9);
    assert_eq!(pick_index(10, 10), 0);
    assert_eq!(pick_index(12345, 7), 4);
    assert_eq!(pick_index(usize::MAX, 1), 0);
}

#[test]
fn pool_names_by_index() {
    assert_eq!(VISUAL_POOL_LEN, 10);
    assert_eq!(AUDIO_POOL_LEN, 7);
    let visuals = [
        "big_spoon", "cat", "dude", "emoji", "kirby_squid", "omg_cat", "omg", "spunchbop",
        "the_rock", "tiki",
    ];
    for (i, name) in visuals.iter().enumerate() {
        assert_eq!(visual_name(i), Some(*name));
    }
    assert_eq!(visual_name(10), None);
    let sounds = [
        "bruh", "deez_nuts", "OHHHHH", "ohmygod", "phone_linging", "quandale_dingle",
        "vine_boom",
    ];
    for (i, name) in sounds.iter().enumerate() {
        assert_eq!(audio_name(i), Some(*name));
    }
    assert_eq!(audio_name(7), None);
}

#[test]
fn asset_paths_by_index() {
    assert_eq!(texture_path(1), Some("textures/cat.png".to_string()));
    assert_eq!(texture_path(9), Some("textures/tiki.png".to_string()));
    assert_eq!(texture_path(10), None);
    assert_eq!(sound_path(6), Some("sounds/vine_boom.ogg".to_string()));
    assert_eq!(sound_path(0), Some("sounds/bruh.ogg".to_string()));
    assert_eq!(sound_path(7), None);
}

#[test]
fn new_refuses_an_empty_pool() {
    let boundary = Boundary::new(1, 3, 1).unwrap();
    assert_eq!(Arena::new(boundary, WALL, 0, 7), Err(ArenaError::EmptyPool));
    assert_eq!(Arena::new(boundary, WALL, 10, 0), Err(ArenaError::EmptyPool));
}

#[test]
fn add_body_refuses_a_taken_entity() {
    let mut a = arena();
    let before = a.clone();
    assert_eq!(a.add_body(WALL), Err(ArenaError::EntityTaken));
    assert_eq!(a.add_body(SQUARE), Err(ArenaError::EntityTaken));
    assert_eq!(a.add_body(OTHER), Err(ArenaError::EntityTaken));
    assert_eq!(a, before);
}

#[test]
fn a_new_body_shows_the_asset_it_was_created_with() {
    let mut a = arena();
    assert_eq!(a.bodies[0], ReactiveBody { entity: SQUARE, visual_asset_id: None });
    assert_eq!(a.bodies[1], ReactiveBody { entity: OTHER, visual_asset_id: Some(4) });
    assert_eq!(a.add_body(9), Ok(()));
    assert_eq!(a.bodies.len(), 3);
    assert_eq!(a.bodies[2], ReactiveBody { entity: 9, visual_asset_id: None });
    assert!(a.is_valid());
}

#[test]
fn is_valid_tells_what_is_wrong() {
    assert!(arena().is_valid());
    let mut twice = arena();
    twice.bodies.push(ReactiveBody { entity: SQUARE, visual_asset_id: None });
    assert!(!twice.is_valid());
    let mut wall_reacts = arena();
    wall_reacts.bodies.push(ReactiveBody { entity: WALL, visual_asset_id: None });
    assert!(!wall_reacts.is_valid());
    let mut outside = arena();
    outside.bodies[1].visual_asset_id = Some(10);
    assert!(!outside.is_valid());
    outside.bodies[1].visual_asset_id = Some(9);
    assert!(outside.is_valid());
    let mut no_sounds = arena();
    no_sounds.audio_pool_len = 0;
    assert!(!no_sounds.is_valid());
    let mut no_looks = arena();
    no_looks.visual_pool_len = 0;
    assert!(!no_looks.is_valid());
    let mut flat = arena();
    flat.boundary.side_count = 2;
    assert!(!flat.is_valid());
}

#[test]
fn find_body_and_target() {
    let a = arena();
    assert_eq!(a.find_body(SQUARE), Some(0));
    assert_eq!(a.find_body(OTHER), Some(1));
    assert_eq!(a.find_body(WALL), None);
    assert_eq!(a.target(&started(WALL, SQUARE)), Some(SQUARE));
    assert_eq!(a.target(&started(SQUARE, WALL)), Some(SQUARE));
    assert_eq!(a.target(&started(OTHER, STRANGER)), Some(OTHER));
    assert_eq!(a.target(&started(SQUARE, OTHER)), None);
    assert_eq!(a.target(&started(SQUARE, SQUARE)), None);
    assert_eq!(a.target(&started(WALL, STRANGER)), None);
    assert_eq!(a.target(&stopped(WALL, SQUARE)), None);
}

#[test]
fn wall_hit_swaps_the_body_and_leaves_the_wall() {
    for event in [started(WALL, SQUARE), started(SQUARE, WALL)] {
        let mut a = arena();
        let before = a.clone();
        let cue = a.apply(&event, Draw { visual: 23, audio: 40 });
        assert_eq!(cue, Some(AudioCue { body: SQUARE, audio_asset_id: 5 }));
        assert_eq!(a.bodies[0], ReactiveBody { entity: SQUARE, visual_asset_id: Some(3) });
        assert_eq!(a.bodies[1], before.bodies[1]);
        assert_eq!(a.boundary, before.boundary);
        assert_eq!(a.boundary_entity, before.boundary_entity);
        assert_eq!(a.visual_pool_len, 10);
        assert_eq!(a.audio_pool_len, 7);
    }
}

#[test]
fn stopped_event_changes_nothing() {
    let mut a = arena();
    let before = a.clone();
    assert_eq!(a.apply(&stopped(WALL, SQUARE), Draw { visual: 23, audio: 40 }), None);
    assert_eq!(a, before);
    assert_eq!(a.on_tick(&vec![stopped(WALL, SQUARE), stopped(SQUARE, OTHER)]), vec![]);
    assert_eq!(a, before);
}

#[test]
fn event_between_two_that_do_not_react_changes_nothing() {
    let mut a = arena();
    let before = a.clone();
    assert_eq!(a.apply(&started(WALL, STRANGER), Draw { visual: 23, audio: 40 }), None);
    assert_eq!(a, before);
    assert_eq!(a.on_tick(&vec![started(WALL, STRANGER), started(STRANGER, WALL)]), vec![]);
    assert_eq!(a, before);
}

#[test]
fn event_between_two_reactive_bodies_is_ignored() {
    let mut a = arena();
    let before = a.clone();
    assert_eq!(a.apply(&started(SQUARE, OTHER), Draw { visual: 23, audio: 40 }), None);
    assert_eq!(a.on_tick(&vec![started(OTHER, SQUARE)]), vec![]);
    assert_eq!(a, before);
}

#[test]
fn dispatch_reacts_to_each_event_in_order() {
    let mut a = arena();
    let events = vec![
        started(WALL, SQUARE),
        stopped(WALL, SQUARE),
        started(OTHER, WALL),
        started(WALL, SQUARE),
        started(WALL, STRANGER),
    ];
    let draws = vec![
        Draw { visual: 11, audio: 8 },
        Draw { visual: 12, audio: 9 },
        Draw { visual: 19, audio: 13 },
        Draw { visual: 7, audio: 7 },
        Draw { visual: 5, audio: 5 },
    ];
    let cues = a.dispatch(&events, &draws);
    assert_eq!(
        cues,
        vec![
            AudioCue { body: SQUARE, audio_asset_id: 1 },
            AudioCue { body: OTHER, audio_asset_id: 6 },
            AudioCue { body: SQUARE, audio_asset_id: 0 },
        ]
    );
    assert_eq!(
        a.bodies,
        vec![
            ReactiveBody { entity: SQUARE, visual_asset_id: Some(7) },
            ReactiveBody { entity: OTHER, visual_asset_id: Some(9) },
        ]
    );
}

#[test]
fn dispatch_of_no_events_changes_nothing() {
    let mut a = arena();
    let before = a.clone();
    assert_eq!(a.dispatch(&vec![], &vec![]), vec![]);
    assert_eq!(a.on_tick(&vec![]), vec![]);
    assert_eq!(a, before);
}

#[test]
fn on_tick_gives_one_cue_for_each_reaction() {
    let mut a = arena();
    let before = a.clone();
    let events = vec![started(WALL, SQUARE), started(WALL, SQUARE), stopped(WALL, SQUARE)];
    let cues = a.on_tick(&events);
    assert_eq!(cues.len(), 2);
    for cue in &cues {
        assert_eq!(cue.body, SQUARE);
        assert!(cue.audio_asset_id < 7);
    }
    assert!(a.bodies[0].visual_asset_id.unwrap() < 10);
    assert_eq!(a.bodies[0].entity, SQUARE);
    assert_eq!(a.bodies[1], before.bodies[1]);
    assert_eq!(a.boundary, before.boundary);
}

#[test]
fn ten_thousand_reactions_stay_in_the_pools_and_spread_evenly() {
    let mut a = arena();
    let events = vec![started(WALL, SQUARE)];
    let mut visual_counts = [0u32; 10];
    let mut audio_counts = [0u32; 7];
    for _ in 0..10_000 {
        let cues = a.on_tick(&events);
        assert_eq!(cues.len(), 1);
        let visual = a.bodies[0].visual_asset_id.unwrap();
        assert!(visual < 10);
        assert!(cues[0].audio_asset_id < 7);
        visual_counts[visual] += 1;
        audio_counts[cues[0].audio_asset_id] += 1;
    }
    let chi = |counts: &[u32]| -> f64 {
        let expected = 10_000.0 / counts.len() as f64;
        counts.iter().map(|c| (*c as f64 - expected).powi(2) / expected).sum()
    };
    // far beyond the 99.999% quantiles for 9 and for 6 degrees of freedom
    assert!(chi(&visual_counts) < 60.0);
    assert!(chi(&audio_counts) < 55.0);
    assert!(visual_counts.iter().all(|c| *c > 0));
    assert!(audio_counts.iter().all(|c| *c > 0));
}

#[test]
fn advance_rebuilds_the_wall_and_then_reacts() {
    let mut a = arena();
    let before = a.clone();
    let frame = a.advance(100_000, &vec![started(WALL, SQUARE), stopped(WALL, SQUARE)]);
    let wall = frame.wall.unwrap();
    assert_eq!(wall, before.boundary.shape());
    assert_eq!(wall.radius, 243_000_000_000);
    assert_eq!(a.boundary.radius, 242_200_000_000);
    assert_eq!(a.boundary.side_count, 100);
    assert_eq!(a.boundary.shrink_rate, 8000);
    assert_eq!(frame.cues.len(), 1);
    assert_eq!(frame.cues[0].body, SQUARE);
    assert!(frame.cues[0].audio_asset_id < 7);
    assert!(a.bodies[0].visual_asset_id.unwrap() < 10);
    assert_eq!(a.bodies[1], before.bodies[1]);
    assert!(a.is_valid());
}

#[test]
fn advance_reacts_even_when_the_wall_has_collapsed() {
    let mut a = arena();
    a.boundary.radius = 0;
    let frame = a.advance(100_000, &vec![started(SQUARE, WALL)]);
    assert_eq!(frame.wall, Err(BoundaryError::Collapsed));
    assert_eq!(a.boundary.radius, 0);
    assert_eq!(frame.cues.len(), 1);
    assert!(a.bodies[0].visual_asset_id.is_some());
}

#[test]
fn a_body_that_no_event_is_about_keeps_its_look() {
    let mut a = arena();
    let events = vec![started(WALL, SQUARE), started(SQUARE, STRANGER), started(SQUARE, OTHER)];
    let draws = vec![
        Draw { visual: 1, audio: 1 },
        Draw { visual: 2, audio: 2 },
        Draw { visual: 3, audio: 3 },
    ];
    let cues = a.dispatch(&events, &draws);
    assert_eq!(cues.len(), 2);
    assert_eq!(a.bodies[0].visual_asset_id, Some(2));
    assert_eq!(a.bodies[1], ReactiveBody { entity: OTHER, visual_asset_id: Some(4) });
}
