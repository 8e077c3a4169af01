use rosu_layout::beatmap::{track_duration, Beatmap, GameMode, NoteEvent};

#[test]
fn event_times() {
    let tap = NoteEvent::Tap { x: 64, time: 1000 };
    let hold = NoteEvent::Hold { x: 192, time: 500, duration: 2000 };
    assert_eq!(tap.x(), 64);
    assert_eq!(tap.time(), 1000);
    assert_eq!(tap.end_time(), 1000);
    assert_eq!(hold.x(), 192);
    assert_eq!(hold.time(), 500);
    assert_eq!(hold.end_time(), 2500);
}

#[test]
fn duration_is_the_latest_end() {
    let events = vec![
        NoteEvent::Tap { x: 0, time: 1000 },
        NoteEvent::Hold { x: 0, time: 500, duration: 2000 },
        NoteEvent::Tap { x: 0, time: 2400 },
    ];
    assert_eq!(track_duration(&events), 2500);
}

#[test]
fn duration_of_taps_is_the_last_tap() {
    let events = vec![NoteEvent::Tap { x: 0, time: 300 }, NoteEvent::Tap { x: 0, time: 100 }];
    assert_eq!(track_duration(&events), 300);
}

#[test]
fn duration_of_no_events_is_zero() {
    assert_eq!(track_duration(&[]), 0);
}

#[test]
fn duration_is_never_negative() {
    let events = vec![
        NoteEvent::Tap { x: 0, time: -50 },
        NoteEvent::Hold { x: 0, time: -500, duration: 100 },
    ];
    assert_eq!(track_duration(&events), 0);
}

#[test]
fn duration_does_not_overflow() {
    let events = vec![NoteEvent::Hold { x: 0, time: i64::MAX, duration: i64::MAX }];
    assert_eq!(track_duration(&events), 2 * (i64::MAX as i128));
}

#[test]
fn beatmap_duration_scans_its_events() {
    let beatmap = Beatmap {
        mode: GameMode::Mania,
        key_count: 4,
        events: vec![
            NoteEvent::Hold { x: 64, time: 0, duration: 750 },
            NoteEvent::Tap { x: 448, time: 700 },
        ],
    };
    assert_eq!(beatmap.duration(), 750);
}

#[test]
fn beatmap_is_cloned() {
    let beatmap = Beatmap {
        mode: GameMode::Mania,
        key_count: 4,
        events: vec![NoteEvent::Tap { x: 1, time: 2 }, NoteEvent::Hold { x: 3, time: 4, duration: 5 }],
    };
    assert_eq!(beatmap.clone(), beatmap);
}
