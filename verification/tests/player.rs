use egui::Color32;
use rosu_layout::beatmap::{Beatmap, GameMode, NoteEvent};
use rosu_layout::draw::{DrawCommand, Point, Position};
use rosu_layout::layout::mania::{NoteShape, NoteStyle};
use rosu_layout::Player;

fn beatmap(mode: GameMode, key_count: usize, events: Vec<NoteEvent>) -> Beatmap {
    Beatmap { mode, key_count, events }
}

fn lanes_and_line(canvas: &[DrawCommand], lanes: usize) {
    for lane in 0..lanes {
        assert_eq!(
            canvas[lane],
            DrawCommand::Rect {
                min: Point { x: 100 * lane as i128, y: 0 },
                width: 100,
                height: 800,
                color: Color32::from_gray(20),
            }
        );
    }
    assert_eq!(
        canvas[lanes],
        DrawCommand::Line {
            from: Point { x: 0, y: 700 },
            to: Point { x: 100 * lanes as i128, y: 700 },
            stroke: 2,
            color: Color32::WHITE,
        }
    );
}

#[test]
fn player_for_a_mania_beatmap() {
    let player = Player::new(beatmap(GameMode::Mania, 4, vec![]), 100, 80, 800);
    assert!(player.is_some());
}

#[test]
fn other_modes_are_unsupported() {
    assert!(Player::new(beatmap(GameMode::Osu, 4, vec![]), 100, 80, 800).is_none());
    assert!(Player::new(beatmap(GameMode::Taiko, 4, vec![]), 100, 80, 800).is_none());
    assert!(Player::new(beatmap(GameMode::Catch, 4, vec![]), 100, 80, 800).is_none());
}

#[test]
fn required_size_follows_the_key_count() {
    let player = Player::new(beatmap(GameMode::Mania, 7, vec![]), 90, 80, 640).unwrap();
    assert_eq!(player.get_required_size(), [630, 640]);
    let player = Player::new(beatmap(GameMode::Mania, 0, vec![]), 90, 80, 0).unwrap();
    assert_eq!(player.get_required_size(), [0, 0]);
}

#[test]
fn new_player_starts_at_zero_with_the_default_style() {
    let player = Player::new(beatmap(GameMode::Mania, 4, vec![]), 100, 80, 800).unwrap();
    assert_eq!(player.current_time_at(0), 0);
    assert_eq!(player.current_time_at(2_000_000), 2000);
    assert!(matches!(player.style().shape, NoteShape::Rectangle { width: 800, height: 250 }));
    assert_eq!(player.style().color, Color32::from_rgb(0, 174, 255));
}

#[test]
fn seek_then_read_gives_the_time_sought() {
    let speeds: [u32; 7] = [250, 1000, 1750, 4000, 3_000_000, 4_294_967_295, 1];
    for speed in speeds {
        let mut player = Player::new(beatmap(GameMode::Mania, 4, vec![]), 100, 80, 800).unwrap();
        player.set_speed(speed);
        player.set_current_time_at(123_456, 5000);
        assert_eq!(player.current_time_at(123_456), 5000);
    }
}

#[test]
fn seek_now_then_read_now() {
    let mut player = Player::new(beatmap(GameMode::Mania, 4, vec![]), 100, 80, 800).unwrap();
    player.set_speed(700);
    player.set_current_time(5000);
    let time = player.current_time();
    assert!(5000 <= time && time < 5000 + 5000);
    player.reset_time();
    let time = player.current_time();
    assert!(0 <= time && time < 5000);
}

#[test]
fn reset_restarts_the_track() {
    let mut player = Player::new(beatmap(GameMode::Mania, 4, vec![]), 100, 80, 800).unwrap();
    player.set_current_time_at(1_000_000, 90_000);
    player.reset_time_at(2_000_000);
    assert_eq!(player.current_time_at(2_000_000), 0);
    assert_eq!(player.current_time_at(2_500_000), 500);
}

#[test]
fn refused_settings_leave_the_player_as_it_was() {
    let events = vec![NoteEvent::Tap { x: 0, time: 0 }];
    let mut player = Player::new(beatmap(GameMode::Mania, 4, events), 100, 80, 800).unwrap();
    player.set_speed(2000);
    player.set_speed(0);
    assert_eq!(player.current_time_at(1_000_000), 2000);
    player.set_scroll_time(500);
    player.set_scroll_time(0);
    // The tap arrives at 500 ms; at 250 ms it is half a playfield up.
    let mut canvas = Vec::new();
    player.render_frame(&mut canvas, Position { x: 0, y: 0 }, 250);
    assert_eq!(canvas.len(), 6);
    assert_eq!(
        canvas[5],
        DrawCommand::Rect {
            min: Point { x: 18, y: 290 },
            width: 64,
            height: 20,
            color: Color32::from_rgb(0, 174, 255),
        }
    );
}

#[test]
fn frame_of_a_single_tap() {
    let events = vec![NoteEvent::Tap { x: 0, time: 1000 }];
    let mut player = Player::new(beatmap(GameMode::Mania, 4, events), 100, 80, 800).unwrap();
    let mut canvas = Vec::new();
    player.render_frame(&mut canvas, Position { x: 0, y: 0 }, 2000);
    assert_eq!(canvas.len(), 6);
    lanes_and_line(&canvas, 4);
    assert_eq!(
        canvas[5],
        DrawCommand::Rect {
            min: Point { x: 18, y: 690 },
            width: 64,
            height: 20,
            color: Color32::from_rgb(0, 174, 255),
        }
    );
    canvas.clear();
    player.render_frame(&mut canvas, Position { x: 0, y: 0 }, 1000);
    assert_eq!(canvas.len(), 5);
    lanes_and_line(&canvas, 4);
}

#[test]
fn frame_uses_the_speed_of_the_player() {
    let events = vec![NoteEvent::Tap { x: 0, time: 3000 }];
    let mut player = Player::new(beatmap(GameMode::Mania, 4, events), 100, 80, 800).unwrap();
    player.set_speed(2000);
    let mut canvas = Vec::new();
    player.render_frame(&mut canvas, Position { x: 0, y: 0 }, 2500);
    assert_eq!(canvas.len(), 6);
    player.set_speed(1000);
    canvas.clear();
    player.render_frame(&mut canvas, Position { x: 0, y: 0 }, 2500);
    assert_eq!(canvas.len(), 5);
}

#[test]
fn style_takes_effect_on_the_next_frame() {
    let events = vec![NoteEvent::Tap { x: 0, time: 0 }];
    let mut player = Player::new(beatmap(GameMode::Mania, 1, events), 100, 80, 800).unwrap();
    let mut canvas = Vec::new();
    player.render_frame(&mut canvas, Position { x: 0, y: 0 }, 1000);
    assert!(matches!(canvas[2], DrawCommand::Rect { .. }));
    player.set_note_style(NoteStyle {
        shape: NoteShape::Circle,
        color: Color32::from_rgb(9, 9, 9),
        hold_body_color: Color32::WHITE,
        hold_cap_color: Color32::WHITE,
    });
    canvas.clear();
    player.render_frame(&mut canvas, Position { x: 0, y: 0 }, 1000);
    assert_eq!(
        canvas[2],
        DrawCommand::Circle {
            center: Point { x: 50, y: 700 },
            radius: 40,
            color: Color32::from_rgb(9, 9, 9),
        }
    );
}

#[test]
fn beatmap_without_keys_draws_no_notes() {
    let events = vec![NoteEvent::Tap { x: 0, time: 0 }, NoteEvent::Hold { x: 0, time: 0, duration: 10 }];
    let mut player = Player::new(beatmap(GameMode::Mania, 0, events), 100, 80, 800).unwrap();
    let mut canvas = Vec::new();
    player.render_frame(&mut canvas, Position { x: 0, y: 0 }, 1000);
    assert_eq!(canvas.len(), 1);
    lanes_and_line(&canvas, 0);
}

#[test]
fn empty_beatmap_draws_the_background() {
    let mut player = Player::new(beatmap(GameMode::Mania, 4, vec![]), 100, 80, 800).unwrap();
    let mut canvas = Vec::new();
    player.render(&mut canvas);
    assert_eq!(canvas.len(), 5);
    lanes_and_line(&canvas, 4);
}

#[test]
fn frame_now_follows_the_clock() {
    // A hold that lasts an hour from the start of the track: whenever the
    // frame is drawn within that hour, the hold has its cap and its marker
    // has passed the line by more than a pixel.
    let events = vec![NoteEvent::Hold { x: 0, time: -2000, duration: 3_600_000 }];
    let mut player = Player::new(beatmap(GameMode::Mania, 4, events), 100, 80, 800).unwrap();
    let mut canvas = Vec::new();
    player.render_at(&mut canvas, Position { x: 5, y: 0 });
    assert_eq!(canvas.len(), 7);
    match canvas[5] {
        DrawCommand::Rect { min, height, .. } => {
            assert_eq!(min.x, 5 + 18);
            assert_eq!(min.y + height, 700);
        }
        _ => panic!("the body of the hold follows the judgment line"),
    }
}

#[test]
fn sizes_take_effect_on_the_next_frame() {
    let events = vec![NoteEvent::Tap { x: 300, time: 0 }];
    let mut player = Player::new(beatmap(GameMode::Mania, 2, events), 100, 80, 800).unwrap();
    player.set_sizes(50, 40, 300);
    assert_eq!(player.get_required_size(), [100, 300]);
    let mut canvas = Vec::new();
    player.render_frame(&mut canvas, Position { x: 10, y: 20 }, 500);
    assert_eq!(canvas.len(), 4);
    assert_eq!(
        canvas[3],
        DrawCommand::Rect {
            min: Point { x: 69, y: 65 },
            width: 32,
            height: 10,
            color: Color32::from_rgb(0, 174, 255),
        }
    );
}

#[test]
fn track_duration_of_the_player() {
    let events = vec![
        NoteEvent::Tap { x: 0, time: 4000 },
        NoteEvent::Hold { x: 0, time: 3000, duration: 1500 },
    ];
    let player = Player::new(beatmap(GameMode::Mania, 4, events), 100, 80, 800).unwrap();
    assert_eq!(player.track_duration(), 4500);
}

#[test]
fn switching_the_beatmap_keeps_the_position() {
    let mut player = Player::new(beatmap(GameMode::Mania, 4, vec![]), 100, 80, 800).unwrap();
    player.set_current_time_at(1_000_000, 30_000);
    let other = beatmap(GameMode::Mania, 7, vec![NoteEvent::Tap { x: 0, time: 99 }]);
    assert!(player.set_beatmap_at(other, false, 2_000_000));
    assert_eq!(player.current_time_at(2_000_000), 31_000);
    assert_eq!(player.get_required_size(), [700, 800]);
    assert_eq!(player.track_duration(), 99);
}

#[test]
fn switching_the_beatmap_can_restart_the_track() {
    let mut player = Player::new(beatmap(GameMode::Mania, 4, vec![]), 100, 80, 800).unwrap();
    player.set_current_time_at(1_000_000, 30_000);
    assert!(player.set_beatmap_at(beatmap(GameMode::Mania, 5, vec![]), true, 2_000_000));
    assert_eq!(player.current_time_at(2_000_000), 0);
    assert_eq!(player.get_required_size(), [500, 800]);
}

#[test]
fn unsupported_beatmap_is_not_switched_to() {
    let events = vec![NoteEvent::Tap { x: 0, time: 1234 }];
    let mut player = Player::new(beatmap(GameMode::Mania, 4, events), 100, 80, 800).unwrap();
    player.set_current_time_at(1_000_000, 30_000);
    assert!(!player.set_beatmap_at(beatmap(GameMode::Catch, 9, vec![]), true, 2_000_000));
    assert!(!player.set_beatmap(beatmap(GameMode::Osu, 9, vec![]), true));
    assert_eq!(player.current_time_at(2_000_000), 31_000);
    assert_eq!(player.get_required_size(), [400, 800]);
    assert_eq!(player.track_duration(), 1234);
}

#[test]
fn switching_now_restarts_now() {
    let mut player = Player::new(beatmap(GameMode::Mania, 4, vec![]), 100, 80, 800).unwrap();
    player.set_current_time(600_000);
    assert!(player.set_beatmap(beatmap(GameMode::Mania, 4, vec![]), true));
    let time = player.current_time();
    assert!(0 <= time && time < 5000);
}

#[test]
fn speed_and_scroll_window_are_read_back() {
    let mut player = Player::new(beatmap(GameMode::Mania, 4, vec![]), 100, 80, 800).unwrap();
    assert_eq!(player.get_speed(), 1000);
    assert_eq!(player.get_scroll_time(), 1000);
    player.set_speed(1750);
    player.set_scroll_time(400);
    assert_eq!(player.get_speed(), 1750);
    assert_eq!(player.get_scroll_time(), 400);
    player.set_speed(0);
    player.set_scroll_time(0);
    assert_eq!(player.get_speed(), 1750);
    assert_eq!(player.get_scroll_time(), 400);
}

#[test]
fn seek_at_a_high_speed_is_read_back() {
    let mut player = Player::new(beatmap(GameMode::Mania, 4, vec![]), 100, 80, 800).unwrap();
    player.set_speed(3_000_000);
    player.set_current_time_at(0, 5000);
    assert_eq!(player.current_time_at(0), 5000);
    assert_eq!(player.current_time_at(1), 5003);
    player.set_current_time_at(77, -1);
    assert_eq!(player.current_time_at(77), -1);
}

#[test]
fn marker_just_above_the_top_is_not_in_the_frame() {
    let events = vec![NoteEvent::Tap { x: 0, time: 1000 }];
    let mut player = Player::new(beatmap(GameMode::Mania, 4, events), 100, 80, 800).unwrap();
    let mut canvas = Vec::new();
    player.render_frame(&mut canvas, Position { x: 0, y: 0 }, 1124);
    assert_eq!(canvas.len(), 5);
    canvas.clear();
    player.render_frame(&mut canvas, Position { x: 0, y: 0 }, 1125);
    assert_eq!(canvas.len(), 6);
}
