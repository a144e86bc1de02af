use tile_engine::animation::Animation;
use tile_engine::types::Rect;

fn frame(x: i32) -> Rect {
    Rect { x, y: 0, w: 16, h: 16 }
}

#[test]
fn one_shot_advances_at_exact_cumulative_boundary() {
    let a = Animation { frames: vec![frame(0), frame(1)], times: vec![5, 5], looping: false };
    // the scan stops at the first frame whose cumulative duration exceeds
    // the elapsed time, so elapsed 5 already shows the second frame
    assert_eq!(a.current_frame(0, 4), frame(0));
    assert_eq!(a.current_frame(0, 5), frame(1));
    assert_eq!(a.current_frame(0, 9), frame(1));
}

#[test]
fn one_shot_returns_first_frame_after_total_duration() {
    let a = Animation { frames: vec![frame(0), frame(1)], times: vec![5, 5], looping: false };
    // elapsed == total wraps to the first frame, not the last
    assert_eq!(a.current_frame(0, 10), frame(0));
    assert_eq!(a.current_frame(0, 23), frame(0));
}

#[test]
fn looping_reduces_elapsed_modulo_cycle() {
    let a = Animation { frames: vec![frame(0), frame(1), frame(2)], times: vec![2, 3, 5], looping: true };
    assert_eq!(a.current_frame(0, 0), frame(0));
    assert_eq!(a.current_frame(0, 2), frame(1));
    assert_eq!(a.current_frame(0, 4), frame(1));
    assert_eq!(a.current_frame(0, 5), frame(2));
    assert_eq!(a.current_frame(0, 9), frame(2));
    assert_eq!(a.current_frame(0, 10), frame(0));
    assert_eq!(a.current_frame(0, 25), frame(2));
}

#[test]
fn start_time_offsets_the_elapsed_count() {
    let a = Animation { frames: vec![frame(0), frame(1)], times: vec![4, 4], looping: true };
    assert_eq!(a.current_frame(100, 103), frame(0));
    assert_eq!(a.current_frame(100, 104), frame(1));
    assert_eq!(a.current_frame(100, 108), frame(0));
}
