use hytale_skin_renderer::keyframes::{surrounding_keyframes, FrameTime};

fn at(whole: i64, fractional: bool) -> FrameTime {
    FrameTime { whole, fractional }
}

#[test]
fn empty_and_single_tracks() {
    assert_eq!(surrounding_keyframes(&vec![], at(3, false)), (None, None, false));
    assert_eq!(surrounding_keyframes(&vec![10], at(3, false)), (Some(0), None, false));
}

#[test]
fn inside_the_track() {
    let ts = vec![0, 10, 20];
    assert_eq!(surrounding_keyframes(&ts, at(5, false)), (Some(0), Some(1), false));
    assert_eq!(surrounding_keyframes(&ts, at(10, false)), (Some(1), Some(2), false));
    assert_eq!(surrounding_keyframes(&ts, at(10, true)), (Some(1), Some(2), false));
}

#[test]
fn wrapping_around() {
    let ts = vec![0, 10, 20];
    assert_eq!(surrounding_keyframes(&ts, at(25, false)), (Some(2), Some(0), true));
    assert_eq!(surrounding_keyframes(&ts, at(20, false)), (Some(2), Some(0), true));
    assert_eq!(surrounding_keyframes(&ts, at(20, true)), (Some(2), Some(0), true));
    assert_eq!(surrounding_keyframes(&ts, at(-1, true)), (Some(2), Some(0), true));
    let late = vec![5, 15];
    assert_eq!(surrounding_keyframes(&late, at(2, false)), (Some(1), Some(0), true));
}

#[test]
fn equal_times_pick_first_and_last() {
    let ts = vec![5, 0, 5, 0];
    assert_eq!(surrounding_keyframes(&ts, at(2, false)), (Some(1), Some(0), false));
    assert_eq!(surrounding_keyframes(&ts, at(9, false)), (Some(2), Some(1), true));
}
