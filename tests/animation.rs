use rcrosshair::crosshair::{CrosshairImage, GifFrame, GifImage};
use rcrosshair::surface::{Event, Overlay};

fn gif(delays: &[u128], start: u64) -> GifImage {
    GifImage {
        frames: delays
            .iter()
            .enumerate()
            .map(|(i, &d)| GifFrame { data: vec![i as u8; 4], delay_ms: d })
            .collect(),
        current_frame: 0,
        last_frame_time: start,
    }
}

#[test]
fn frame_sequence_follows_elapsed_time() {
    let mut g = gif(&[100, 200, 50], 0);
    let mut seen = vec![g.current_frame];
    for now in [150u64, 300, 450] {
        g.advance(now);
        seen.push(g.current_frame);
    }
    assert_eq!(seen, vec![0, 1, 1, 2]);
    assert_eq!(g.last_frame_time, 450);
}

#[test]
fn frame_ready_notifications_drive_the_overlay() {
    let mut o = Overlay::new(1, 1, 0, 0, CrosshairImage::Gif(gif(&[100, 200, 50], 0)));
    let mut seen = Vec::new();
    for now in [150u64, 300, 450] {
        let a = o.handle_event(Event::FrameReady { now_ms: now });
        assert!(a.draw && a.request_frame);
        if let CrosshairImage::Gif(g) = &o.image {
            seen.push(g.current_frame);
        }
    }
    assert_eq!(seen, vec![1, 1, 2]);
}

#[test]
fn advancing_once_per_frame_cycles_back() {
    let mut g = gif(&[0, 0, 0, 0], 0);
    g.current_frame = 2;
    for step in 1..=4u64 {
        assert!(g.advance(step));
        assert!(g.current_frame < 4);
    }
    assert_eq!(g.current_frame, 2);
}

#[test]
fn early_notification_keeps_frame_and_clock() {
    let mut g = gif(&[100, 100], 1000);
    assert!(!g.advance(1099));
    assert_eq!(g.current_frame, 0);
    assert_eq!(g.last_frame_time, 1000);
    assert!(g.advance(1100));
    assert_eq!(g.current_frame, 1);
}

#[test]
fn clock_behind_last_advance_counts_as_no_time() {
    let mut g = gif(&[10, 10], 500);
    assert!(!g.advance(100));
    assert_eq!(g.current_frame, 0);
}

#[test]
fn single_frame_animation_stays_on_its_frame() {
    let mut g = gif(&[0], 0);
    assert!(g.advance(5));
    assert_eq!(g.current_frame, 0);
}

#[test]
fn current_data_is_the_shown_frame() {
    let mut g = gif(&[0, 0], 0);
    g.advance(1);
    assert_eq!(g.current_data(), &vec![1u8; 4]);
}
