use std::io::Cursor;

use rcrosshair::crosshair::{load_image, CrosshairImage, Frame};
use rcrosshair::pixel::OPACITY_ONE;
use rcrosshair::surface::{
    compute_margins, render_canvas, Event, OutputInfo, Overlay, Phase, Placement,
};

fn png_bytes(w: u32, h: u32) -> Vec<u8> {
    let img = image::RgbaImage::from_pixel(w, h, image::Rgba([255, 0, 0, 255]));
    let mut out = Cursor::new(Vec::new());
    img.write_to(&mut out, image::ImageFormat::Png).unwrap();
    out.into_inner()
}

fn still(len: usize) -> CrosshairImage {
    CrosshairImage::Static(Frame { data: vec![7; len] })
}

fn configure(w: u32, h: u32, size: Option<(i32, i32)>) -> Event {
    Event::Configure { width: w, height: h, output: Some(OutputInfo { logical_size: size }) }
}

#[test]
fn static_png_is_centred_on_the_output() {
    let bytes = png_bytes(64, 64);
    let (w, h, image) = match load_image(&bytes, OPACITY_ONE / 2, 0) {
        Ok(r) => r,
        Err(_) => panic!("decode failed"),
    };
    assert_eq!((w, h), (64, 64));
    let mut o = Overlay::new(w, h, 32, 32, image);
    let a = o.handle_event(configure(0, 0, Some((1920, 1080))));
    assert_eq!(a.margins, Some((508, 928)));
    assert_eq!(o.placement, Placement::Positioned { top: 508, left: 928 });
    assert!(a.draw);
    assert!(!a.commit_unpositioned);
    assert!(!a.request_frame);
    assert_eq!(a.grow_pool, None);
    let canvas = o.render();
    assert_eq!(canvas.len(), 64 * 64 * 4);
    // opaque red at half opacity: (b, g, r, a) = (0, 0, 128, 128)
    assert_eq!(&canvas[..4], &[0, 0, 128, 128]);
}

#[test]
fn missing_logical_size_uses_fallback_output() {
    assert_eq!(compute_margins(OutputInfo { logical_size: None }, 10, 20), (520, 950));
}

#[test]
fn margins_are_held_to_i32() {
    let m = compute_margins(OutputInfo { logical_size: Some((0, 0)) }, u32::MAX, 0);
    assert_eq!(m, (0, i32::MIN));
    assert_eq!(compute_margins(OutputInfo { logical_size: Some((-7, 9)) }, 0, 0), (4, -3));
}

#[test]
fn first_configure_without_output_commits_unpositioned() {
    let mut o = Overlay::new(2, 2, 1, 1, still(16));
    let a = o.handle_event(Event::Configure { width: 0, height: 0, output: None });
    assert!(a.draw && a.commit_unpositioned);
    assert_eq!(a.margins, None);
    assert_eq!(o.phase, Phase::Configured);
    assert_eq!(o.placement, Placement::Unpositioned);
}

#[test]
fn same_size_configure_does_not_redraw() {
    let mut o = Overlay::new(2, 2, 1, 1, still(16));
    o.handle_event(configure(0, 0, Some((100, 100))));
    let a = o.handle_event(configure(2, 2, Some((100, 100))));
    assert!(!a.draw && !a.commit_unpositioned);
    assert_eq!(a.margins, Some((49, 49)));
}

#[test]
fn larger_configure_grows_pool_and_redraws() {
    let mut o = Overlay::new(2, 2, 1, 1, still(16));
    o.handle_event(configure(0, 0, None));
    let a = o.handle_event(Event::Configure { width: 4, height: 0, output: None });
    assert_eq!(a.grow_pool, Some(32));
    assert!(a.draw);
    assert_eq!((o.width, o.height), (4, 2));
    o.pool_grown(32);
    assert_eq!(o.pool.capacity, 32);
    let canvas = o.render();
    assert_eq!(canvas.len(), 32);
    assert!(canvas[..16].iter().all(|&b| b == 7));
    assert!(canvas[16..].iter().all(|&b| b == 0));
}

#[test]
fn close_is_terminal() {
    let mut o = Overlay::new(2, 2, 1, 1, still(16));
    let a = o.handle_event(Event::Closed);
    assert!(a.exit);
    assert!(o.is_closed());
    let b = o.handle_event(configure(5, 5, Some((10, 10))));
    assert!(!b.draw && !b.exit && b.margins.is_none());
    assert_eq!((o.width, o.height), (2, 2));
}

#[test]
fn static_image_ignores_frame_ready() {
    let mut o = Overlay::new(2, 2, 1, 1, still(16));
    let a = o.handle_event(Event::FrameReady { now_ms: 10 });
    assert!(!a.draw && !a.request_frame);
}

#[test]
fn canvas_keeps_only_what_fits() {
    assert_eq!(render_canvas(&vec![1, 2, 3], 5), vec![1, 2, 3, 0, 0]);
    assert_eq!(render_canvas(&vec![1, 2, 3], 2), vec![1, 2]);
    assert_eq!(render_canvas(&Vec::new(), 0), Vec::<u8>::new());
}
