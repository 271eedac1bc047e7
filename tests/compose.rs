use focus_gif::compose::{clear_frame_rect, draw_frame};
use focus_gif::decode::{composite_frames, frame_delay_ms, DecodeError, MIN_FRAME_DELAY_MS};
use focus_gif::frame::{Disposal, RawFrame};

fn solid(left: u16, top: u16, width: u16, height: u16, rgba: [u8; 4], dispose: Disposal) -> RawFrame {
    let mut buffer = Vec::new();
    for _ in 0..(width as usize * height as usize) {
        buffer.extend_from_slice(&rgba);
    }
    RawFrame { left, top, width, height, dispose, delay: 10, buffer }
}

fn pixel(buf: &[u8], width: usize, x: usize, y: usize) -> [u8; 4] {
    let i = (y * width + x) * 4;
    [buf[i], buf[i + 1], buf[i + 2], buf[i + 3]]
}

#[test]
fn single_full_frame_keeps_its_pixels() {
    let mut f = solid(0, 0, 2, 2, [10, 20, 30, 255], Disposal::Unspecified);
    // make the last pixel transparent
    f.buffer[12..16].copy_from_slice(&[99, 99, 99, 0]);
    f.delay = 7;
    let g = composite_frames(2, 2, &vec![f]).unwrap();
    assert_eq!(g.frames.len(), 1);
    assert_eq!(g.frames[0], vec![10, 20, 30, 255, 10, 20, 30, 255, 10, 20, 30, 255, 0, 0, 0, 0]);
    assert_eq!(g.delays, vec![70]);
    assert_eq!((g.width, g.height), (2, 2));
}

#[test]
fn second_frame_updates_only_its_rectangle() {
    let base = solid(0, 0, 3, 3, [1, 1, 1, 255], Disposal::Unspecified);
    let mut patch = solid(1, 1, 2, 1, [9, 9, 9, 255], Disposal::Unspecified);
    // its right pixel is transparent and must keep the first frame's value
    patch.buffer[4..8].copy_from_slice(&[5, 5, 5, 0]);
    let g = composite_frames(3, 3, &vec![base, patch]).unwrap();
    let mut expected = g.frames[0].clone();
    expected[(1 * 3 + 1) * 4..(1 * 3 + 1) * 4 + 4].copy_from_slice(&[9, 9, 9, 255]);
    assert_eq!(g.frames[1], expected);
    assert_eq!(pixel(&g.frames[1], 3, 2, 1), [1, 1, 1, 255]);
}

#[test]
fn background_disposal_clears_the_rectangle() {
    let base = solid(0, 0, 2, 2, [4, 4, 4, 255], Disposal::Unspecified);
    let mid = solid(0, 0, 1, 2, [7, 7, 7, 255], Disposal::RestoreToBackground);
    let mut next = solid(0, 0, 1, 1, [8, 8, 8, 255], Disposal::Unspecified);
    next.buffer[3] = 0;
    let g = composite_frames(2, 2, &vec![base, mid, next]).unwrap();
    assert_eq!(pixel(&g.frames[1], 2, 0, 0), [7, 7, 7, 255]);
    assert_eq!(pixel(&g.frames[2], 2, 0, 0), [0, 0, 0, 0]);
    assert_eq!(pixel(&g.frames[2], 2, 0, 1), [0, 0, 0, 0]);
    assert_eq!(pixel(&g.frames[2], 2, 1, 0), [4, 4, 4, 255]);
    assert_eq!(pixel(&g.frames[2], 2, 1, 1), [4, 4, 4, 255]);
}

#[test]
fn previous_disposal_restores_the_canvas() {
    let base = solid(0, 0, 2, 1, [3, 3, 3, 255], Disposal::Unspecified);
    let flash = solid(0, 0, 2, 1, [200, 0, 0, 255], Disposal::RestoreToPrevious);
    let mut next = solid(1, 0, 1, 1, [0, 0, 200, 255], Disposal::Unspecified);
    next.delay = 0;
    let g = composite_frames(2, 1, &vec![base, flash, next]).unwrap();
    assert_eq!(g.frames[1], vec![200, 0, 0, 255, 200, 0, 0, 255]);
    assert_eq!(g.frames[2], vec![3, 3, 3, 255, 0, 0, 200, 255]);
    assert_eq!(g.delays, vec![100, 100, MIN_FRAME_DELAY_MS]);
}

#[test]
fn pixels_outside_the_canvas_are_dropped() {
    let f = solid(1, 1, 3, 3, [6, 6, 6, 255], Disposal::Unspecified);
    let g = composite_frames(2, 2, &vec![f]).unwrap();
    assert_eq!(g.frames[0], vec![0, 0, 0, 0, 0, 0, 0, 0, 0, 0, 0, 0, 6, 6, 6, 255]);
}

#[test]
fn no_frames_is_an_error() {
    assert_eq!(composite_frames(4, 4, &Vec::new()).err(), Some(DecodeError::NoFrames));
}

#[test]
fn short_frame_buffer_is_an_error() {
    let mut f = solid(0, 0, 2, 2, [1, 2, 3, 255], Disposal::Unspecified);
    f.buffer.pop();
    assert_eq!(composite_frames(2, 2, &vec![f]).err(), Some(DecodeError::BadFrameBuffer));
}

#[test]
fn delays_convert_to_milliseconds() {
    assert_eq!(frame_delay_ms(0), MIN_FRAME_DELAY_MS);
    assert_eq!(frame_delay_ms(1), 10);
    assert_eq!(frame_delay_ms(25), 250);
    assert_eq!(frame_delay_ms(u16::MAX), 655_350);
}

#[test]
fn draw_and_clear_on_a_canvas() {
    let mut canvas = vec![0u8; 2 * 2 * 4];
    let f = solid(1, 0, 1, 2, [5, 6, 7, 255], Disposal::Unspecified);
    draw_frame(&mut canvas, 2, 2, &f);
    assert_eq!(canvas, vec![0, 0, 0, 0, 5, 6, 7, 255, 0, 0, 0, 0, 5, 6, 7, 255]);
    let r = solid(0, 1, 2, 1, [0, 0, 0, 0], Disposal::Unspecified);
    clear_frame_rect(&mut canvas, 2, 2, &r);
    assert_eq!(canvas, vec![0, 0, 0, 0, 5, 6, 7, 255, 0, 0, 0, 0, 0, 0, 0, 0]);
}
