use std::borrow::Cow;

use focus_gif::decode::{composite_frames, AnimatedGif, DecodeError};
use focus_gif::frame::{Disposal, RawFrame};
use focus_gif::player::{GifHandler, TextureAllocator};

/// Hands out numbered handles and remembers every name it was given.
struct Counter {
    names: Vec<String>,
    refuse: bool,
}

impl TextureAllocator<usize> for Counter {
    fn uploads(&self) -> vstd::seq::Seq<focus_gif::player::Upload<usize>> {
        vstd::seq::Seq::empty()
    }

    fn load_texture(&mut self, name: String, _width: u16, _height: u16, _rgba: &Vec<u8>) -> Option<usize> {
        if self.refuse {
            return None;
        }
        self.names.push(name);
        Some(self.names.len())
    }
}

fn counter() -> Counter {
    Counter { names: Vec::new(), refuse: false }
}

/// An animation of `n` one-pixel frames with the given delays in hundredths of a second.
fn animation(delays: &[u16]) -> AnimatedGif {
    let raws: Vec<RawFrame> = delays
        .iter()
        .enumerate()
        .map(|(i, d)| RawFrame {
            left: 0,
            top: 0,
            width: 1,
            height: 1,
            dispose: Disposal::Unspecified,
            delay: *d,
            buffer: vec![i as u8, 0, 0, 255],
        })
        .collect();
    composite_frames(1, 1, &raws).unwrap()
}

fn one_frame_gif_bytes() -> Vec<u8> {
    let mut out = Vec::new();
    {
        let mut enc = gif::Encoder::new(&mut out, 4, 3, &[0, 0, 0, 255, 255, 255]).unwrap();
        let frame = gif::Frame {
            width: 4,
            height: 3,
            buffer: Cow::Owned(vec![1; 12]),
            ..gif::Frame::default()
        };
        enc.write_frame(&frame).unwrap();
    }
    out
}

#[test]
fn ticks_on_schedule_land_on_n_mod_count() {
    let mut h: GifHandler<usize> = GifHandler::new(1000);
    assert!(h.load_decoded(Some("a.gif".to_string()), Ok(animation(&[2, 3, 5]))));
    let mut alloc = counter();
    let durations = [20u64, 30, 50];
    let mut now = 1000u64;
    for n in 1..=7usize {
        now += durations[(n - 1) % 3];
        h.tick(&mut alloc, now);
        assert_eq!(h.current_frame(), n % 3);
    }
}

#[test]
fn tick_advances_at_most_one_frame() {
    let mut h: GifHandler<usize> = GifHandler::new(0);
    assert!(h.load_decoded(Some("a.gif".to_string()), Ok(animation(&[1, 1, 1, 1]))));
    let mut alloc = counter();
    h.tick(&mut alloc, 1_000_000);
    assert_eq!(h.current_frame(), 1);
    h.tick(&mut alloc, 1_000_005);
    assert_eq!(h.current_frame(), 1);
    h.tick(&mut alloc, 1_000_010);
    assert_eq!(h.current_frame(), 2);
}

#[test]
fn tick_uploads_the_current_frame_lazily() {
    let mut h: GifHandler<usize> = GifHandler::new(0);
    assert!(h.load_decoded(Some("a.gif".to_string()), Ok(animation(&[10, 10]))));
    assert_eq!(h.current_resource(), None);
    let mut alloc = counter();
    h.tick(&mut alloc, 5);
    assert_eq!(alloc.names, vec!["gif_1_frame_0".to_string()]);
    assert_eq!(h.current_resource(), Some(&1));
    h.tick(&mut alloc, 6);
    assert_eq!(alloc.names.len(), 1);
}

#[test]
fn failed_upload_is_retried_on_the_next_tick() {
    let mut h: GifHandler<usize> = GifHandler::new(0);
    assert!(h.load_decoded(Some("a.gif".to_string()), Ok(animation(&[10]))));
    let mut alloc = Counter { names: Vec::new(), refuse: true };
    h.tick(&mut alloc, 1);
    assert_eq!(h.current_resource(), None);
    alloc.refuse = false;
    h.tick(&mut alloc, 2);
    assert_eq!(h.current_resource(), Some(&1));
}

#[test]
fn prime_cache_fills_every_slot_once() {
    let mut h: GifHandler<usize> = GifHandler::new(0);
    assert!(h.load_decoded(Some("a.gif".to_string()), Ok(animation(&[1, 1, 1]))));
    let mut alloc = counter();
    h.prime_cache(&mut alloc);
    assert_eq!(alloc.names, vec!["gif_1_frame_0", "gif_1_frame_1", "gif_1_frame_2"]);
    h.prime_cache(&mut alloc);
    assert_eq!(alloc.names.len(), 3);
    h.tick(&mut alloc, 100);
    assert_eq!(alloc.names.len(), 3);
    assert_eq!(h.current_resource(), Some(&2));
}

#[test]
fn second_load_discards_the_cache() {
    let mut h: GifHandler<usize> = GifHandler::new(0);
    let mut alloc = counter();
    assert!(h.load_decoded(Some("a.gif".to_string()), Ok(animation(&[1, 1]))));
    h.prime_cache(&mut alloc);
    h.tick(&mut alloc, 50);
    assert_eq!(h.current_frame(), 1);
    assert!(h.load_decoded(Some("b.gif".to_string()), Ok(animation(&[1, 1, 1]))));
    assert_eq!(h.current_frame(), 0);
    assert_eq!(h.current_resource(), None);
    h.tick(&mut alloc, 51);
    assert_eq!(alloc.names.last().unwrap(), "gif_2_frame_0");
}

#[test]
fn failed_load_leaves_everything_as_it_was() {
    let mut h: GifHandler<usize> = GifHandler::new(0);
    let mut alloc = counter();
    assert!(h.load_decoded(Some("a.gif".to_string()), Ok(animation(&[1, 1]))));
    h.tick(&mut alloc, 50);
    h.tick(&mut alloc, 51);
    assert!(!h.load_decoded(Some("b.gif".to_string()), Err(DecodeError::NoFrames)));
    assert!(!h.load_from_path(Some("c.gif".to_string()), b"GIF89a garbage"));
    assert_eq!(h.current_frame(), 1);
    assert_eq!(h.current_resource(), Some(&2));
    assert_eq!(h.get_path_string(), Some("a.gif".to_string()));
    assert_eq!(h.dimensions(), Some((1, 1)));
}

#[test]
fn dimensions_do_not_depend_on_playback() {
    let mut h: GifHandler<usize> = GifHandler::new(0);
    assert_eq!(h.dimensions(), None);
    assert!(h.load_from_path(Some("real.gif".to_string()), &one_frame_gif_bytes()));
    assert_eq!(h.dimensions(), Some((4, 3)));
    let mut alloc = counter();
    h.tick(&mut alloc, 10_000);
    assert_eq!(h.dimensions(), Some((4, 3)));
    h.prime_cache(&mut alloc);
    assert_eq!(h.dimensions(), Some((4, 3)));
    assert_eq!(h.get_path_string(), Some("real.gif".to_string()));
}

#[test]
fn new_player_is_empty() {
    let mut h: GifHandler<usize> = GifHandler::new(0);
    let mut alloc = counter();
    h.tick(&mut alloc, 100);
    h.prime_cache(&mut alloc);
    assert_eq!(h.current_resource(), None);
    assert_eq!(h.get_path_string(), None);
    assert!(alloc.names.is_empty());
}
