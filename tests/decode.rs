use std::borrow::Cow;

use focus_gif::decode::{decode_gif, get_gif_dimensions, DecodeError};

/// Encodes frames given as (left, top, width, height, palette indices, delay,
/// disposal) over a four-colour palette in which index 3 is transparent.
fn encode(width: u16, height: u16, frames: &[(u16, u16, u16, u16, Vec<u8>, u16, gif::DisposalMethod)]) -> Vec<u8> {
    let palette = [255, 0, 0, 0, 255, 0, 0, 0, 255, 0, 0, 0];
    let mut out = Vec::new();
    {
        let mut enc = gif::Encoder::new(&mut out, width, height, &palette).unwrap();
        for (left, top, w, h, idx, delay, dispose) in frames {
            let frame = gif::Frame {
                left: *left,
                top: *top,
                width: *w,
                height: *h,
                buffer: Cow::Owned(idx.clone()),
                delay: *delay,
                dispose: *dispose,
                transparent: Some(3),
                ..gif::Frame::default()
            };
            enc.write_frame(&frame).unwrap();
        }
    }
    out
}

#[test]
fn decodes_a_single_frame() {
    let bytes = encode(2, 1, &[(0, 0, 2, 1, vec![0, 3], 4, gif::DisposalMethod::Keep)]);
    let g = decode_gif(&bytes).unwrap();
    assert_eq!((g.width, g.height), (2, 1));
    assert_eq!(g.frames.len(), 1);
    assert_eq!(&g.frames[0][0..4], &[255, 0, 0, 255]);
    assert_eq!(g.frames[0][7], 0);
    assert_eq!(g.delays, vec![40]);
}

#[test]
fn decodes_and_composites_two_frames() {
    let bytes = encode(
        2,
        2,
        &[
            (0, 0, 2, 2, vec![0, 0, 0, 0], 0, gif::DisposalMethod::Keep),
            (1, 1, 1, 1, vec![1], 2, gif::DisposalMethod::Keep),
        ],
    );
    let g = decode_gif(&bytes).unwrap();
    assert_eq!(g.frames.len(), 2);
    assert_eq!(
        g.frames[1],
        vec![255, 0, 0, 255, 255, 0, 0, 255, 255, 0, 0, 255, 0, 255, 0, 255]
    );
    assert_eq!(g.delays, vec![10, 20]);
}

#[test]
fn garbage_is_malformed() {
    assert_eq!(decode_gif(b"not a gif at all").err(), Some(DecodeError::Malformed));
    assert_eq!(decode_gif(&[]).err(), Some(DecodeError::Malformed));
}

/// A header for a `w` by `h` canvas without a colour table, then the trailer
/// and one byte of padding, which the `gif` crate reads ahead before the trailer.
fn header_only(w: u16, h: u16) -> Vec<u8> {
    let mut b = b"GIF89a".to_vec();
    b.extend_from_slice(&w.to_le_bytes());
    b.extend_from_slice(&h.to_le_bytes());
    b.extend_from_slice(&[0, 0, 0, 0x3b, 0]);
    b
}

#[test]
fn stream_without_frames_is_refused() {
    let bytes = header_only(3, 2);
    assert_eq!(get_gif_dimensions(&bytes), Ok((3, 2)));
    assert_eq!(decode_gif(&bytes).err(), Some(DecodeError::NoFrames));
}

#[test]
fn read_error_after_a_frame_is_malformed() {
    let mut bytes = encode(2, 1, &[(0, 0, 2, 1, vec![0, 1], 4, gif::DisposalMethod::Keep)]);
    // drop the trailer and append the start of a truncated image block
    bytes.pop();
    bytes.extend_from_slice(&[0x2c, 0, 0]);
    assert_eq!(decode_gif(&bytes).err(), Some(DecodeError::Malformed));
}

#[test]
fn dimensions_are_the_header_fields() {
    assert_eq!(get_gif_dimensions(&header_only(0x0102, 0x0304)), Ok((0x0102, 0x0304)));
    assert_eq!(get_gif_dimensions(b"GIF89"), Err(DecodeError::Malformed));
    assert_eq!(get_gif_dimensions(b"PNG89a\x01\x00\x01\x00\x00\x00\x00;"), Err(DecodeError::Malformed));
}

#[test]
fn dimensions_from_the_header() {
    let bytes = encode(5, 7, &[(0, 0, 1, 1, vec![0], 1, gif::DisposalMethod::Keep)]);
    assert_eq!(get_gif_dimensions(&bytes), Ok((5, 7)));
    assert_eq!(get_gif_dimensions(b"GIF8"), Err(DecodeError::Malformed));
}
