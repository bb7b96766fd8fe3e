use mini_system_monitor::protocol::{
    encode_header, rgb565_pixel, split_chunks, LcdCommand, CHUNK_BYTES, CMD_DISPLAY_BITMAP, CMD_RESET,
    CMD_SCREEN_OFF, CMD_SCREEN_ON, CMD_SET_BRIGHTNESS, CMD_SET_ORIENTATION,
};

fn decode(h: [u8; 6]) -> (u32, u32, u32, u32, u8) {
    let b: Vec<u32> = h.iter().map(|v| *v as u32).collect();
    (
        b[0] * 4 + b[1] / 64,
        (b[1] % 64) * 16 + b[2] / 16,
        (b[2] % 16) * 64 + b[3] / 4,
        (b[3] % 4) * 256 + b[4],
        h[5],
    )
}

#[test]
fn header_of_full_screen_bitmap() {
    assert_eq!(encode_header(0, 0, 319, 479, CMD_DISPLAY_BITMAP), [0, 0, 4, 253, 223, 197]);
}

#[test]
fn header_packs_ten_bit_coordinates() {
    assert_eq!(encode_header(1023, 0, 0, 0, 1), [255, 192, 0, 0, 0, 1]);
    assert_eq!(encode_header(5, 37, 600, 900, 7), [1, 66, 89, 99, 132, 7]);
}

#[test]
fn header_round_trip_on_values() {
    for &(x, y, ex, ey) in &[(0u16, 0u16, 0u16, 0u16), (12, 34, 56, 78), (1023, 1023, 1023, 1023), (319, 479, 100, 7)] {
        let h = encode_header(x, y, ex, ey, 42);
        assert_eq!(decode(h), (x as u32, y as u32, ex as u32, ey as u32, 42));
    }
}

#[test]
fn rgb565_of_primaries() {
    assert_eq!(rgb565_pixel([255, 0, 0]), [0x00, 0xF8]);
    assert_eq!(rgb565_pixel([0, 255, 0]), [0xE0, 0x07]);
    assert_eq!(rgb565_pixel([0, 0, 255]), [0x1F, 0x00]);
    assert_eq!(rgb565_pixel([255, 255, 255]), [0xFF, 0xFF]);
    assert_eq!(rgb565_pixel([7, 3, 7]), [0, 0]);
}

#[test]
fn rgb565_keeps_high_bits_on_values() {
    let p = [0b1010_1111u8, 0b0110_0111u8, 0b1111_0001u8];
    let b = rgb565_pixel(p);
    let v = b[0] as u32 + 256 * b[1] as u32;
    assert_eq!((v / 2048) * 8, (p[0] - p[0] % 8) as u32);
    assert_eq!(((v / 32) % 64) * 4, (p[1] - p[1] % 4) as u32);
    assert_eq!((v % 32) * 8, (p[2] - p[2] % 8) as u32);
}

#[test]
fn chunks_reassemble_on_values() {
    let data: Vec<u8> = (0..6000u32).map(|i| (i % 251) as u8).collect();
    let chunks = split_chunks(&data);
    assert_eq!(chunks.len(), 3);
    assert_eq!(chunks[0].len(), CHUNK_BYTES);
    assert_eq!(chunks[1].len(), CHUNK_BYTES);
    assert_eq!(chunks[2].len(), 6000 - 2 * CHUNK_BYTES);
    let joined: Vec<u8> = chunks.concat();
    assert_eq!(joined, data);
}

#[test]
fn chunks_of_empty_and_exact() {
    assert!(split_chunks(&Vec::new()).is_empty());
    let exact = vec![9u8; CHUNK_BYTES];
    let chunks = split_chunks(&exact);
    assert_eq!(chunks.len(), 1);
    assert_eq!(chunks[0], exact);
}

#[test]
fn simple_commands_encode_to_one_header() {
    assert_eq!(LcdCommand::Reset.encode(), vec![vec![0, 0, 0, 0, 0, CMD_RESET]]);
    assert_eq!(LcdCommand::ScreenOff.encode(), vec![vec![0, 0, 0, 0, 0, CMD_SCREEN_OFF]]);
    assert_eq!(LcdCommand::ScreenOn.encode(), vec![vec![0, 0, 0, 0, 0, CMD_SCREEN_ON]]);
    assert!(LcdCommand::Quit.encode().is_empty());
}

#[test]
fn brightness_runs_backwards() {
    // 255 - 20 * 255 / 100 = 204
    assert_eq!(LcdCommand::SetBrightness(20).encode(), vec![encode_header(204, 0, 0, 0, CMD_SET_BRIGHTNESS).to_vec()]);
    assert_eq!(LcdCommand::SetBrightness(100).encode(), vec![encode_header(0, 0, 0, 0, CMD_SET_BRIGHTNESS).to_vec()]);
    assert_eq!(LcdCommand::SetBrightness(0).encode(), vec![encode_header(255, 0, 0, 0, CMD_SET_BRIGHTNESS).to_vec()]);
}

#[test]
fn orientation_appends_size() {
    let out = LcdCommand::SetOrientation(0, 320, 480).encode();
    assert_eq!(out.len(), 1);
    assert_eq!(out[0], vec![0, 0, 0, 0, 0, CMD_SET_ORIENTATION, 100, 1, 64, 1, 224]);
}

#[test]
fn bitmap_sends_header_then_chunks() {
    let payload = vec![1u8; 3000];
    let cmd = LcdCommand::DisplayImage { rgb565: payload.clone(), x: 10, y: 20, w: 30, h: 50 };
    assert!(cmd.is_encodable());
    let out = cmd.encode();
    assert_eq!(out.len(), 3);
    assert_eq!(out[0], encode_header(10, 20, 39, 69, CMD_DISPLAY_BITMAP).to_vec());
    assert_eq!(out[1].len(), CHUNK_BYTES);
    assert_eq!(out[2].len(), 3000 - CHUNK_BYTES);
}

#[test]
fn encodable_limits() {
    assert!(!LcdCommand::SetBrightness(101).is_encodable());
    assert!(LcdCommand::SetBrightness(100).is_encodable());
    assert!(!LcdCommand::SetOrientation(200, 320, 480).is_encodable());
    assert!(LcdCommand::SetOrientation(155, 320, 480).is_encodable());
    let empty = LcdCommand::DisplayImage { rgb565: vec![], x: 0, y: 0, w: 0, h: 1 };
    assert!(!empty.is_encodable());
    let past = LcdCommand::DisplayImage { rgb565: vec![], x: 65535, y: 0, w: 1, h: 1 };
    assert!(!past.is_encodable());
}

#[test]
fn empty_image_away_from_origin_sends_bare_header() {
    let cmd = LcdCommand::DisplayImage { rgb565: vec![], x: 5, y: 7, w: 0, h: 0 };
    assert!(cmd.is_encodable());
    let out = cmd.encode();
    assert_eq!(out, vec![encode_header(5, 7, 4, 6, CMD_DISPLAY_BITMAP).to_vec()]);
    let flat = LcdCommand::DisplayImage { rgb565: vec![], x: 3, y: 0, w: 0, h: 1 };
    assert!(flat.is_encodable());
    let at_origin = LcdCommand::DisplayImage { rgb565: vec![], x: 0, y: 4, w: 0, h: 1 };
    assert!(!at_origin.is_encodable());
}
