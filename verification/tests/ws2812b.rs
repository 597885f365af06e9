use attiny85::ws2812b::{Color, LedType_WS2812B_GRB, LedType_WS2812B_RGBW, Pulse, DATA_PIN, WS2812B};

const S: Pulse = Pulse::Short;
const L: Pulse = Pulse::Long;

#[test]
fn emit_sends_most_significant_bit_first() {
    assert_eq!(WS2812B::<LedType_WS2812B_GRB>::emit(0xa5), [L, S, L, S, S, L, S, L]);
    assert_eq!(WS2812B::<LedType_WS2812B_GRB>::emit(0x80), [L, S, S, S, S, S, S, S]);
    assert_eq!(WS2812B::<LedType_WS2812B_GRB>::emit(0x01), [S, S, S, S, S, S, S, L]);
}

#[test]
fn emit_edge_bytes() {
    assert_eq!(WS2812B::<LedType_WS2812B_RGBW>::emit(0x00), [S; 8]);
    assert_eq!(WS2812B::<LedType_WS2812B_RGBW>::emit(0xff), [L; 8]);
}

#[test]
fn emit_every_byte_matches_its_bits() {
    for v in 0..=255u8 {
        let pulses = WS2812B::<LedType_WS2812B_GRB>::emit(v);
        assert_eq!(pulses.len(), 8);
        for (i, p) in pulses.iter().enumerate() {
            let set = (v >> (7 - i)) & 1 == 1;
            assert_eq!(*p, if set { L } else { S });
        }
    }
}

#[test]
fn grb_order_is_green_red_blue() {
    let strip = WS2812B::<LedType_WS2812B_GRB>::new();
    let frame = [Color::color(1, 2, 3), Color::rgbwhite(9), Color::white(7)];
    assert_eq!(strip.set_colors(&frame), vec![2, 1, 3, 9, 9, 9, 0, 0, 0]);
}

#[test]
fn rgbw_order_is_red_green_blue_white() {
    let strip = WS2812B::<LedType_WS2812B_RGBW>::new();
    let frame = [Color::color(1, 2, 3), Color::white(7), Color::rgbwhite(5)];
    assert_eq!(strip.set_colors(&frame), vec![1, 2, 3, 0, 0, 0, 0, 7, 5, 5, 5, 0]);
}

#[test]
fn empty_frame_sends_nothing() {
    assert!(WS2812B::<LedType_WS2812B_GRB>::new().set_colors(&[]).is_empty());
    assert!(WS2812B::<LedType_WS2812B_RGBW>::new().set_colors(&[]).is_empty());
}

#[test]
fn frame_lengths_per_led() {
    let frame: Vec<Color> = (0..25u8).map(|i| Color::color(i, 255 - i, i / 2)).collect();
    assert_eq!(WS2812B::<LedType_WS2812B_GRB>::new().set_colors(&frame).len(), 75);
    assert_eq!(WS2812B::<LedType_WS2812B_RGBW>::new().set_colors(&frame).len(), 100);
    let grb = WS2812B::<LedType_WS2812B_GRB>::new().set_colors(&frame);
    assert_eq!(&grb[3 * 10..3 * 11], &[245, 10, 5]);
}

#[test]
fn init_drives_pb1_high() {
    assert_eq!(WS2812B::<LedType_WS2812B_GRB>::new().init(), (DATA_PIN, DATA_PIN));
    assert_eq!(DATA_PIN, 0b0000_0010);
}
