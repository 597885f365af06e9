//! WS2812B LED strip: colours, the byte order of each LED kind, and the
//! MSB-first pulse train that encodes one byte on the data line.
use vstd::prelude::*;
use core::marker::PhantomData;

verus! {

/// A kind of WS2812B-compatible LED, which fixes the order of the channels
/// on the wire.
pub trait LedType {}

/// Three-channel LEDs that take green, red, blue.
#[allow(non_camel_case_types)]
pub struct LedType_WS2812B_GRB;

/// Four-channel LEDs that take red, green, blue, white.
#[allow(non_camel_case_types)]
pub struct LedType_WS2812B_RGBW;

impl LedType for LedType_WS2812B_GRB {}

impl LedType for LedType_WS2812B_RGBW {}

/// An RGB(W) colour; the `w` channel is only sent to RGBW strips.
pub struct Color {
    r: u8,
    g: u8,
    b: u8,
    w: u8,
}

impl View for Color {
    /// The channels as `(r, g, b, w)`.
    type V = (u8, u8, u8, u8);

    closed spec fn view(&self) -> (u8, u8, u8, u8) {
        (self.r, self.g, self.b, self.w)
    }
}

impl Color {
    /// A colour with the given red, green and blue channels and no white.
    pub fn color(r: u8, g: u8, b: u8) -> (c: Self)
        ensures
            c@ == (r, g, b, 0u8),
    {
        Self { r, g, b, w: 0x00 }
    }

    /// Pure white from the dedicated white channel; the colour channels are off.
    pub fn white(intensity: u8) -> (c: Self)
        ensures
            c@ == (0u8, 0u8, 0u8, intensity),
    {
        Self { r: 0, g: 0, b: 0, w: intensity }
    }

    /// White mixed from equal red, green and blue; the white channel is off.
    pub fn rgbwhite(intensity: u8) -> (c: Self)
        ensures
            c@ == (intensity, intensity, intensity, 0u8),
    {
        Self { r: intensity, g: intensity, b: intensity, w: 0 }
    }
}

/// How one bit is put on the data line. A bit toggles the line twice: the
/// second toggle follows the first after a short time for a `0` and a long
/// time for a `1`, and the rest of the bit period follows the second.
#[derive(PartialEq, Eq, Structural, Debug, Clone, Copy)]
pub enum Pulse {
    /// A `0` bit: short time between the toggles, long time after.
    Short,
    /// A `1` bit: long time between the toggles, short time after.
    Long,
}

/// Bit `k` (0 = least significant) of `v`.
pub open spec fn bit(v: u8, k: u8) -> bool {
    (v >> k) & 1u8 == 1u8
}

/// The pulse that encodes bit value `b`.
pub open spec fn pulse_for(b: bool) -> Pulse {
    if b {
        Pulse::Long
    } else {
        Pulse::Short
    }
}

/// `v` rotated left by one bit: bit 7 wraps around to bit 0.
pub open spec fn rotl1(v: u8) -> u8 {
    (v << 1u8) | (v >> 7u8)
}

/// `v` rotated left by `n` bits.
pub open spec fn rotl(v: u8, n: nat) -> u8
    decreases n,
{
    if n == 0 {
        v
    } else {
        rotl1(rotl(v, (n - 1) as nat))
    }
}

/// The eight pulses that encode `v`, most significant bit first.
pub open spec fn pulses_of(v: u8) -> Seq<Pulse> {
    Seq::new(8, |i: int| pulse_for(bit(v, (7 - i) as u8)))
}

/// The channels of one colour in the order a GRB LED takes them.
pub open spec fn grb_bytes(c: (u8, u8, u8, u8)) -> Seq<u8> {
    seq![c.1, c.0, c.2]
}

/// The channels of one colour in the order an RGBW LED takes them.
pub open spec fn rgbw_bytes(c: (u8, u8, u8, u8)) -> Seq<u8> {
    seq![c.0, c.1, c.2, c.3]
}

/// The bytes sent to a chain of GRB LEDs, first LED first.
pub open spec fn grb_frame(colors: Seq<Color>) -> Seq<u8>
    decreases colors.len(),
{
    if colors.len() == 0 {
        Seq::empty()
    } else {
        grb_frame(colors.drop_last()) + grb_bytes(colors.last()@)
    }
}

/// The bytes sent to a chain of RGBW LEDs, first LED first.
pub open spec fn rgbw_frame(colors: Seq<Color>) -> Seq<u8>
    decreases colors.len(),
{
    if colors.len() == 0 {
        Seq::empty()
    } else {
        rgbw_frame(colors.drop_last()) + rgbw_bytes(colors.last()@)
    }
}

/// Rotating left once moves each bit one place up, bit 7 to bit 0.
fn rotate_left_one(v: u8) -> (r: u8)
    ensures
        r == rotl1(v),
{
    (v << 1u8) | (v >> 7u8)
}

/// After `i < 8` left rotations the top bit holds bit `7 - i` of the
/// original byte, and eight rotations give the byte back.
proof fn lemma_rotl_top_bit(v: u8)
    ensures
        forall|i: nat| i < 8 ==> ((#[trigger] rotl(v, i) & 0x80u8 != 0u8) <==> bit(v, (7 - i) as u8)),
        rotl(v, 8) == v,
{
    let r1 = rotl1(v);
    let r2 = rotl1(r1);
    let r3 = rotl1(r2);
    let r4 = rotl1(r3);
    let r5 = rotl1(r4);
    let r6 = rotl1(r5);
    let r7 = rotl1(r6);
    let r8 = rotl1(r7);
    reveal_with_fuel(rotl, 9);
    assert(rotl(v, 1) == r1 && rotl(v, 2) == r2 && rotl(v, 3) == r3 && rotl(v, 4) == r4);
    assert(rotl(v, 5) == r5 && rotl(v, 6) == r6 && rotl(v, 7) == r7 && rotl(v, 8) == r8);
    assert({
        &&& (v & 0x80u8 != 0u8) == bit(v, 7u8)
        &&& (r1 & 0x80u8 != 0u8) == bit(v, 6u8)
        &&& (r2 & 0x80u8 != 0u8) == bit(v, 5u8)
        &&& (r3 & 0x80u8 != 0u8) == bit(v, 4u8)
        &&& (r4 & 0x80u8 != 0u8) == bit(v, 3u8)
        &&& (r5 & 0x80u8 != 0u8) == bit(v, 2u8)
        &&& (r6 & 0x80u8 != 0u8) == bit(v, 1u8)
        &&& (r7 & 0x80u8 != 0u8) == bit(v, 0u8)
        &&& r8 == v
    }) by (bit_vector)
        requires
            r1 == rotl1(v),
            r2 == rotl1(r1),
            r3 == rotl1(r2),
            r4 == rotl1(r3),
            r5 == rotl1(r4),
            r6 == rotl1(r5),
            r7 == rotl1(r6),
            r8 == rotl1(r7),
    ;
    assert forall|i: nat| i < 8 implies ((#[trigger] rotl(v, i) & 0x80u8 != 0u8) <==> bit(
        v,
        (7 - i) as u8,
    )) by {
        if i == 0 {
        } else if i == 1 {
        } else if i == 2 {
        } else if i == 3 {
        } else if i == 4 {
        } else if i == 5 {
        } else if i == 6 {
        } else {
        }
    }
}

/// A driver for a chain of WS2812B LEDs of kind `Type`.
///
/// It decides what goes on the data line; the caller toggles the pin with
/// the timing each [`Pulse`] asks for.
pub struct WS2812B<Type: LedType> {
    _type: PhantomData<Type>,
}

impl<Type: LedType> WS2812B<Type> {
    /// A driver for LEDs of kind `Type`.
    pub fn new() -> Self {
        Self { _type: PhantomData }
    }

    /// The eight pulses that send `v`, most significant bit first.
    pub fn emit(v: u8) -> (pulses: [Pulse; 8])
        ensures
            pulses@ == pulses_of(v),
    {
        let mut pulses: [Pulse; 8] = [Pulse::Short; 8];
        let mut cur: u8 = v;
        let mut i: usize = 0;
        proof {
            lemma_rotl_top_bit(v);
        }
        while i < 8
            invariant
                i <= 8,
                cur == rotl(v, i as nat),
                pulses@.len() == 8,
                forall|k: int| 0 <= k < i ==> pulses@[k] == pulse_for(bit(v, (7 - k) as u8)),
                forall|j: nat| j < 8 ==> ((#[trigger] rotl(v, j) & 0x80u8 != 0u8) <==> bit(v, (7 - j) as u8)),
            decreases 8 - i,
        {
            assert((rotl(v, i as nat) & 0x80u8 != 0u8) <==> bit(v, (7 - i) as u8));
            if cur & 0x80u8 == 0 {
                pulses[i] = Pulse::Short;
            } else {
                pulses[i] = Pulse::Long;
            }
            cur = rotate_left_one(cur);
            i = i + 1;
        }
        assert(pulses@ =~= pulses_of(v));
        pulses
    }
}

impl WS2812B<LedType_WS2812B_GRB> {
    /// The bytes that set a chain of GRB LEDs to `data`, first LED first:
    /// green, red, blue of each colour.
    pub fn set_colors(&self, data: &[Color]) -> (bytes: Vec<u8>)
        ensures
            bytes@ == grb_frame(data@),
    {
        let mut bytes: Vec<u8> = Vec::new();
        let mut i: usize = 0;
        while i < data.len()
            invariant
                i <= data@.len(),
                bytes@ == grb_frame(data@.take(i as int)),
            decreases data@.len() - i,
        {
            let c = &data[i];
            bytes.push(c.g);
            bytes.push(c.r);
            bytes.push(c.b);
            proof {
                assert(data@.take(i as int + 1).drop_last() =~= data@.take(i as int));
                assert(bytes@ =~= grb_frame(data@.take(i as int)) + grb_bytes(data@[i as int]@));
            }
            i = i + 1;
        }
        assert(data@.take(data@.len() as int) =~= data@);
        bytes
    }
}

impl WS2812B<LedType_WS2812B_RGBW> {
    /// The bytes that set a chain of RGBW LEDs to `data`, first LED first:
    /// red, green, blue, white of each colour.
    pub fn set_colors(&self, data: &[Color]) -> (bytes: Vec<u8>)
        ensures
            bytes@ == rgbw_frame(data@),
    {
        let mut bytes: Vec<u8> = Vec::new();
        let mut i: usize = 0;
        while i < data.len()
            invariant
                i <= data@.len(),
                bytes@ == rgbw_frame(data@.take(i as int)),
            decreases data@.len() - i,
        {
            let c = &data[i];
            bytes.push(c.r);
            bytes.push(c.g);
            bytes.push(c.b);
            bytes.push(c.w);
            proof {
                assert(data@.take(i as int + 1).drop_last() =~= data@.take(i as int));
                assert(bytes@ =~= rgbw_frame(data@.take(i as int)) + rgbw_bytes(data@[i as int]@));
            }
            i = i + 1;
        }
        assert(data@.take(data@.len() as int) =~= data@);
        bytes
    }
}

/// Port B bit of the data line, PB1. `init` writes it to DDRB (output) and
/// PORTB (driven high); writing it to PINB toggles the line.
pub const DATA_PIN: u8 = 0x02;

impl<Type: LedType> WS2812B<Type> {
    /// The values `init` writes to DDRB and PORTB, in that order: only PB1
    /// is an output, and it starts high.
    pub fn init(&self) -> (values: (u8, u8))
        ensures
            values == (DATA_PIN, DATA_PIN),
    {
        (DATA_PIN, DATA_PIN)
    }
}

proof fn lemma_grb_frame(colors: Seq<Color>)
    ensures
        grb_frame(colors).len() == 3 * colors.len(),
        forall|i: int, k: int|
            0 <= i < colors.len() && 0 <= k < 3 ==> grb_frame(colors)[3 * i + k] == #[trigger] grb_bytes(
                colors[i]@,
            )[k],
    decreases colors.len(),
{
    if colors.len() > 0 {
        let init = colors.drop_last();
        lemma_grb_frame(init);
        assert forall|i: int, k: int|
            0 <= i < colors.len() && 0 <= k < 3 implies grb_frame(colors)[3 * i + k] == #[trigger] grb_bytes(
            colors[i]@,
        )[k] by {
            if i < colors.len() - 1 {
                assert(init[i] == colors[i]);
                assert(grb_frame(init)[3 * i + k] == grb_bytes(init[i]@)[k]);
            }
        }
    }
}

proof fn lemma_rgbw_frame(colors: Seq<Color>)
    ensures
        rgbw_frame(colors).len() == 4 * colors.len(),
        forall|i: int, k: int|
            0 <= i < colors.len() && 0 <= k < 4 ==> rgbw_frame(colors)[4 * i + k] == #[trigger] rgbw_bytes(
                colors[i]@,
            )[k],
    decreases colors.len(),
{
    if colors.len() > 0 {
        let init = colors.drop_last();
        lemma_rgbw_frame(init);
        assert forall|i: int, k: int|
            0 <= i < colors.len() && 0 <= k < 4 implies rgbw_frame(colors)[4 * i + k] == #[trigger] rgbw_bytes(
            colors[i]@,
        )[k] by {
            if i < colors.len() - 1 {
                assert(init[i] == colors[i]);
                assert(rgbw_frame(init)[4 * i + k] == rgbw_bytes(init[i]@)[k]);
            }
        }
    }
}

/// A GRB frame has three bytes per LED, and the bytes of LED `i` are its
/// green, red and blue channels, in that order, at offsets `3i..3i+3`.
pub proof fn law_grb_frame_layout(colors: Seq<Color>)
    ensures
        grb_frame(colors).len() == 3 * colors.len(),
        forall|i: int|
            0 <= i < colors.len() ==> {
                &&& grb_frame(colors)[3 * i] == (#[trigger] colors[i]@).1
                &&& grb_frame(colors)[3 * i + 1] == colors[i]@.0
                &&& grb_frame(colors)[3 * i + 2] == colors[i]@.2
            },
{
    lemma_grb_frame(colors);
    assert forall|i: int| 0 <= i < colors.len() implies {
        &&& grb_frame(colors)[3 * i] == (#[trigger] colors[i]@).1
        &&& grb_frame(colors)[3 * i + 1] == colors[i]@.0
        &&& grb_frame(colors)[3 * i + 2] == colors[i]@.2
    } by {
        assert(grb_frame(colors)[3 * i + 0] == grb_bytes(colors[i]@)[0]);
        assert(grb_frame(colors)[3 * i + 1] == grb_bytes(colors[i]@)[1]);
        assert(grb_frame(colors)[3 * i + 2] == grb_bytes(colors[i]@)[2]);
    }
}

/// An RGBW frame has four bytes per LED, and the bytes of LED `i` are its
/// red, green, blue and white channels, in that order, at offsets `4i..4i+4`.
pub proof fn law_rgbw_frame_layout(colors: Seq<Color>)
    ensures
        rgbw_frame(colors).len() == 4 * colors.len(),
        forall|i: int|
            0 <= i < colors.len() ==> {
                &&& rgbw_frame(colors)[4 * i] == (#[trigger] colors[i]@).0
                &&& rgbw_frame(colors)[4 * i + 1] == colors[i]@.1
                &&& rgbw_frame(colors)[4 * i + 2] == colors[i]@.2
                &&& rgbw_frame(colors)[4 * i + 3] == colors[i]@.3
            },
{
    lemma_rgbw_frame(colors);
    assert forall|i: int| 0 <= i < colors.len() implies {
        &&& rgbw_frame(colors)[4 * i] == (#[trigger] colors[i]@).0
        &&& rgbw_frame(colors)[4 * i + 1] == colors[i]@.1
        &&& rgbw_frame(colors)[4 * i + 2] == colors[i]@.2
        &&& rgbw_frame(colors)[4 * i + 3] == colors[i]@.3
    } by {
        assert(rgbw_frame(colors)[4 * i + 0] == rgbw_bytes(colors[i]@)[0]);
        assert(rgbw_frame(colors)[4 * i + 1] == rgbw_bytes(colors[i]@)[1]);
        assert(rgbw_frame(colors)[4 * i + 2] == rgbw_bytes(colors[i]@)[2]);
        assert(rgbw_frame(colors)[4 * i + 3] == rgbw_bytes(colors[i]@)[3]);
    }
}

/// Sending a byte takes eight pulses, most significant bit first: pulse
/// `i` is long exactly when bit `7 - i` is set.
pub proof fn law_emit_msb_first(v: u8)
    ensures
        pulses_of(v).len() == 8,
        forall|i: int| 0 <= i < 8 ==> (#[trigger] pulses_of(v)[i] == Pulse::Long <==> bit(v, (7 - i) as u8)),
{
}

} // verus!
