//! The framing of the remote protocol.
//!
//! A frame is a lead-in, three payload bytes, each sent as a pair with its
//! complement, and, between two frames, a stop pulse. Every bit is a short
//! high pulse followed by a low one whose length tells a one from a zero;
//! bytes go out most significant bit first.

use vstd::prelude::*;
use crate::command::{
    lemma_speed_byte_values, midea_setting_byte, midea_speed_byte, setting_byte, speed_byte,
    MideaMode, MideaSpeed, MideaTemp, MIDEA_ID,
};
use crate::pulse::{
    all_positive, lemma_drive_concat, lemma_drive_fresh, lemma_drive_two, IrGenState, PulseTrain,
};

verus! {

/// High part of the lead-in, in microseconds.
pub const LEAD_HIGH_US: u64 = 4400;

/// Low part of the lead-in.
pub const LEAD_LOW_US: u64 = 4400;

/// High part of every bit.
pub const BIT_HIGH_US: u64 = 540;

/// Low part of a bit that is one.
pub const ONE_LOW_US: u64 = 1620;

/// Low part of a bit that is zero.
pub const ZERO_LOW_US: u64 = 540;

/// High part of the stop pulse.
pub const STOP_HIGH_US: u64 = 540;

/// Low part of the stop pulse.
pub const STOP_LOW_US: u64 = 5220;

/// Second payload byte of the frame that switches the unit off.
pub const OFF_SPEED_BYTE: u8 = 0b0111_1011;

/// Third payload byte of the frame that switches the unit off.
pub const OFF_SETTING_BYTE: u8 = 0b1110_0000;

/// Second and third payload byte of the frame that follows the switch-off
/// frame.
pub const OFF_TAIL_BYTE: u8 = 0;

/// The lead-in that starts a frame.
pub open spec fn lead_pulses() -> Seq<u64> {
    seq![LEAD_HIGH_US, LEAD_LOW_US]
}

/// The stop pulse that ends the first of two frames.
pub open spec fn stop_pulses() -> Seq<u64> {
    seq![STOP_HIGH_US, STOP_LOW_US]
}

/// The two pulses of one bit.
pub open spec fn bit_pulses(one: bool) -> Seq<u64> {
    seq![BIT_HIGH_US, if one { ONE_LOW_US } else { ZERO_LOW_US }]
}

/// Whether the bit of `byte` at `place` is set; place 0 is the least
/// significant.
pub open spec fn bit_at(byte: u8, place: u8) -> bool {
    (byte >> place) & 1 == 1
}

/// The sixteen pulses of a byte: the bits at places 7 down to 0.
pub open spec fn byte_pulses(byte: u8) -> Seq<u64> {
    Seq::new(16, |k: int| bit_pulses(bit_at(byte, (7 - k / 2) as u8))[k % 2])
}

/// The pulses of a byte followed by those of its complement.
pub open spec fn pair_pulses(byte: u8) -> Seq<u64> {
    byte_pulses(byte) + byte_pulses(!byte)
}

/// The pulses of a frame with the payload `a`, `b`, `c`, with or without a
/// stop pulse after it.
pub open spec fn frame_pulses(a: u8, b: u8, c: u8, stop: bool) -> Seq<u64> {
    lead_pulses() + pair_pulses(a) + pair_pulses(b) + pair_pulses(c) + if stop {
        stop_pulses()
    } else {
        Seq::empty()
    }
}

/// The pulses that switch the unit on with the given settings: the same frame
/// twice, a stop pulse between the two.
pub open spec fn power_on_pulses(mode: MideaMode, speed: MideaSpeed, temp: u8) -> Seq<u64> {
    frame_pulses(MIDEA_ID, speed_byte(speed), setting_byte(mode, temp), true) + frame_pulses(
        MIDEA_ID,
        speed_byte(speed),
        setting_byte(mode, temp),
        false,
    )
}

/// The pulses that switch the unit off: a frame with a payload of its own,
/// a stop pulse, and a frame whose second and third byte are 0.
pub open spec fn power_off_pulses() -> Seq<u64> {
    frame_pulses(MIDEA_ID, OFF_SPEED_BYTE, OFF_SETTING_BYTE, false) + stop_pulses()
        + lead_pulses() + pair_pulses(MIDEA_ID) + pair_pulses(OFF_TAIL_BYTE) + pair_pulses(
        OFF_TAIL_BYTE,
    )
}

/// The pulses of a command.
pub open spec fn command_pulses(on: bool, mode: MideaMode, speed: MideaSpeed, temp: u8) -> Seq<
    u64,
> {
    if on {
        power_on_pulses(mode, speed, temp)
    } else {
        power_off_pulses()
    }
}

/// Sends the lead-in: 4400 µs high, 4400 µs low.
pub fn code_lead(state: &mut IrGenState)
    ensures
        final(state)@ == old(state)@.drive(lead_pulses()),
{
    proof {
        lemma_drive_two(state@, LEAD_HIGH_US, LEAD_LOW_US);
    }
    state.ir_high(LEAD_HIGH_US);
    state.ir_low(LEAD_LOW_US);
}

/// Sends a bit that is one: 540 µs high, 1620 µs low.
pub fn code_one(state: &mut IrGenState)
    ensures
        final(state)@ == old(state)@.drive(bit_pulses(true)),
{
    proof {
        lemma_drive_two(state@, BIT_HIGH_US, ONE_LOW_US);
    }
    state.ir_high(BIT_HIGH_US);
    state.ir_low(ONE_LOW_US);
}

/// Sends a bit that is zero: 540 µs high, 540 µs low.
pub fn code_zero(state: &mut IrGenState)
    ensures
        final(state)@ == old(state)@.drive(bit_pulses(false)),
{
    proof {
        lemma_drive_two(state@, BIT_HIGH_US, ZERO_LOW_US);
    }
    state.ir_high(BIT_HIGH_US);
    state.ir_low(ZERO_LOW_US);
}

/// Sends the bits of `byte`, the most significant first.
pub fn code_byte(state: &mut IrGenState, byte: u8)
    ensures
        final(state)@ == old(state)@.drive(byte_pulses(byte)),
{
    let ghost start = state@;
    let mut place: u8 = 8;
    while place > 0
        invariant
            place <= 8,
            state@ == start.drive(byte_pulses(byte).take(16 - 2 * place)),
        decreases place,
    {
        place -= 1;
        let ghost sent = byte_pulses(byte).take(14 - 2 * place);
        proof {
            let bit = (byte >> place) & 1;
            assert(bit == 0 || bit == 1) by (bit_vector)
                requires
                    bit == (byte >> place) & 1,
            ;
            assert(byte_pulses(byte).take(16 - 2 * place) =~= sent + bit_pulses(
                bit_at(byte, place),
            ));
            lemma_drive_concat(start, sent, bit_pulses(bit_at(byte, place)));
        }
        if (byte >> place) & 1 == 0 {
            code_zero(state);
        } else {
            code_one(state);
        }
    }
    proof {
        assert(byte_pulses(byte).take(16) =~= byte_pulses(byte));
    }
}

/// Sends the stop pulse: 540 µs high, 5220 µs low.
pub fn code_stop(state: &mut IrGenState)
    ensures
        final(state)@ == old(state)@.drive(stop_pulses()),
{
    proof {
        lemma_drive_two(state@, STOP_HIGH_US, STOP_LOW_US);
    }
    state.ir_high(STOP_HIGH_US);
    state.ir_low(STOP_LOW_US);
}

/// Sends `byte` and then its complement, by which a receiver checks the byte.
pub fn code_pair(state: &mut IrGenState, byte: u8)
    ensures
        final(state)@ == old(state)@.drive(pair_pulses(byte)),
{
    proof {
        lemma_drive_concat(state@, byte_pulses(byte), byte_pulses(!byte));
    }
    code_byte(state, byte);
    code_byte(state, !byte);
}

/// Sends a frame: the lead-in, then `a`, `b` and `c`, each as a pair, then,
/// if `stop` is set, the stop pulse.
pub fn midea_gen_abc(state: &mut IrGenState, a: u8, b: u8, c: u8, stop: bool)
    ensures
        final(state)@ == old(state)@.drive(frame_pulses(a, b, c, stop)),
{
    let ghost start = state@;
    let ghost tail = if stop {
        stop_pulses()
    } else {
        Seq::<u64>::empty()
    };
    proof {
        let la = lead_pulses() + pair_pulses(a);
        let lab = la + pair_pulses(b);
        let labc = lab + pair_pulses(c);
        lemma_drive_concat(start, lead_pulses(), pair_pulses(a));
        lemma_drive_concat(start, la, pair_pulses(b));
        lemma_drive_concat(start, lab, pair_pulses(c));
        lemma_drive_concat(start, labc, tail);
    }
    code_lead(state);
    code_pair(state, a);
    code_pair(state, b);
    code_pair(state, c);
    if stop {
        code_stop(state);
    }
}

/// Sends the command that switches the unit off and finishes the encoding.
///
/// The command is a frame with a fixed payload, a stop pulse, and a second
/// frame whose payload is the protocol's first byte followed by two zero
/// bytes. From a fresh encoder the output is exactly these pulses.
pub fn midea_gen_off(state: IrGenState) -> (pulses: Vec<u64>)
    ensures
        pulses@ == state@.drive(power_off_pulses()).finish(),
        state@ == PulseTrain::fresh() ==> pulses@ == power_off_pulses(),
{
    let ghost start = state@;
    let mut state = state;
    proof {
        let f = frame_pulses(MIDEA_ID, OFF_SPEED_BYTE, OFF_SETTING_BYTE, false);
        let fs = f + stop_pulses();
        let fsl = fs + lead_pulses();
        let fsla = fsl + pair_pulses(MIDEA_ID);
        let fslab = fsla + pair_pulses(OFF_TAIL_BYTE);
        lemma_drive_concat(start, f, stop_pulses());
        lemma_drive_concat(start, fs, lead_pulses());
        lemma_drive_concat(start, fsl, pair_pulses(MIDEA_ID));
        lemma_drive_concat(start, fsla, pair_pulses(OFF_TAIL_BYTE));
        lemma_drive_concat(start, fslab, pair_pulses(OFF_TAIL_BYTE));
        lemma_power_off_positive();
        lemma_drive_fresh(power_off_pulses());
    }
    midea_gen_abc(&mut state, MIDEA_ID, OFF_SPEED_BYTE, OFF_SETTING_BYTE, false);
    code_stop(&mut state);
    code_lead(&mut state);
    code_pair(&mut state, MIDEA_ID);
    code_pair(&mut state, OFF_TAIL_BYTE);
    code_pair(&mut state, OFF_TAIL_BYTE);
    state.ir_end()
}

/// The pulse durations of a command, in the order in which they are sent,
/// the first of them high.
///
/// With `on` set, the payload is made of the protocol's first byte, the fan
/// speed, and the mode with the temperature; its frame is sent twice, with a
/// stop pulse between. With `on` clear, the settings play no part and the
/// fixed switch-off command is sent.
pub fn midea_ac_pattern(on: bool, mode: MideaMode, speed: MideaSpeed, temp: MideaTemp) -> (pulses:
    Vec<u64>)
    ensures
        pulses@ == command_pulses(on, mode, speed, temp@),
        pulses@.len() == 198,
{
    let mut state = IrGenState::default();
    if !on {
        return midea_gen_off(state);
    }
    let b = midea_speed_byte(speed);
    let c = midea_setting_byte(mode, temp);
    proof {
        let first = frame_pulses(MIDEA_ID, b, c, true);
        let second = frame_pulses(MIDEA_ID, b, c, false);
        lemma_frame_positive(MIDEA_ID, b, c, true);
        lemma_frame_positive(MIDEA_ID, b, c, false);
        lemma_drive_concat(PulseTrain::fresh(), first, second);
        lemma_drive_fresh(first + second);
    }
    midea_gen_abc(&mut state, MIDEA_ID, b, c, true);
    midea_gen_abc(&mut state, MIDEA_ID, b, c, false);
    state.ir_end()
}

/// A pair has 32 pulses, none of them 0.
pub proof fn lemma_pair_positive(byte: u8)
    ensures
        pair_pulses(byte).len() == 32,
        all_positive(pair_pulses(byte)),
{
}

/// A frame has 98 pulses, and 100 with its stop pulse; none of them is 0.
pub proof fn lemma_frame_positive(a: u8, b: u8, c: u8, stop: bool)
    ensures
        frame_pulses(a, b, c, stop).len() == if stop { 100int } else { 98int },
        all_positive(frame_pulses(a, b, c, stop)),
{
    lemma_pair_positive(a);
    lemma_pair_positive(b);
    lemma_pair_positive(c);
}

/// The switch-off command has 198 pulses, none of them 0.
pub proof fn lemma_power_off_positive()
    ensures
        power_off_pulses().len() == 198,
        all_positive(power_off_pulses()),
{
    lemma_frame_positive(MIDEA_ID, OFF_SPEED_BYTE, OFF_SETTING_BYTE, false);
    lemma_pair_positive(MIDEA_ID);
    lemma_pair_positive(OFF_TAIL_BYTE);
}

/// Parity: the second byte of a pair carries, bit for bit, the complement of
/// the first. Where the first byte has a long low pulse the second has a
/// short one, and the other way round.
pub proof fn lemma_pair_complement(byte: u8)
    ensures
        pair_pulses(byte).subrange(0, 16) == byte_pulses(byte),
        pair_pulses(byte).subrange(16, 32) == byte_pulses(!byte),
        forall|place: u8| place < 8 ==> bit_at(!byte, place) == !bit_at(byte, place),
        forall|k: int|
            0 <= k < 16 && k % 2 == 1 ==> (#[trigger] byte_pulses(byte)[k] == ONE_LOW_US
                <==> byte_pulses(!byte)[k] == ZERO_LOW_US),
{
    assert forall|place: u8| place < 8 implies bit_at(!byte, place) == !bit_at(byte, place) by {
        assert(place < 8 ==> (((!byte) >> place) & 1 == 1 <==> !((byte >> place) & 1 == 1)))
            by (bit_vector);
    }
}

/// Bytes that differ have pulses that differ, and so have their pairs.
pub proof fn lemma_byte_pulses_distinct(x: u8, y: u8)
    requires
        x != y,
    ensures
        byte_pulses(x) != byte_pulses(y),
        pair_pulses(x) != pair_pulses(y),
{
    assert(x != y ==> ((x >> 0u8) & 1 == 1) != ((y >> 0u8) & 1 == 1) || ((x >> 1u8) & 1 == 1) != ((
    y >> 1u8) & 1 == 1) || ((x >> 2u8) & 1 == 1) != ((y >> 2u8) & 1 == 1) || ((x >> 3u8) & 1 == 1)
        != ((y >> 3u8) & 1 == 1) || ((x >> 4u8) & 1 == 1) != ((y >> 4u8) & 1 == 1) || ((x >> 5u8)
        & 1 == 1) != ((y >> 5u8) & 1 == 1) || ((x >> 6u8) & 1 == 1) != ((y >> 6u8) & 1 == 1) || ((x
        >> 7u8) & 1 == 1) != ((y >> 7u8) & 1 == 1)) by (bit_vector);
    if bit_at(x, 0) != bit_at(y, 0) {
        lemma_bit_shows(x, y, 0);
    } else if bit_at(x, 1) != bit_at(y, 1) {
        lemma_bit_shows(x, y, 1);
    } else if bit_at(x, 2) != bit_at(y, 2) {
        lemma_bit_shows(x, y, 2);
    } else if bit_at(x, 3) != bit_at(y, 3) {
        lemma_bit_shows(x, y, 3);
    } else if bit_at(x, 4) != bit_at(y, 4) {
        lemma_bit_shows(x, y, 4);
    } else if bit_at(x, 5) != bit_at(y, 5) {
        lemma_bit_shows(x, y, 5);
    } else if bit_at(x, 6) != bit_at(y, 6) {
        lemma_bit_shows(x, y, 6);
    } else {
        lemma_bit_shows(x, y, 7);
    }
}

/// Bytes that differ in the bit at `place` differ in the low pulse of that
/// bit.
proof fn lemma_bit_shows(x: u8, y: u8, place: u8)
    requires
        place < 8,
        bit_at(x, place) != bit_at(y, place),
    ensures
        byte_pulses(x) != byte_pulses(y),
        pair_pulses(x) != pair_pulses(y),
{
    let k = 2 * (7 - place) + 1;
    assert(pair_pulses(x)[k] != pair_pulses(y)[k]);
}

/// Where the parts of a frame lie: the lead-in in the first two pulses, the
/// pairs of the three payload bytes in the 32 pulses each that follow, and
/// the stop pulse, if there is one, in the last two. Each byte is followed at
/// once by its complement.
pub proof fn lemma_frame_layout(a: u8, b: u8, c: u8, stop: bool)
    ensures
        frame_pulses(a, b, c, stop).len() == if stop { 100int } else { 98int },
        frame_pulses(a, b, c, stop).subrange(0, 2) == lead_pulses(),
        frame_pulses(a, b, c, stop).subrange(2, 34) == pair_pulses(a),
        frame_pulses(a, b, c, stop).subrange(34, 66) == pair_pulses(b),
        frame_pulses(a, b, c, stop).subrange(66, 98) == pair_pulses(c),
        stop ==> frame_pulses(a, b, c, stop).subrange(98, 100) == stop_pulses(),
        frame_pulses(a, b, c, stop).subrange(2, 18) == byte_pulses(a),
        frame_pulses(a, b, c, stop).subrange(18, 34) == byte_pulses(!a),
{
}

/// The switch-off command is a frame with a stop pulse followed by a frame
/// without one.
pub proof fn lemma_power_off_frames()
    ensures
        power_off_pulses() == frame_pulses(MIDEA_ID, OFF_SPEED_BYTE, OFF_SETTING_BYTE, true)
            + frame_pulses(MIDEA_ID, OFF_TAIL_BYTE, OFF_TAIL_BYTE, false),
{
}

/// No setting switches the unit off: the switch-off command differs from every
/// switch-on command. The two differ in the pair of the second payload byte,
/// in the first frame and in the second; the pair of the first payload byte
/// is the same in both.
pub proof fn lemma_power_off_differs(mode: MideaMode, speed: MideaSpeed, temp: u8)
    ensures
        power_off_pulses() != power_on_pulses(mode, speed, temp),
        power_off_pulses().len() == power_on_pulses(mode, speed, temp).len(),
        power_off_pulses().subrange(34, 66) == pair_pulses(OFF_SPEED_BYTE),
        power_on_pulses(mode, speed, temp).subrange(34, 66) == pair_pulses(speed_byte(speed)),
        pair_pulses(OFF_SPEED_BYTE) != pair_pulses(speed_byte(speed)),
        power_off_pulses().subrange(134, 166) == pair_pulses(OFF_TAIL_BYTE),
        power_on_pulses(mode, speed, temp).subrange(134, 166) == pair_pulses(speed_byte(speed)),
        pair_pulses(OFF_TAIL_BYTE) != pair_pulses(speed_byte(speed)),
        power_off_pulses().subrange(2, 34) == power_on_pulses(mode, speed, temp).subrange(2, 34),
        power_off_pulses().subrange(102, 134) == power_on_pulses(mode, speed, temp).subrange(
            102,
            134,
        ),
{
    let b = speed_byte(speed);
    let c = setting_byte(mode, temp);
    let off_tail = frame_pulses(MIDEA_ID, OFF_TAIL_BYTE, OFF_TAIL_BYTE, false);
    let on_tail = frame_pulses(MIDEA_ID, b, c, false);
    lemma_power_off_frames();
    lemma_speed_byte_values(speed);
    lemma_byte_pulses_distinct(OFF_SPEED_BYTE, b);
    lemma_byte_pulses_distinct(OFF_TAIL_BYTE, b);
    lemma_frame_layout(MIDEA_ID, OFF_SPEED_BYTE, OFF_SETTING_BYTE, true);
    lemma_frame_layout(MIDEA_ID, OFF_TAIL_BYTE, OFF_TAIL_BYTE, false);
    lemma_frame_layout(MIDEA_ID, b, c, true);
    lemma_frame_layout(MIDEA_ID, b, c, false);
    // The second frame starts behind the 100 pulses of the first.
    assert(power_off_pulses().subrange(134, 166) =~= off_tail.subrange(34, 66));
    assert(power_on_pulses(mode, speed, temp).subrange(134, 166) =~= on_tail.subrange(34, 66));
}

} // verus!
