//! The settings of a command (power, mode, fan speed and temperature) and the
//! payload bytes that carry them.

use vstd::prelude::*;
use vstd::string::StrSliceExecFns;
use crate::grey::{bin_to_grey, grey, lemma_grey_nibble};

verus! {

/// Operating mode of the air conditioner.
#[derive(Clone, Copy, Debug, PartialEq, Eq, Structural)]
pub enum MideaMode {
    Auto,
    Cool,
    Dry,
    Fan,
    Warm,
}

/// Fan speed.
#[derive(Clone, Copy, Debug, PartialEq, Eq, Structural)]
pub enum MideaSpeed {
    Auto,
    Low,
    Middle,
    High,
}

/// Why a command could not be built.
#[derive(Clone, Copy, Debug, PartialEq, Eq, Structural)]
pub enum MideaError {
    /// The temperature, given here, is not one of 17 to 30 degrees.
    TempOutOfRange(u8),
    /// The word for the power switch is none of those that are understood.
    UnknownPowerToken,
}

/// Lowest temperature that can be set, in degrees Celsius.
pub const TEMP_MIN: u8 = 17;

/// Highest temperature that can be set, in degrees Celsius.
pub const TEMP_MAX: u8 = 30;

/// First payload byte of every frame: it names the protocol.
pub const MIDEA_ID: u8 = 0xB2;

/// Low five bits of the second payload byte, which are always set.
pub const SPEED_MARKER: u8 = 0b11111;

/// A target temperature in degrees Celsius, from 17 to 30.
#[derive(Clone, Copy, Debug, PartialEq, Eq, Structural)]
pub struct MideaTemp {
    temp: u8,
}

impl View for MideaTemp {
    type V = u8;

    closed spec fn view(&self) -> u8 {
        self.temp
    }
}

impl MideaTemp {
    #[verifier::type_invariant]
    spec fn in_range(self) -> bool {
        TEMP_MIN <= self.temp <= TEMP_MAX
    }

    /// The temperature `temp`, which has to be one of 17 to 30 degrees;
    /// any other is refused, none is clamped.
    pub fn new(temp: u8) -> (made: Result<MideaTemp, MideaError>)
        ensures
            TEMP_MIN <= temp <= TEMP_MAX ==> made is Ok && made->Ok_0@ == temp,
            !(TEMP_MIN <= temp <= TEMP_MAX) ==> made == Err::<MideaTemp, MideaError>(
                MideaError::TempOutOfRange(temp),
            ),
    {
        if temp < TEMP_MIN || temp > TEMP_MAX {
            Err(MideaError::TempOutOfRange(temp))
        } else {
            Ok(MideaTemp { temp })
        }
    }

    /// The temperature in degrees Celsius.
    pub fn degrees(&self) -> (temp: u8)
        ensures
            temp == self@,
            TEMP_MIN <= temp <= TEMP_MAX,
    {
        proof {
            use_type_invariant(self);
        }
        self.temp
    }
}

/// Whether `token` is a word that switches the unit on: `ON`, `on`, `On` or
/// `1`.
pub open spec fn is_on_token(token: Seq<char>) -> bool {
    token =~= seq!['O', 'N'] || token =~= seq!['o', 'n'] || token =~= seq!['O', 'n'] || token
        =~= seq!['1']
}

/// Whether `token` is a word that switches the unit off: `OFF`, `off`, `Off`
/// or `0`.
pub open spec fn is_off_token(token: Seq<char>) -> bool {
    token =~= seq!['O', 'F', 'F'] || token =~= seq!['o', 'f', 'f'] || token =~= seq![
        'O',
        'f',
        'f',
    ] || token =~= seq!['0']
}

/// No word switches the unit both on and off.
pub proof fn lemma_tokens_apart(token: Seq<char>)
    ensures
        !(is_on_token(token) && is_off_token(token)),
{
    if token.len() == 1 {
        assert(seq!['1'][0] != seq!['0'][0]);
    }
}

/// Whether two strings hold the same characters.
fn same_text(left: &str, right: &str) -> (same: bool)
    ensures
        same == (left@ == right@),
{
    let n = left.unicode_len();
    if n != right.unicode_len() {
        return false;
    }
    let mut i: usize = 0;
    while i < n
        invariant
            i <= n,
            n == left@.len(),
            n == right@.len(),
            forall|k: int| 0 <= k < i ==> left@[k] == right@[k],
        decreases n - i,
    {
        if left.get_char(i) != right.get_char(i) {
            return false;
        }
        i += 1;
    }
    assert(left@ =~= right@);
    true
}

/// The power switch that `token` stands for: on for `ON`, `on`, `On` and
/// `1`, off for `OFF`, `off`, `Off` and `0`. Any other word is refused.
pub fn power_from_token(token: &str) -> (power: Result<bool, MideaError>)
    ensures
        is_on_token(token@) ==> power == Ok::<bool, MideaError>(true),
        is_off_token(token@) ==> power == Ok::<bool, MideaError>(false),
        !is_on_token(token@) && !is_off_token(token@) ==> power == Err::<bool, MideaError>(
            MideaError::UnknownPowerToken,
        ),
{
    proof {
        reveal_strlit("ON");
        reveal_strlit("on");
        reveal_strlit("On");
        reveal_strlit("1");
        reveal_strlit("OFF");
        reveal_strlit("off");
        reveal_strlit("Off");
        reveal_strlit("0");
        assert("ON"@ =~= seq!['O', 'N']);
        assert("on"@ =~= seq!['o', 'n']);
        assert("On"@ =~= seq!['O', 'n']);
        assert("1"@ =~= seq!['1']);
        assert("OFF"@ =~= seq!['O', 'F', 'F']);
        assert("off"@ =~= seq!['o', 'f', 'f']);
        assert("Off"@ =~= seq!['O', 'f', 'f']);
        assert("0"@ =~= seq!['0']);
        lemma_tokens_apart(token@);
    }
    if same_text(token, "ON") || same_text(token, "on") || same_text(token, "On") || same_text(
        token,
        "1",
    ) {
        Ok(true)
    } else if same_text(token, "OFF") || same_text(token, "off") || same_text(token, "Off")
        || same_text(token, "0") {
        Ok(false)
    } else {
        Err(MideaError::UnknownPowerToken)
    }
}

/// The three bits that stand for a fan speed.
pub open spec fn speed_bits(speed: MideaSpeed) -> u8 {
    match speed {
        MideaSpeed::Auto => 0b101,
        MideaSpeed::Low => 0b100,
        MideaSpeed::Middle => 0b010,
        MideaSpeed::High => 0b001,
    }
}

/// The four bits that stand for a mode. Drying and fanning share theirs.
pub open spec fn mode_bits(mode: MideaMode) -> u8 {
    match mode {
        MideaMode::Auto => 0b1000,
        MideaMode::Cool => 0b0000,
        MideaMode::Dry => 0b0100,
        MideaMode::Fan => 0b0100,
        MideaMode::Warm => 0b1100,
    }
}

/// Second payload byte: the fan speed in the high three bits, the marker in
/// the low five.
pub open spec fn speed_byte(speed: MideaSpeed) -> u8 {
    (speed_bits(speed) << 5) | SPEED_MARKER
}

/// Third payload byte: the Gray code of the temperature's distance from 17
/// degrees in the high four bits, the mode in the low four.
pub open spec fn setting_byte(mode: MideaMode, temp: u8) -> u8 {
    (grey((temp - TEMP_MIN) as u8) << 4) | mode_bits(mode)
}

/// The second payload byte for `speed`.
pub fn midea_speed_byte(speed: MideaSpeed) -> (b: u8)
    ensures
        b == speed_byte(speed),
{
    let bits: u8 = match speed {
        MideaSpeed::Auto => 0b101,
        MideaSpeed::Low => 0b100,
        MideaSpeed::Middle => 0b010,
        MideaSpeed::High => 0b001,
    };
    (bits << 5) | SPEED_MARKER
}

/// The third payload byte for `mode` and `temp`.
pub fn midea_setting_byte(mode: MideaMode, temp: MideaTemp) -> (c: u8)
    ensures
        c == setting_byte(mode, temp@),
{
    let bits: u8 = match mode {
        MideaMode::Auto => 0b1000,
        MideaMode::Cool => 0b0000,
        MideaMode::Dry | MideaMode::Fan => 0b0100,
        MideaMode::Warm => 0b1100,
    };
    let steps: u8 = temp.degrees() - TEMP_MIN;
    (bin_to_grey(steps) << 4) | bits
}

/// The third payload byte can be taken apart again: its low nibble is the
/// mode, its high nibble the Gray code of the temperature's distance from 17.
pub proof fn lemma_setting_byte_nibbles(mode: MideaMode, temp: u8)
    requires
        TEMP_MIN <= temp <= TEMP_MAX,
    ensures
        setting_byte(mode, temp) & 0x0F == mode_bits(mode),
        setting_byte(mode, temp) >> 4 == grey((temp - TEMP_MIN) as u8),
{
    let g = grey((temp - TEMP_MIN) as u8);
    let m = mode_bits(mode);
    lemma_grey_nibble((temp - TEMP_MIN) as u8);
    assert(g < 16 && m < 16 ==> ((g << 4) | m) & 0x0F == m && ((g << 4) | m) >> 4 == g)
        by (bit_vector);
}

/// The second payload byte can be taken apart again: its high three bits are
/// the fan speed, its low five the marker.
pub proof fn lemma_speed_byte_parts(speed: MideaSpeed)
    ensures
        speed_byte(speed) >> 5 == speed_bits(speed),
        speed_byte(speed) & SPEED_MARKER == SPEED_MARKER,
{
    let s = speed_bits(speed);
    assert(s < 8 ==> ((s << 5) | 0b11111) >> 5 == s && ((s << 5) | 0b11111) & 0b11111 == 0b11111)
        by (bit_vector);
}

/// The second payload byte for each fan speed, written out.
pub proof fn lemma_speed_byte_values(speed: MideaSpeed)
    ensures
        speed_byte(speed) == match speed {
            MideaSpeed::Auto => 0b1011_1111u8,
            MideaSpeed::Low => 0b1001_1111u8,
            MideaSpeed::Middle => 0b0101_1111u8,
            MideaSpeed::High => 0b0011_1111u8,
        },
{
    assert((0b101u8 << 5) | 0b11111 == 0b1011_1111) by (bit_vector);
    assert((0b100u8 << 5) | 0b11111 == 0b1001_1111) by (bit_vector);
    assert((0b010u8 << 5) | 0b11111 == 0b0101_1111) by (bit_vector);
    assert((0b001u8 << 5) | 0b11111 == 0b0011_1111) by (bit_vector);
}

} // verus!
