//! The output as a line of text: the durations in decimal, with a comma
//! between each two and none after the last.

use vstd::prelude::*;
use vstd::string::StringExecFns;

verus! {

/// The character for the digit `d`.
pub open spec fn digit(d: nat) -> char {
    if d == 0 {
        '0'
    } else if d == 1 {
        '1'
    } else if d == 2 {
        '2'
    } else if d == 3 {
        '3'
    } else if d == 4 {
        '4'
    } else if d == 5 {
        '5'
    } else if d == 6 {
        '6'
    } else if d == 7 {
        '7'
    } else if d == 8 {
        '8'
    } else {
        '9'
    }
}

/// The decimal digits of `n`, the most significant first, without leading
/// zeros.
pub open spec fn decimal(n: nat) -> Seq<char>
    decreases n,
{
    if n < 10 {
        seq![digit(n)]
    } else {
        decimal(n / 10).push(digit(n % 10))
    }
}

/// The line for `pulses`: each duration in decimal, separated by commas.
pub open spec fn line(pulses: Seq<u64>) -> Seq<char>
    decreases pulses.len(),
{
    if pulses.len() == 0 {
        Seq::empty()
    } else if pulses.len() == 1 {
        decimal(pulses[0] as nat)
    } else {
        line(pulses.drop_last()) + seq![','] + decimal(pulses.last() as nat)
    }
}

/// The digit `d` as a string.
fn digit_str(d: u64) -> (text: &'static str)
    requires
        d < 10,
    ensures
        text@ == seq![digit(d as nat)],
{
    proof {
        reveal_strlit("0");
        reveal_strlit("1");
        reveal_strlit("2");
        reveal_strlit("3");
        reveal_strlit("4");
        reveal_strlit("5");
        reveal_strlit("6");
        reveal_strlit("7");
        reveal_strlit("8");
        reveal_strlit("9");
    }
    match d {
        0 => "0",
        1 => "1",
        2 => "2",
        3 => "3",
        4 => "4",
        5 => "5",
        6 => "6",
        7 => "7",
        8 => "8",
        _ => "9",
    }
}

/// `n` in decimal.
pub fn decimal_string(n: u64) -> (text: String)
    ensures
        text@ == decimal(n as nat),
    decreases n,
{
    if n < 10 {
        String::from_str(digit_str(n))
    } else {
        let mut text = decimal_string(n / 10);
        text.append(digit_str(n % 10));
        text
    }
}

/// The durations `pulses` as one line of text: decimal numbers separated by
/// commas, with no comma after the last. No durations give the empty line.
pub fn pulse_line(pulses: &Vec<u64>) -> (text: String)
    ensures
        text@ == line(pulses@),
{
    let mut text = String::new();
    let mut i: usize = 0;
    while i < pulses.len()
        invariant
            i <= pulses.len(),
            text@ == line(pulses@.take(i as int)),
        decreases pulses.len() - i,
    {
        if i > 0 {
            text.append(",");
        }
        let number = decimal_string(pulses[i]);
        text.append(number.as_str());
        proof {
            reveal_strlit(",");
            assert(pulses@.take(i + 1).drop_last() =~= pulses@.take(i as int));
        }
        i += 1;
    }
    proof {
        assert(pulses@.take(pulses.len() as int) =~= pulses@);
    }
    text
}

} // verus!
