//! Numbers as text, for the messages of failures.

use vstd::prelude::*;
use vstd::string::StringExecFns;

verus! {

/// The character that stands for a digit, in a base of up to sixteen; the
/// digits from ten on are capital letters.
pub open spec fn digit_char(d: nat) -> char {
    if d == 0 {
        '0'
    } else if d == 1 {
        '1'
    } else if d == 2 {
        '2'
    } else if d == 3 {
        '3'
    } else if d == 4 {
        '4'
    } else if d == 5 {
        '5'
    } else if d == 6 {
        '6'
    } else if d == 7 {
        '7'
    } else if d == 8 {
        '8'
    } else if d == 9 {
        '9'
    } else if d == 10 {
        'A'
    } else if d == 11 {
        'B'
    } else if d == 12 {
        'C'
    } else if d == 13 {
        'D'
    } else if d == 14 {
        'E'
    } else {
        'F'
    }
}

/// The digits of a number in a base from two to sixteen, the most
/// significant first, with no zeros before them; zero has one digit.
pub open spec fn radix_text(v: nat, base: nat) -> Seq<char>
    decreases v,
    via radix_text_decreases
{
    if base < 2 || v < base {
        seq![digit_char(v)]
    } else {
        radix_text(v / base, base).push(digit_char(v % base))
    }
}

#[via_fn]
proof fn radix_text_decreases(v: nat, base: nat) {
    if !(base < 2 || v < base) {
        assert(v / base < v) by (nonlinear_arith)
            requires
                base >= 2,
                v >= base,
        ;
    }
}

/// `n` zeros.
pub open spec fn zeros_text(n: nat) -> Seq<char> {
    Seq::new(n, |i: int| '0')
}

/// A text with zeros put before it, as many as it is shorter than `width`.
pub open spec fn zero_padded(text: Seq<char>, width: nat) -> Seq<char> {
    if text.len() >= width {
        text
    } else {
        zeros_text((width - text.len()) as nat) + text
    }
}

/// The digits of a number in base ten.
pub open spec fn decimal_text(v: nat) -> Seq<char> {
    radix_text(v, 10)
}

/// The digits of a number in base sixteen, with capital letters, and with
/// zeros before them up to `width` digits.
pub open spec fn upper_hex_text(v: nat, width: nat) -> Seq<char> {
    zero_padded(radix_text(v, 16), width)
}

fn digit_str(d: u8) -> (r: &'static str)
    requires
        d < 16,
    ensures
        r@ == seq![digit_char(d as nat)],
{
    proof {
        reveal_strlit("0");
        reveal_strlit("1");
        reveal_strlit("2");
        reveal_strlit("3");
        reveal_strlit("4");
        reveal_strlit("5");
        reveal_strlit("6");
        reveal_strlit("7");
        reveal_strlit("8");
        reveal_strlit("9");
        reveal_strlit("A");
        reveal_strlit("B");
        reveal_strlit("C");
        reveal_strlit("D");
        reveal_strlit("E");
        reveal_strlit("F");
    }
    let r = match d {
        0 => "0",
        1 => "1",
        2 => "2",
        3 => "3",
        4 => "4",
        5 => "5",
        6 => "6",
        7 => "7",
        8 => "8",
        9 => "9",
        10 => "A",
        11 => "B",
        12 => "C",
        13 => "D",
        14 => "E",
        _ => "F",
    };
    assert(r@ =~= seq![digit_char(d as nat)]);
    r
}

/// Puts the digits of `v` in the base `base` after `out`, with zeros before
/// them up to `width` digits.
pub fn push_radix(out: &mut String, v: u64, base: u64, width: usize)
    requires
        2 <= base <= 16,
    ensures
        final(out)@ == old(out)@ + zero_padded(radix_text(v as nat, base as nat), width as nat),
{
    // The digits but the first, the least significant first.
    let mut digits: Vec<u8> = Vec::new();
    let mut rest = v;
    let ghost mut tail: Seq<char> = Seq::empty();
    assert(radix_text(v as nat, base as nat) =~= radix_text(rest as nat, base as nat) + tail);
    while rest >= base
        invariant
            2 <= base <= 16,
            radix_text(v as nat, base as nat) == radix_text(rest as nat, base as nat) + tail,
            tail.len() == digits@.len(),
            forall|j: int|
                0 <= j < tail.len() ==> (#[trigger] tail[j]) == digit_char(
                    digits@[digits@.len() - 1 - j] as nat,
                ),
            forall|j: int| 0 <= j < digits@.len() ==> (#[trigger] digits@[j]) < 16,
        decreases rest,
    {
        let d = (rest % base) as u8;
        proof {
            let longer = seq![digit_char(d as nat)] + tail;
            let pushed = digits@.push(d);
            assert(radix_text(rest as nat, base as nat) + tail =~= radix_text(
                (rest / base) as nat,
                base as nat,
            ) + longer);
            assert forall|j: int| 0 <= j < longer.len() implies (#[trigger] longer[j])
                == digit_char(pushed[pushed.len() - 1 - j] as nat) by {
                if j > 0 {
                    assert(longer[j] == tail[j - 1]);
                    assert(pushed[pushed.len() - 1 - j] == digits@[digits@.len() - 1 - (j - 1)]);
                } else {
                    assert(pushed[pushed.len() - 1] == d);
                }
            }
            tail = longer;
        }
        digits.push(d);
        rest = rest / base;
    }
    let ghost text = radix_text(v as nat, base as nat);
    assert(text =~= seq![digit_char(rest as nat)] + tail);
    let zeros: usize = if width > digits.len() {
        width - digits.len() - 1
    } else {
        0
    };
    let ghost padding = zeros_text(zeros as nat);
    assert(zero_padded(text, width as nat) =~= padding + text);
    let mut z: usize = 0;
    assert(out@ =~= old(out)@ + zeros_text(0));
    while z < zeros
        invariant
            z <= zeros,
            out@ == old(out)@ + zeros_text(z as nat),
        decreases zeros - z,
    {
        proof {
            reveal_strlit("0");
        }
        out.append("0");
        z = z + 1;
        assert(out@ =~= old(out)@ + zeros_text(z as nat));
    }
    out.append(digit_str(rest as u8));
    let mut i: usize = digits.len();
    assert(out@ =~= old(out)@ + padding + seq![digit_char(rest as nat)] + tail.take(0));
    while i > 0
        invariant
            i <= digits@.len(),
            tail.len() == digits@.len(),
            forall|j: int|
                0 <= j < tail.len() ==> (#[trigger] tail[j]) == digit_char(
                    digits@[digits@.len() - 1 - j] as nat,
                ),
            forall|j: int| 0 <= j < digits@.len() ==> (#[trigger] digits@[j]) < 16,
            out@ == old(out)@ + padding + seq![digit_char(rest as nat)] + tail.take(
                digits@.len() - i,
            ),
        decreases i,
    {
        i = i - 1;
        out.append(digit_str(digits[i]));
        proof {
            let k = digits@.len() - 1 - i;
            assert(tail[k] == digit_char(digits@[digits@.len() - 1 - k] as nat));
            assert(tail.take(k + 1) =~= tail.take(k).push(tail[k]));
            assert(out@ =~= old(out)@ + padding + seq![digit_char(rest as nat)] + tail.take(
                k + 1,
            ));
        }
    }
    assert(tail.take(digits@.len() as int) =~= tail);
    assert(out@ =~= old(out)@ + zero_padded(text, width as nat));
}

/// Puts the digits of `v` in base ten after `out`.
pub fn push_decimal(out: &mut String, v: u64)
    ensures
        final(out)@ == old(out)@ + decimal_text(v as nat),
{
    push_radix(out, v, 10, 0);
}

/// Puts the digits of `v` in base sixteen after `out`, with capital letters,
/// and with zeros before them up to `width` digits.
pub fn push_upper_hex(out: &mut String, v: u64, width: usize)
    ensures
        final(out)@ == old(out)@ + upper_hex_text(v as nat, width as nat),
{
    push_radix(out, v, 16, width);
}

} // verus!
