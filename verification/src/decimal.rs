//! Canonical decimal text of unsigned integers: no sign, no leading zeros,
//! `"0"` for zero.

use vstd::prelude::*;

verus! {

/// The ten decimal digits, by value.
pub open spec fn decimal_alphabet() -> Seq<char> {
    seq!['0', '1', '2', '3', '4', '5', '6', '7', '8', '9']
}

/// The canonical decimal text of `n`.
pub open spec fn decimal(n: nat) -> Seq<char>
    decreases n,
{
    if n < 10 {
        seq![decimal_alphabet()[n as int]]
    } else {
        decimal(n / 10).push(decimal_alphabet()[(n % 10) as int])
    }
}

/// The one-character text of a single digit.
fn digit_text(d: u8) -> (text: &'static str)
    requires
        d < 10,
    ensures
        text@ == seq![decimal_alphabet()[d as int]],
{
    proof {
        reveal_strlit("0");
        reveal_strlit("1");
        reveal_strlit("2");
        reveal_strlit("3");
        reveal_strlit("4");
        reveal_strlit("5");
        reveal_strlit("6");
        reveal_strlit("7");
        reveal_strlit("8");
        reveal_strlit("9");
    }
    let text = match d {
        0 => "0",
        1 => "1",
        2 => "2",
        3 => "3",
        4 => "4",
        5 => "5",
        6 => "6",
        7 => "7",
        8 => "8",
        _ => "9",
    };
    assert(text@ =~= seq![decimal_alphabet()[d as int]]);
    text
}

/// Appends the decimal text of `n` to `out`.
fn append_decimal(out: &mut String, n: u128)
    ensures
        final(out)@ == old(out)@ + decimal(n as nat),
    decreases n,
{
    if n >= 10 {
        append_decimal(out, n / 10);
    }
    let ghost before = out@;
    out.append(digit_text((n % 10) as u8));
    proof {
        let d = decimal_alphabet()[(n % 10) as int];
        if n >= 10 {
            assert(before == old(out)@ + decimal((n / 10) as nat));
            assert(out@ =~= old(out)@ + decimal((n / 10) as nat).push(d));
        } else {
            assert(out@ =~= old(out)@ + seq![d]);
        }
    }
}

/// Renders `n` in canonical decimal.
pub fn to_decimal(n: u128) -> (text: String)
    ensures
        text@ == decimal(n as nat),
{
    let mut text = String::new();
    append_decimal(&mut text, n);
    assert(text@ =~= decimal(n as nat));
    text
}

/// Canonical decimal text is never empty, consists of digits, and starts
/// with `0` only for zero itself.
pub proof fn law_decimal_is_canonical(n: nat)
    ensures
        decimal(n).len() >= 1,
        forall|i: int|
            0 <= i < decimal(n).len() ==> '0' <= #[trigger] decimal(n)[i] && decimal(n)[i] <= '9',
        decimal(n)[0] == '0' <==> n == 0,
    decreases n,
{
    let a = decimal_alphabet();
    assert(a[0] == '0' && a[1] == '1' && a[2] == '2' && a[3] == '3' && a[4] == '4');
    assert(a[5] == '5' && a[6] == '6' && a[7] == '7' && a[8] == '8' && a[9] == '9');
    if n >= 10 {
        law_decimal_is_canonical(n / 10);
    }
}

} // verus!
