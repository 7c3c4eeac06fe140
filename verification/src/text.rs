//! The text form of identifiers: `0x` and sixty-four lower-case hex digits.

use crate::base_types::{ObjectID, SuiAddress};
use vstd::prelude::*;
use vstd::string::StringExecFns;

verus! {

/// The digit that stands for a number below sixteen.
pub open spec fn hex_digit(n: int) -> Seq<char> {
    if n == 0 {
        "0"@
    } else if n == 1 {
        "1"@
    } else if n == 2 {
        "2"@
    } else if n == 3 {
        "3"@
    } else if n == 4 {
        "4"@
    } else if n == 5 {
        "5"@
    } else if n == 6 {
        "6"@
    } else if n == 7 {
        "7"@
    } else if n == 8 {
        "8"@
    } else if n == 9 {
        "9"@
    } else if n == 10 {
        "a"@
    } else if n == 11 {
        "b"@
    } else if n == 12 {
        "c"@
    } else if n == 13 {
        "d"@
    } else if n == 14 {
        "e"@
    } else {
        "f"@
    }
}

/// The last `digits` hex digits of `x`, the most significant first.
pub open spec fn hex_of(x: int, digits: nat) -> Seq<char>
    decreases digits,
{
    if digits == 0 {
        Seq::empty()
    } else {
        hex_of(x / 16, (digits - 1) as nat) + hex_digit(x % 16)
    }
}

/// The text of an identifier of two halves.
pub open spec fn id_text(hi: u128, lo: u128) -> Seq<char> {
    "0x"@ + hex_of(hi as int, 32) + hex_of(lo as int, 32)
}

fn digit(n: u8) -> (r: &'static str)
    requires
        n < 16,
    ensures
        r@ == hex_digit(n as int),
{
    if n == 0 {
        "0"
    } else if n == 1 {
        "1"
    } else if n == 2 {
        "2"
    } else if n == 3 {
        "3"
    } else if n == 4 {
        "4"
    } else if n == 5 {
        "5"
    } else if n == 6 {
        "6"
    } else if n == 7 {
        "7"
    } else if n == 8 {
        "8"
    } else if n == 9 {
        "9"
    } else if n == 10 {
        "a"
    } else if n == 11 {
        "b"
    } else if n == 12 {
        "c"
    } else if n == 13 {
        "d"
    } else if n == 14 {
        "e"
    } else {
        "f"
    }
}

fn push_hex(out: &mut String, x: u128, digits: u32)
    ensures
        final(out)@ == old(out)@ + hex_of(x as int, digits as nat),
    decreases digits,
{
    if digits > 0 {
        push_hex(out, x / 16, digits - 1);
        let low: u8 = (x % 16) as u8;
        out.append(digit(low));
        assert(out@ =~= old(out)@ + hex_of(x as int, digits as nat));
    } else {
        assert(out@ =~= old(out)@ + hex_of(x as int, 0));
    }
}

/// Appends the text of an identifier of two halves.
pub fn push_id(out: &mut String, hi: u128, lo: u128)
    ensures
        final(out)@ == old(out)@ + id_text(hi, lo),
{
    out.append("0x");
    push_hex(out, hi, 32);
    push_hex(out, lo, 32);
    assert(out@ =~= old(out)@ + id_text(hi, lo));
}

impl SuiAddress {
    /// The address as text.
    pub open spec fn text(self) -> Seq<char> {
        id_text(self.hi, self.lo)
    }

    pub fn to_text(&self) -> (r: String)
        ensures
            r@ == self.text(),
    {
        let mut out = String::new();
        push_id(&mut out, self.hi, self.lo);
        assert(out@ =~= self.text());
        out
    }
}

impl ObjectID {
    /// The identifier as text.
    pub open spec fn text(self) -> Seq<char> {
        id_text(self.hi, self.lo)
    }

    pub fn to_text(&self) -> (r: String)
        ensures
            r@ == self.text(),
    {
        let mut out = String::new();
        push_id(&mut out, self.hi, self.lo);
        assert(out@ =~= self.text());
        out
    }
}

} // verus!
