//! Verified plain-text building blocks: decimal rendering of machine
//! integers and left/right padding, used by the disassembler and by the
//! compiler's diagnostics.

use vstd::prelude::*;
use vstd::string::StrSliceExecFns;
use vstd::string::StringExecFns;

verus! {

/// The character for one decimal digit value.
pub open spec fn digit_char(d: int) -> char {
    if d == 0 {
        '0'
    } else if d == 1 {
        '1'
    } else if d == 2 {
        '2'
    } else if d == 3 {
        '3'
    } else if d == 4 {
        '4'
    } else if d == 5 {
        '5'
    } else if d == 6 {
        '6'
    } else if d == 7 {
        '7'
    } else if d == 8 {
        '8'
    } else {
        '9'
    }
}

/// The decimal rendering of a nonnegative integer, most significant digit
/// first, with no sign and no leading zeros (except for `0` itself).
pub open spec fn dec_str(n: int) -> Seq<char>
    recommends
        n >= 0,
    decreases n,
{
    if n < 10 {
        seq![digit_char(n)]
    } else {
        dec_str(n / 10).push(digit_char(n % 10))
    }
}

/// `s` left-padded with `fill` up to `width` characters; `s` itself if it is
/// already at least that wide.
pub open spec fn pad_left(s: Seq<char>, width: int, fill: char) -> Seq<char> {
    if s.len() >= width {
        s
    } else {
        Seq::new((width - s.len()) as nat, |i: int| fill) + s
    }
}

/// `s` right-padded with `fill` up to `width` characters; `s` itself if it
/// is already at least that wide.
pub open spec fn pad_right(s: Seq<char>, width: int, fill: char) -> Seq<char> {
    if s.len() >= width {
        s
    } else {
        s + Seq::new((width - s.len()) as nat, |i: int| fill)
    }
}

/// One decimal digit as a string slice.
fn digit_str(d: usize) -> (s: &'static str)
    requires
        d < 10,
    ensures
        s@ == seq![digit_char(d as int)],
{
    proof {
        reveal_strlit("0");
        reveal_strlit("1");
        reveal_strlit("2");
        reveal_strlit("3");
        reveal_strlit("4");
        reveal_strlit("5");
        reveal_strlit("6");
        reveal_strlit("7");
        reveal_strlit("8");
        reveal_strlit("9");
    }
    let s: &'static str = if d == 0 {
        "0"
    } else if d == 1 {
        "1"
    } else if d == 2 {
        "2"
    } else if d == 3 {
        "3"
    } else if d == 4 {
        "4"
    } else if d == 5 {
        "5"
    } else if d == 6 {
        "6"
    } else if d == 7 {
        "7"
    } else {
        "8"
    };
    if d <= 8 {
        assert(s@ =~= seq![digit_char(d as int)]);
        s
    } else {
        let n: &'static str = "9";
        assert(n@ =~= seq![digit_char(d as int)]);
        n
    }
}

/// The decimal rendering of `n`.
pub fn fmt_usize(n: usize) -> (s: String)
    ensures
        s@ == dec_str(n as int),
    decreases n,
{
    if n < 10 {
        let d = digit_str(n);
        d.to_owned()
    } else {
        let mut s = fmt_usize(n / 10);
        s.append(digit_str(n % 10));
        proof {
            assert(s@ =~= dec_str(n as int / 10).push(digit_char(n as int % 10)));
        }
        s
    }
}

/// `s` left-padded with the single character of `fill` up to `width`.
pub fn pad_left_with(s: &str, width: usize, fill: &str) -> (r: String)
    requires
        fill@.len() == 1,
    ensures
        r@ == pad_left(s@, width as int, fill@[0]),
{
    let n = s.unicode_len();
    let mut r = String::new();
    let mut k: usize = n;
    while k < width
        invariant
            fill@.len() == 1,
            n == s@.len(),
            n <= k,
            n < width ==> k <= width,
            n >= width ==> k == n,
            r@ == Seq::new((k - n) as nat, |i: int| fill@[0]),
        decreases width - k,
    {
        r.append(fill);
        proof {
            assert(r@ =~= Seq::new((k + 1 - n) as nat, |i: int| fill@[0]));
        }
        k = k + 1;
    }
    r.append(s);
    proof {
        if s@.len() >= width {
            assert(r@ =~= s@);
        }
    }
    r
}

/// `s` right-padded with the single character of `fill` up to `width`.
pub fn pad_right_with(s: &str, width: usize, fill: &str) -> (r: String)
    requires
        fill@.len() == 1,
    ensures
        r@ == pad_right(s@, width as int, fill@[0]),
{
    let n = s.unicode_len();
    let mut r = s.to_owned();
    let mut k: usize = n;
    while k < width
        invariant
            fill@.len() == 1,
            n == s@.len(),
            n <= k,
            n < width ==> k <= width,
            n >= width ==> k == n,
            r@ == s@ + Seq::new((k - n) as nat, |i: int| fill@[0]),
        decreases width - k,
    {
        r.append(fill);
        proof {
            assert(r@ =~= s@ + Seq::new((k + 1 - n) as nat, |i: int| fill@[0]));
        }
        k = k + 1;
    }
    proof {
        if s@.len() >= width {
            assert(r@ =~= s@);
        }
    }
    r
}

} // verus!
