//! Small text utilities: decimal numerals, substring search, case folding.

use vstd::prelude::*;

verus! {

/// Character of one decimal digit.
pub open spec fn dec_digit(d: nat) -> char {
    if d == 0 {
        '0'
    } else if d == 1 {
        '1'
    } else if d == 2 {
        '2'
    } else if d == 3 {
        '3'
    } else if d == 4 {
        '4'
    } else if d == 5 {
        '5'
    } else if d == 6 {
        '6'
    } else if d == 7 {
        '7'
    } else if d == 8 {
        '8'
    } else {
        '9'
    }
}

/// Decimal numeral of a natural number, most significant digit first.
pub open spec fn dec_seq(n: nat) -> Seq<char>
    decreases n,
{
    if n < 10 {
        seq![dec_digit(n)]
    } else {
        dec_seq(n / 10).push(dec_digit(n % 10))
    }
}

/// Decimal numeral of an integer, with a leading minus sign when negative.
pub open spec fn int_dec(x: int) -> Seq<char> {
    if x < 0 {
        seq!['-'] + dec_seq((-x) as nat)
    } else {
        dec_seq(x as nat)
    }
}

fn digit_str(d: u32) -> (r: &'static str)
    requires
        d < 10,
    ensures
        r.view() == seq![dec_digit(d as nat)],
{
    proof {
        reveal_strlit("0");
        reveal_strlit("1");
        reveal_strlit("2");
        reveal_strlit("3");
        reveal_strlit("4");
        reveal_strlit("5");
        reveal_strlit("6");
        reveal_strlit("7");
        reveal_strlit("8");
        reveal_strlit("9");
    }
    let r = if d == 0 {
        "0"
    } else if d == 1 {
        "1"
    } else if d == 2 {
        "2"
    } else if d == 3 {
        "3"
    } else if d == 4 {
        "4"
    } else if d == 5 {
        "5"
    } else if d == 6 {
        "6"
    } else if d == 7 {
        "7"
    } else if d == 8 {
        "8"
    } else {
        "9"
    };
    proof {
        assert(r.view() =~= seq![dec_digit(d as nat)]);
    }
    r
}

/// The decimal numeral of `n`.
pub fn u32_dec_string(n: u32) -> (r: String)
    ensures
        r.view() == dec_seq(n as nat),
    decreases n,
{
    if n < 10 {
        digit_str(n).to_owned()
    } else {
        let mut s = u32_dec_string(n / 10);
        s.append(digit_str(n % 10));
        proof {
            assert(s.view() =~= dec_seq(n as nat));
        }
        s
    }
}

/// The decimal numeral of `x`, sign included.
pub fn i32_dec_string(x: i32) -> (r: String)
    ensures
        r.view() == int_dec(x as int),
{
    if x >= 0 {
        u32_dec_string(x as u32)
    } else {
        let m: i64 = -(x as i64);
        proof {
            assert(0 < m <= 0x8000_0000i64);
        }
        let mag: u32 = m as u32;
        let mut s = "-".to_owned();
        let digits = u32_dec_string(mag);
        s.append(digits.as_str());
        proof {
            reveal_strlit("-");
            assert(s.view() =~= int_dec(x as int));
        }
        s
    }
}

/// Half of a value, rounded toward zero, as machine division halves it.
pub open spec fn half_toward_zero(v: int) -> int {
    if v >= 0 {
        v / 2
    } else {
        -((-v) / 2)
    }
}

/// Text of a boolean value.
pub open spec fn bool_text(b: bool) -> Seq<char> {
    if b {
        "true".view()
    } else {
        "false".view()
    }
}

/// The text of a boolean value.
pub fn bool_str(b: bool) -> (r: &'static str)
    ensures
        r.view() == bool_text(b),
{
    if b {
        "true"
    } else {
        "false"
    }
}

/// `needle` occurs contiguously in `hay`.
pub open spec fn has_substring(hay: Seq<char>, needle: Seq<char>) -> bool {
    exists|i: int|
        0 <= i && i + needle.len() <= hay.len() && #[trigger] hay.subrange(i, i + needle.len())
            == needle
}

/// The lowercase image of a character sequence, as the Unicode lowercasing
/// of `str::to_lowercase` computes it.
pub uninterp spec fn lower_of(s: Seq<char>) -> Seq<char>;

/// Relies on str::to_lowercase: its result depends on the characters alone.
#[verifier::external_body]
pub(crate) fn to_lowercase(s: &str) -> (r: String)
    ensures
        r.view() == lower_of(s.view()),
{
    s.to_lowercase()
}

fn matches_at(hay: &str, needle: &str, i: usize) -> (r: bool)
    requires
        i + needle.view().len() <= hay.view().len(),
    ensures
        r == (hay.view().subrange(i as int, i + needle.view().len()) == needle.view()),
{
    let n = hay.unicode_len();
    let m = needle.unicode_len();
    let mut j: usize = 0;
    while j < m
        invariant
            j <= m,
            n == hay.view().len(),
            m == needle.view().len(),
            i + m <= n,
            forall|t: int| 0 <= t < j ==> hay.view()[i + t] == needle.view()[t],
        decreases m - j,
    {
        if hay.get_char(i + j) != needle.get_char(j) {
            proof {
                assert(hay.view().subrange(i as int, i + needle.view().len())[j as int]
                    == hay.view()[i + j]);
            }
            return false;
        }
        j = j + 1;
    }
    proof {
        assert(hay.view().subrange(i as int, i + needle.view().len()) =~= needle.view());
    }
    true
}

/// Whether `needle` occurs contiguously in `hay`.
pub fn find_substring(hay: &str, needle: &str) -> (r: bool)
    ensures
        r == has_substring(hay.view(), needle.view()),
{
    let n = hay.unicode_len();
    let m = needle.unicode_len();
    if m > n {
        proof {
            assert(!has_substring(hay.view(), needle.view()));
        }
        return false;
    }
    if m == 0 {
        proof {
            assert(hay.view().subrange(0, 0 + needle.view().len() as int) =~= needle.view());
            assert(has_substring(hay.view(), needle.view()));
        }
        return true;
    }
    let mut i: usize = 0;
    while i <= n - m
        invariant
            m <= n,
            n == hay.view().len(),
            m == needle.view().len(),
            1 <= m,
            i <= n - m + 1,
            forall|k: int|
                0 <= k < i ==> #[trigger] hay.view().subrange(k, k + m) != needle.view(),
        decreases n + 1 - m - i,
    {
        if matches_at(hay, needle, i) {
            return true;
        }
        i = i + 1;
    }
    proof {
        assert(!has_substring(hay.view(), needle.view()));
    }
    false
}

} // verus!
