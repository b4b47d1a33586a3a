//! Small verified string helpers shared across the crate.

use vstd::prelude::*;
use vstd::string::StringExecFns;

verus! {

/// Compares two string slices by their character sequences.
pub fn str_eq(a: &str, b: &str) -> (r: bool)
    ensures
        r == (a@ == b@),
{
    let x = String::from_str(a);
    let y = String::from_str(b);
    x == y
}

/// The character for a single decimal digit.
pub open spec fn spec_digit(d: int) -> char {
    if d == 0 {
        '0'
    } else if d == 1 {
        '1'
    } else if d == 2 {
        '2'
    } else if d == 3 {
        '3'
    } else if d == 4 {
        '4'
    } else if d == 5 {
        '5'
    } else if d == 6 {
        '6'
    } else if d == 7 {
        '7'
    } else if d == 8 {
        '8'
    } else {
        '9'
    }
}

/// The decimal rendering of a nonnegative number, most significant digit
/// first, without leading zeroes (`0` renders as "0").
pub open spec fn spec_udec(n: int) -> Seq<char>
    decreases n,
{
    if n < 10 {
        seq![spec_digit(n)]
    } else {
        spec_udec(n / 10) + seq![spec_digit(n % 10)]
    }
}

/// Appends one decimal digit to a string.
fn push_digit(s: &mut String, d: u32)
    requires
        d < 10,
    ensures
        final(s)@ == old(s)@ + seq![spec_digit(d as int)],
{
    match d {
        0 => {
            s.append("0");
            proof { reveal_strlit("0"); assert(s@ =~= old(s)@ + seq![spec_digit(d as int)]); }
        },
        1 => {
            s.append("1");
            proof { reveal_strlit("1"); assert(s@ =~= old(s)@ + seq![spec_digit(d as int)]); }
        },
        2 => {
            s.append("2");
            proof { reveal_strlit("2"); assert(s@ =~= old(s)@ + seq![spec_digit(d as int)]); }
        },
        3 => {
            s.append("3");
            proof { reveal_strlit("3"); assert(s@ =~= old(s)@ + seq![spec_digit(d as int)]); }
        },
        4 => {
            s.append("4");
            proof { reveal_strlit("4"); assert(s@ =~= old(s)@ + seq![spec_digit(d as int)]); }
        },
        5 => {
            s.append("5");
            proof { reveal_strlit("5"); assert(s@ =~= old(s)@ + seq![spec_digit(d as int)]); }
        },
        6 => {
            s.append("6");
            proof { reveal_strlit("6"); assert(s@ =~= old(s)@ + seq![spec_digit(d as int)]); }
        },
        7 => {
            s.append("7");
            proof { reveal_strlit("7"); assert(s@ =~= old(s)@ + seq![spec_digit(d as int)]); }
        },
        8 => {
            s.append("8");
            proof { reveal_strlit("8"); assert(s@ =~= old(s)@ + seq![spec_digit(d as int)]); }
        },
        _ => {
            s.append("9");
            proof { reveal_strlit("9"); assert(s@ =~= old(s)@ + seq![spec_digit(d as int)]); }
        },
    }
}

/// Appends the decimal rendering of `n` to `s`.
pub fn append_u32(s: &mut String, n: u32)
    ensures
        final(s)@ == old(s)@ + spec_udec(n as int),
    decreases n,
{
    if n < 10 {
        push_digit(s, n);
    } else {
        append_u32(s, n / 10);
        push_digit(s, n % 10);
        proof {
            assert(s@ =~= old(s)@ + spec_udec(n as int));
        }
    }
}

/// Whether `c` is a decimal digit.
pub open spec fn is_digit(c: char) -> bool {
    48 <= c as int && c as int <= 57
}

/// The value of a decimal digit.
pub open spec fn digit_val(c: char) -> int {
    c as int - 48
}

/// Scanner for dotted-quad IPv4 text, one position at a time: `seg_len`
/// and `seg_val` describe the octet being read, `segs` counts the dots
/// seen. An octet is 0 to 255 with no leading zero.
pub open spec fn ipv4_scan(s: Seq<char>, i: int, seg_len: int, seg_val: int, segs: int) -> bool
    decreases s.len() - i,
{
    if i < 0 || i > s.len() {
        false
    } else if i == s.len() {
        segs == 3 && seg_len > 0
    } else if s[i] == '.' {
        seg_len > 0 && segs < 3 && ipv4_scan(s, i + 1, 0, 0, segs + 1)
    } else if is_digit(s[i]) {
        &&& seg_len == 0 || seg_val > 0
        &&& seg_val * 10 + digit_val(s[i]) <= 255
        &&& ipv4_scan(s, i + 1, seg_len + 1, seg_val * 10 + digit_val(s[i]), segs)
    } else {
        false
    }
}

/// Whether `s` is a dotted-quad IPv4 address: four octets 0 to 255,
/// without leading zeroes.
pub open spec fn valid_ipv4(s: Seq<char>) -> bool {
    ipv4_scan(s, 0, 0, 0, 0)
}

/// Checks whether `s` is a dotted-quad IPv4 address.
pub fn is_valid_ipv4(s: &str) -> (r: bool)
    ensures
        r == valid_ipv4(s@),
{
    let n = s.unicode_len();
    let mut i: usize = 0;
    let mut seg_len: usize = 0;
    let mut seg_val: u32 = 0;
    let mut segs: u32 = 0;
    loop
        invariant
            i <= n,
            n == s@.len(),
            seg_len <= i,
            seg_val <= 255,
            segs <= 3,
            valid_ipv4(s@) == ipv4_scan(s@, i as int, seg_len as int, seg_val as int, segs as int),
        decreases n - i,
    {
        if i == n {
            return segs == 3 && seg_len > 0;
        }
        let c = s.get_char(i);
        if c == '.' {
            if !(seg_len > 0 && segs < 3) {
                return false;
            }
            seg_len = 0;
            seg_val = 0;
            segs = segs + 1;
        } else {
            let cu = c as u32;
            if cu < 48 || cu > 57 {
                return false;
            }
            if !(seg_len == 0 || seg_val > 0) {
                return false;
            }
            let v = seg_val * 10 + (cu - 48);
            if v > 255 {
                return false;
            }
            seg_val = v;
            seg_len = seg_len + 1;
        }
        i = i + 1;
    }
}

/// The decimal rendering of `n`.
pub fn u32_to_string(n: u32) -> (r: String)
    ensures
        r@ == spec_udec(n as int),
{
    let mut s = String::new();
    append_u32(&mut s, n);
    proof {
        assert(s@ =~= spec_udec(n as int));
    }
    s
}

} // verus!
