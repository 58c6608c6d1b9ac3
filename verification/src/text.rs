//! Character-level string comparison and hexadecimal colour codes.

use vstd::prelude::*;
use vstd::string::StrSliceExecFns;

verus! {

/// Compares two strings character by character.
pub fn str_equal(a: &str, b: &str) -> (r: bool)
    ensures
        r == (a@ == b@),
{
    let n = a.unicode_len();
    let m = b.unicode_len();
    if n != m {
        return false;
    }
    let mut i: usize = 0;
    while i < n
        invariant
            n == a@.len(),
            m == b@.len(),
            n == m,
            i <= n,
            forall|j: int| 0 <= j < i ==> a@[j] == b@[j],
        decreases n - i,
    {
        if a.get_char(i) != b.get_char(i) {
            return false;
        }
        i = i + 1;
    }
    assert(a@ =~= b@);
    true
}

/// The value of a hexadecimal digit, either case.
pub open spec fn hex_digit(c: char) -> Option<u8> {
    if '0' <= c <= '9' {
        Some((c as int - '0' as int) as u8)
    } else if 'a' <= c <= 'f' {
        Some((c as int - 'a' as int + 10) as u8)
    } else if 'A' <= c <= 'F' {
        Some((c as int - 'A' as int + 10) as u8)
    } else {
        None
    }
}

/// A two-character field read as a byte in base 16, as `u8::from_str_radix`
/// reads it (a leading `+` is a sign), and 0 where that fails.
pub open spec fn hex_pair(a: char, b: char) -> u8 {
    match (hex_digit(a), hex_digit(b)) {
        (Some(x), Some(y)) => (16 * x + y) as u8,
        _ => if a == '+' {
            match hex_digit(b) {
                Some(y) => y,
                None => 0,
            }
        } else {
            0
        },
    }
}

/// `k` is the number of `#` characters that `s` starts with.
pub open spec fn hash_prefix(s: Seq<char>, k: int) -> bool {
    &&& 0 <= k <= s.len()
    &&& forall|j: int| 0 <= j < k ==> s[j] == '#'
    &&& (k == s.len() || s[k] != '#')
}

/// A colour code: any number of leading `#`, then three two-character fields.
pub open spec fn rgb_code(s: Seq<char>) -> (u8, u8, u8) {
    let k = choose|k: int| hash_prefix(s, k);
    (hex_pair(s[k], s[k + 1]), hex_pair(s[k + 2], s[k + 3]), hex_pair(s[k + 4], s[k + 5]))
}

/// Colour codes whose three fields are there and are ASCII.
pub open spec fn rgb_code_readable(s: Seq<char>) -> bool {
    forall|k: int| #[trigger] hash_prefix(s, k) ==> k + 6 <= s.len() && forall|i: int| k <= i < k + 6 ==> (s[i] as int) < 128
}

fn hex_value(c: char) -> (r: Option<u8>)
    ensures
        r == hex_digit(c),
{
    if '0' <= c && c <= '9' {
        Some((c as u32 - '0' as u32) as u8)
    } else if 'a' <= c && c <= 'f' {
        Some((c as u32 - 'a' as u32 + 10) as u8)
    } else if 'A' <= c && c <= 'F' {
        Some((c as u32 - 'A' as u32 + 10) as u8)
    } else {
        None
    }
}

fn hex_field(a: char, b: char) -> (r: u8)
    ensures
        r == hex_pair(a, b),
{
    match (hex_value(a), hex_value(b)) {
        (Some(x), Some(y)) => 16 * x + y,
        _ => if a == '+' {
            match hex_value(b) {
                Some(y) => y,
                None => 0,
            }
        } else {
            0
        },
    }
}

/// Reads a colour code such as `"#2d5e1e"` into its red, green and blue bytes.
pub fn hex_rgb(s: &str) -> (r: (u8, u8, u8))
    requires
        rgb_code_readable(s@),
    ensures
        r == rgb_code(s@),
{
    let n = s.unicode_len();
    let mut k: usize = 0;
    while k < n && s.get_char(k) == '#'
        invariant
            n == s@.len(),
            k <= n,
            forall|j: int| 0 <= j < k ==> s@[j] == '#',
        decreases n - k,
    {
        k = k + 1;
    }
    proof {
        assert(hash_prefix(s@, k as int));
        let c = choose|c: int| hash_prefix(s@, c);
        if c < k {
            assert(s@[c] == '#');
        } else if c > k {
            assert(s@[k as int] == '#');
        }
        assert(c == k);
    }
    let red = hex_field(s.get_char(k), s.get_char(k + 1));
    let green = hex_field(s.get_char(k + 2), s.get_char(k + 3));
    let blue = hex_field(s.get_char(k + 4), s.get_char(k + 5));
    (red, green, blue)
}

} // verus!
