use vstd::prelude::*;

verus! {

/// The value of digit `c` in base `radix`: `0`-`9`, then `a`-`z` or `A`-`Z` from 10.
pub open spec fn digit_of(c: char, radix: u32) -> Option<nat> {
    let u = c as u32;
    let d: int = if 48 <= u <= 57 {
        u - 48
    } else if 97 <= u <= 122 {
        u - 97 + 10
    } else if 65 <= u <= 90 {
        u - 65 + 10
    } else {
        radix as int
    };
    if d < radix {
        Some(d as nat)
    } else {
        None
    }
}

/// The value of a string of digits in base `radix`; `None` if one is not a digit.
pub open spec fn digits_value(s: Seq<char>, radix: u32) -> Option<nat>
    decreases s.len(),
{
    if s.len() == 0 {
        Some(0)
    } else {
        match (digits_value(s.drop_last(), radix), digit_of(s.last(), radix)) {
            (Some(v), Some(d)) => Some((v * radix + d) as nat),
            _ => None,
        }
    }
}

/// An unsigned number in base `radix`: an optional `+`, then at least one
/// digit, with a value that fits a `u64`.
pub open spec fn u64_from_digits(s: Seq<char>, radix: u32) -> Option<u64> {
    let body = if s.len() > 0 && s[0] == '+' {
        s.drop_first()
    } else {
        s
    };
    if body.len() == 0 {
        None
    } else {
        match digits_value(body, radix) {
            Some(v) => if v <= u64::MAX {
                Some(v as u64)
            } else {
                None
            },
            None => None,
        }
    }
}

/// Relies on `u64::from_str_radix`: it accepts exactly an optional `+` and one
/// or more digits of the radix whose value fits, and gives that value; the
/// error is its message.
#[verifier::external_body]
pub(crate) fn u64_from_str_radix(s: &str, radix: u32) -> (r: Result<u64, String>)
    requires
        2 <= radix <= 36,
    ensures
        r is Ok <==> u64_from_digits(s@, radix) is Some,
        r matches Ok(v) ==> u64_from_digits(s@, radix) == Some(v),
{
    u64::from_str_radix(s, radix).map_err(|e| e.to_string())
}

/// Relies on `str::strip_prefix`: the rest of `s` after `prefix`, when `s`
/// starts with it.
#[verifier::external_body]
fn strip_prefix<'a>(s: &'a str, prefix: &str) -> (r: Option<&'a str>)
    ensures
        r is Some <==> (prefix@.len() <= s@.len() && s@.take(prefix@.len() as int) == prefix@),
        r matches Some(t) ==> t@ == s@.skip(prefix@.len() as int),
{
    s.strip_prefix(prefix)
}

pub open spec fn has_hex_marker(s: Seq<char>) -> bool {
    s.len() >= 2 && s[0] == '0' && (s[1] == 'x' || s[1] == 'X')
}

/// An offset as a user writes it: hexadecimal after `0x` or `0X`, decimal otherwise.
pub open spec fn offset_value(s: Seq<char>) -> Option<u64> {
    if has_hex_marker(s) {
        u64_from_digits(s.skip(2), 16)
    } else {
        u64_from_digits(s, 10)
    }
}

/// Parses an offset given by a user: `0x`/`0X` and hex digits, or decimal
/// digits; the error is the parser's message.
pub fn parse_offset(s: &str) -> (r: Result<u64, String>)
    ensures
        r is Ok <==> offset_value(s@) is Some,
        r matches Ok(v) ==> offset_value(s@) == Some(v),
{
    proof {
        reveal_strlit("0x");
        reveal_strlit("0X");
        assert("0x"@ =~= seq!['0', 'x']);
        assert("0X"@ =~= seq!['0', 'X']);
        if has_hex_marker(s@) {
            if s@[1] == 'x' {
                assert(s@.take(2) =~= "0x"@);
            } else {
                assert(s@.take(2) =~= "0X"@);
            }
        }
    }
    if let Some(h) = strip_prefix(s, "0x") {
        assert(s@.take(2)[1] == 'x');
        return u64_from_str_radix(h, 16);
    }
    if let Some(h) = strip_prefix(s, "0X") {
        assert(s@.take(2)[1] == 'X');
        return u64_from_str_radix(h, 16);
    }
    u64_from_str_radix(s, 10)
}

} // verus!
