//! Small helpers for front-ends built on the library.

use vstd::prelude::*;
use vstd::string::StringSliceAdditionalSpecFns;

verus! {

/// ASCII lower-casing of one byte.
pub open spec fn spec_lower_ascii(b: u8) -> u8 {
    if 0x41 <= b && b <= 0x5a {
        (b + 0x20) as u8
    } else {
        b
    }
}

/// Whether the bytes spell one of the accepted truthy words —
/// `true`, `t`, `1`, `one`, `yes`, `y` — ASCII case-insensitively.
pub open spec fn spec_truthy(s: Seq<u8>) -> bool {
    ||| (s.len() == 1 && (spec_lower_ascii(s[0]) == 0x74 || s[0] == 0x31 || spec_lower_ascii(s[0])
        == 0x79))
    ||| (s.len() == 3 && spec_lower_ascii(s[0]) == 0x6f && spec_lower_ascii(s[1]) == 0x6e
        && spec_lower_ascii(s[2]) == 0x65)
    ||| (s.len() == 3 && spec_lower_ascii(s[0]) == 0x79 && spec_lower_ascii(s[1]) == 0x65
        && spec_lower_ascii(s[2]) == 0x73)
    ||| (s.len() == 4 && spec_lower_ascii(s[0]) == 0x74 && spec_lower_ascii(s[1]) == 0x72
        && spec_lower_ascii(s[2]) == 0x75 && spec_lower_ascii(s[3]) == 0x65)
}

/// Lower-case one ASCII byte.
fn lower_ascii(b: u8) -> (r: u8)
    ensures
        r == spec_lower_ascii(b),
{
    if 0x41 <= b && b <= 0x5a {
        b + 0x20
    } else {
        b
    }
}

/// Read a command-line flag value as a boolean: `true`, `t`, `1`,
/// `one`, `yes` and `y` are true, compared ASCII case-insensitively;
/// everything else is false.
pub fn str_to_bool(value: &str) -> (r: bool)
    ensures
        r == spec_truthy(value.spec_bytes()),
{
    let bytes = value.as_bytes();
    if bytes.len() == 1 {
        let c = lower_ascii(bytes[0]);
        c == 0x74 || bytes[0] == 0x31 || c == 0x79
    } else if bytes.len() == 3 {
        let a = lower_ascii(bytes[0]);
        let b = lower_ascii(bytes[1]);
        let c = lower_ascii(bytes[2]);
        (a == 0x6f && b == 0x6e && c == 0x65) || (a == 0x79 && b == 0x65 && c == 0x73)
    } else if bytes.len() == 4 {
        let a = lower_ascii(bytes[0]);
        let b = lower_ascii(bytes[1]);
        let c = lower_ascii(bytes[2]);
        let d = lower_ascii(bytes[3]);
        a == 0x74 && b == 0x72 && c == 0x75 && d == 0x65
    } else {
        false
    }
}

} // verus!
