//! Report bodies: the JSON payloads that the reporters transmit.
//!
//! The schema is fixed, so the bodies are framed here as UTF-8 bytes with an
//! exact specification: a keypress report `{"password":…,"keypress":…}` and
//! a mouse report `{"password":…,"rightClick":…,"leftClick":…,"mouseTravel":…}`.
//! The credential is embedded as a JSON string with full escaping; the
//! counter values as decimal JSON numbers. The mouse-travel value is a
//! floating-point quantity, so its decimal rendering is supplied by the
//! caller and spliced in unchanged.

use vstd::prelude::*;

verus! {

/// The ASCII decimal digit for a value below ten.
pub open spec fn dec_digit(n: nat) -> u8
    recommends
        n < 10,
{
    (0x30 + n) as u8
}

/// The ASCII decimal representation of `n`, most significant digit first,
/// with no leading zeros (zero itself is a single `0`).
pub open spec fn dec_digits(n: nat) -> Seq<u8>
    decreases n,
{
    if n < 10 {
        seq![dec_digit(n)]
    } else {
        dec_digits(n / 10) + seq![dec_digit(n % 10)]
    }
}

/// The lowercase ASCII hexadecimal digit for a value below sixteen.
pub open spec fn hex_digit(n: u8) -> u8
    recommends
        n < 16,
{
    if n < 10 {
        (0x30 + n) as u8
    } else {
        (0x61 + n - 10) as u8
    }
}

/// The JSON escape of one byte of a UTF-8 string: quote (0x22) and
/// backslash (0x5c) get a backslash escape, control bytes below 0x20 a
/// `\u00XX` escape, and every other byte — including every byte of a
/// multi-byte UTF-8 sequence, all of which are at least 0x80 — stands
/// unchanged.
pub open spec fn escaped_byte(b: u8) -> Seq<u8> {
    if b == 0x22 {
        seq![0x5cu8, 0x22u8]
    } else if b == 0x5c {
        seq![0x5cu8, 0x5cu8]
    } else if b < 0x20 {
        seq![0x5cu8, 0x75u8, 0x30u8, 0x30u8, hex_digit(b / 16), hex_digit(b % 16)]
    } else {
        seq![b]
    }
}

/// The JSON escape of a whole UTF-8 string, byte by byte.
pub open spec fn json_escaped(s: Seq<u8>) -> Seq<u8>
    decreases s.len(),
{
    if s.len() == 0 {
        Seq::<u8>::empty()
    } else {
        json_escaped(s.drop_last()) + escaped_byte(s.last())
    }
}

/// The opening of every report body: `{"password":"`.
pub open spec fn password_prefix() -> Seq<u8> {
    seq![0x7bu8, 0x22u8, 0x70u8, 0x61u8, 0x73u8, 0x73u8, 0x77u8, 0x6fu8, 0x72u8, 0x64u8, 0x22u8, 0x3au8, 0x22u8]
}

/// The closing quote of the credential followed by the keypress key:
/// `","keypress":`.
pub open spec fn keypress_mid() -> Seq<u8> {
    seq![0x22u8, 0x2cu8, 0x22u8, 0x6bu8, 0x65u8, 0x79u8, 0x70u8, 0x72u8, 0x65u8, 0x73u8, 0x73u8, 0x22u8, 0x3au8]
}

/// The closing quote of the credential followed by the right-click key:
/// `","rightClick":`.
pub open spec fn right_click_mid() -> Seq<u8> {
    seq![0x22u8, 0x2cu8, 0x22u8, 0x72u8, 0x69u8, 0x67u8, 0x68u8, 0x74u8, 0x43u8, 0x6cu8, 0x69u8, 0x63u8, 0x6bu8, 0x22u8, 0x3au8]
}

/// The left-click key between two numbers: `,"leftClick":`.
pub open spec fn left_click_mid() -> Seq<u8> {
    seq![0x2cu8, 0x22u8, 0x6cu8, 0x65u8, 0x66u8, 0x74u8, 0x43u8, 0x6cu8, 0x69u8, 0x63u8, 0x6bu8, 0x22u8, 0x3au8]
}

/// The mouse-travel key between two numbers: `,"mouseTravel":`.
pub open spec fn mouse_travel_mid() -> Seq<u8> {
    seq![0x2cu8, 0x22u8, 0x6du8, 0x6fu8, 0x75u8, 0x73u8, 0x65u8, 0x54u8, 0x72u8, 0x61u8, 0x76u8, 0x65u8, 0x6cu8, 0x22u8, 0x3au8]
}

/// An ASCII decimal digit byte.
pub open spec fn is_digit_byte(b: u8) -> bool {
    0x30 <= b && b <= 0x39
}

/// The index of the first non-digit byte of `s` at or after `i`.
pub open spec fn digits_end(s: Seq<u8>, i: int) -> int
    recommends
        0 <= i <= s.len(),
    decreases s.len() - i
        when 0 <= i <= s.len()
{
    if i < s.len() && is_digit_byte(s[i]) {
        digits_end(s, i + 1)
    } else {
        i
    }
}

/// The end of the optional fraction part starting at `i`: `i` itself when
/// no fraction starts there, the index past its digits when a well-formed
/// one does, and -1 when a dot is not followed by a digit.
pub open spec fn frac_end(s: Seq<u8>, i: int) -> int
    recommends
        0 <= i <= s.len(),
{
    if i < s.len() && s[i] == 0x2e {
        if digits_end(s, i + 1) > i + 1 {
            digits_end(s, i + 1)
        } else {
            -1
        }
    } else {
        i
    }
}

/// The end of the optional exponent part starting at `i`: `i` itself when
/// no exponent starts there, the index past its digits when a well-formed
/// one does, and -1 when an `e` or `E` lacks the digits.
pub open spec fn exp_end(s: Seq<u8>, i: int) -> int
    recommends
        0 <= i <= s.len(),
{
    if i < s.len() && (s[i] == 0x65 || s[i] == 0x45) {
        let digits_from = if i + 1 < s.len() && (s[i + 1] == 0x2b || s[i + 1] == 0x2d) {
            i + 2
        } else {
            i + 1
        };
        if digits_end(s, digits_from) > digits_from {
            digits_end(s, digits_from)
        } else {
            -1
        }
    } else {
        i
    }
}

/// Whether `s` is one well-formed JSON number: an optional minus sign, an
/// integer part without leading zeros, an optional fraction and an optional
/// exponent, with nothing before or after.
pub open spec fn is_json_number(s: Seq<u8>) -> bool {
    let int_from: int = if s.len() > 0 && s[0] == 0x2d {
        1
    } else {
        0
    };
    let int_to = digits_end(s, int_from);
    if int_to > int_from && (s[int_from] == 0x30 ==> int_to == int_from + 1) {
        let frac_to = frac_end(s, int_to);
        if frac_to >= 0 {
            exp_end(s, frac_to) == s.len()
        } else {
            false
        }
    } else {
        false
    }
}

/// The whole keypress report body:
/// `{"password":"…","keypress":N}`.
pub open spec fn spec_keypress_body(password: Seq<u8>, keypress: nat) -> Seq<u8> {
    password_prefix() + json_escaped(password) + keypress_mid() + dec_digits(keypress) + seq![
        0x7du8,
    ]
}

/// The whole mouse report body:
/// `{"password":"…","rightClick":N,"leftClick":N,"mouseTravel":T}`,
/// where `T` is the caller-supplied rendering of the travel in meters.
pub open spec fn spec_mouse_body(
    password: Seq<u8>,
    right_click: nat,
    left_click: nat,
    mouse_travel: Seq<u8>,
) -> Seq<u8> {
    password_prefix() + json_escaped(password) + right_click_mid() + dec_digits(right_click)
        + left_click_mid() + dec_digits(left_click) + mouse_travel_mid() + mouse_travel + seq![
        0x7du8,
    ]
}

/// The lowercase hexadecimal digit for a value below sixteen.
fn hex_digit_exec(n: u8) -> (d: u8)
    requires
        n < 16,
    ensures
        d == hex_digit(n),
{
    if n < 10 {
        0x30 + n
    } else {
        0x61 + (n - 10)
    }
}

/// Append the ASCII decimal representation of `n` to `out`.
fn append_decimal(out: &mut Vec<u8>, n: u64)
    ensures
        final(out)@ == old(out)@ + dec_digits(n as nat),
    decreases n,
{
    if n >= 10 {
        append_decimal(out, n / 10);
    }
    let d: u8 = 0x30 + (n % 10) as u8;
    out.push(d);
    proof {
        assert(final(out)@ =~= old(out)@ + dec_digits(n as nat));
    }
}

/// Append the JSON escape of every byte of `s` to `out`.
fn append_json_escaped(out: &mut Vec<u8>, s: &[u8])
    ensures
        final(out)@ == old(out)@ + json_escaped(s@),
{
    let mut i: usize = 0;
    while i < s.len()
        invariant
            i <= s@.len(),
            out@ == old(out)@ + json_escaped(s@.take(i as int)),
        decreases s@.len() - i,
    {
        let b = s[i];
        proof {
            assert(s@.take(i + 1 as int).drop_last() =~= s@.take(i as int));
            assert(s@.take(i + 1 as int).last() == b);
        }
        if b == 0x22 {
            out.push(0x5c);
            out.push(0x22);
        } else if b == 0x5c {
            out.push(0x5c);
            out.push(0x5c);
        } else if b < 0x20 {
            out.push(0x5c);
            out.push(0x75);
            out.push(0x30);
            out.push(0x30);
            out.push(hex_digit_exec(b / 16));
            out.push(hex_digit_exec(b % 16));
        } else {
            out.push(b);
        }
        proof {
            assert(out@ =~= old(out)@ + json_escaped(s@.take(i + 1 as int)));
        }
        i = i + 1;
    }
    proof {
        assert(s@.take(s@.len() as int) =~= s@);
    }
}

/// Append the opening of a report body, `{"password":"`, to `out`.
fn append_password_prefix(out: &mut Vec<u8>)
    ensures
        final(out)@ == old(out)@ + password_prefix(),
{
    out.push(0x7b);
    out.push(0x22);
    out.push(0x70);
    out.push(0x61);
    out.push(0x73);
    out.push(0x73);
    out.push(0x77);
    out.push(0x6f);
    out.push(0x72);
    out.push(0x64);
    out.push(0x22);
    out.push(0x3a);
    out.push(0x22);
    proof {
        assert(final(out)@ =~= old(out)@ + password_prefix());
    }
}

/// Append `","keypress":` to `out`.
fn append_keypress_mid(out: &mut Vec<u8>)
    ensures
        final(out)@ == old(out)@ + keypress_mid(),
{
    out.push(0x22);
    out.push(0x2c);
    out.push(0x22);
    out.push(0x6b);
    out.push(0x65);
    out.push(0x79);
    out.push(0x70);
    out.push(0x72);
    out.push(0x65);
    out.push(0x73);
    out.push(0x73);
    out.push(0x22);
    out.push(0x3a);
    proof {
        assert(final(out)@ =~= old(out)@ + keypress_mid());
    }
}

/// Append `","rightClick":` to `out`.
fn append_right_click_mid(out: &mut Vec<u8>)
    ensures
        final(out)@ == old(out)@ + right_click_mid(),
{
    out.push(0x22);
    out.push(0x2c);
    out.push(0x22);
    out.push(0x72);
    out.push(0x69);
    out.push(0x67);
    out.push(0x68);
    out.push(0x74);
    out.push(0x43);
    out.push(0x6c);
    out.push(0x69);
    out.push(0x63);
    out.push(0x6b);
    out.push(0x22);
    out.push(0x3a);
    proof {
        assert(final(out)@ =~= old(out)@ + right_click_mid());
    }
}

/// Append `,"leftClick":` to `out`.
fn append_left_click_mid(out: &mut Vec<u8>)
    ensures
        final(out)@ == old(out)@ + left_click_mid(),
{
    out.push(0x2c);
    out.push(0x22);
    out.push(0x6c);
    out.push(0x65);
    out.push(0x66);
    out.push(0x74);
    out.push(0x43);
    out.push(0x6c);
    out.push(0x69);
    out.push(0x63);
    out.push(0x6b);
    out.push(0x22);
    out.push(0x3a);
    proof {
        assert(final(out)@ =~= old(out)@ + left_click_mid());
    }
}

/// Append `,"mouseTravel":` to `out`.
fn append_mouse_travel_mid(out: &mut Vec<u8>)
    ensures
        final(out)@ == old(out)@ + mouse_travel_mid(),
{
    out.push(0x2c);
    out.push(0x22);
    out.push(0x6d);
    out.push(0x6f);
    out.push(0x75);
    out.push(0x73);
    out.push(0x65);
    out.push(0x54);
    out.push(0x72);
    out.push(0x61);
    out.push(0x76);
    out.push(0x65);
    out.push(0x6c);
    out.push(0x22);
    out.push(0x3a);
    proof {
        assert(final(out)@ =~= old(out)@ + mouse_travel_mid());
    }
}

/// Append the bytes of `s` to `out` unchanged.
fn append_bytes(out: &mut Vec<u8>, s: &[u8])
    ensures
        final(out)@ == old(out)@ + s@,
{
    let mut i: usize = 0;
    while i < s.len()
        invariant
            i <= s@.len(),
            out@ == old(out)@ + s@.take(i as int),
        decreases s@.len() - i,
    {
        out.push(s[i]);
        proof {
            assert(out@ =~= old(out)@ + s@.take(i + 1 as int));
        }
        i = i + 1;
    }
    proof {
        assert(s@.take(s@.len() as int) =~= s@);
    }
}

/// The first non-digit index of `digits_end`, executably.
fn digits_end_exec(s: &[u8], i: usize) -> (r: usize)
    requires
        i <= s@.len(),
    ensures
        r == digits_end(s@, i as int),
        i <= r <= s@.len(),
    decreases s@.len() - i,
{
    if i < s.len() {
        let b = s[i];
        if 0x30 <= b && b <= 0x39 {
            return digits_end_exec(s, i + 1);
        }
    }
    i
}

/// Decide whether `s` is one well-formed JSON number, so that a caller can
/// establish what `mouse_body` requires of the travel rendering.
pub fn check_json_number(s: &[u8]) -> (ok: bool)
    ensures
        ok == is_json_number(s@),
{
    let n = s.len();
    let int_from: usize = if n > 0 && s[0] == 0x2d {
        1
    } else {
        0
    };
    let int_to = digits_end_exec(s, int_from);
    if int_to == int_from {
        return false;
    }
    if s[int_from] == 0x30 && int_to != int_from + 1 {
        return false;
    }
    let mut rest = int_to;
    if rest < n && s[rest] == 0x2e {
        let frac_to = digits_end_exec(s, rest + 1);
        if frac_to == rest + 1 {
            return false;
        }
        rest = frac_to;
    }
    if rest < n && (s[rest] == 0x65 || s[rest] == 0x45) {
        let digits_from: usize = if rest + 1 < n && (s[rest + 1] == 0x2b || s[rest + 1] == 0x2d) {
            rest + 2
        } else {
            rest + 1
        };
        let exp_to = digits_end_exec(s, digits_from);
        if exp_to == digits_from {
            return false;
        }
        rest = exp_to;
    }
    rest == n
}

/// Build the JSON body of a keypress report,
/// `{"password":"…","keypress":N}`, for the given credential and count.
pub fn keypress_body(password: &[u8], keypress: u64) -> (body: Vec<u8>)
    ensures
        body@ == spec_keypress_body(password@, keypress as nat),
{
    let mut out: Vec<u8> = Vec::new();
    append_password_prefix(&mut out);
    append_json_escaped(&mut out, password);
    append_keypress_mid(&mut out);
    append_decimal(&mut out, keypress);
    out.push(0x7d);
    proof {
        assert(out@ =~= spec_keypress_body(password@, keypress as nat));
    }
    out
}

/// Build the JSON body of a mouse report,
/// `{"password":"…","rightClick":N,"leftClick":N,"mouseTravel":T}`.
/// `mouse_travel` is the decimal rendering of the travel in meters, a
/// floating-point quantity whose formatting is the caller's; it is spliced
/// in unchanged, and must be one well-formed JSON number so that the body
/// stays well-formed JSON (`check_json_number` decides this executably).
pub fn mouse_body(
    password: &[u8],
    right_click: u64,
    left_click: u64,
    mouse_travel: &[u8],
) -> (body: Vec<u8>)
    requires
        is_json_number(mouse_travel@),
    ensures
        body@ == spec_mouse_body(
            password@,
            right_click as nat,
            left_click as nat,
            mouse_travel@,
        ),
{
    let mut out: Vec<u8> = Vec::new();
    append_password_prefix(&mut out);
    append_json_escaped(&mut out, password);
    append_right_click_mid(&mut out);
    append_decimal(&mut out, right_click);
    append_left_click_mid(&mut out);
    append_decimal(&mut out, left_click);
    append_mouse_travel_mid(&mut out);
    append_bytes(&mut out, mouse_travel);
    out.push(0x7d);
    proof {
        assert(out@ =~= spec_mouse_body(
            password@,
            right_click as nat,
            left_click as nat,
            mouse_travel@,
        ));
    }
    out
}

} // verus!
