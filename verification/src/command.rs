//! The command parser: one line of raw bytes becomes a typed command, or
//! nothing.  Malformed input is dropped silently; it is an expected,
//! recoverable event on a live serial link.

use vstd::prelude::*;

use crate::trim::{is_ascii_ws, is_ws_byte, run_len, lemma_run_len_unique, trim_spec,
    trim_ascii_whitespace};

verus! {

/// The closed set of actuators a command can address.
#[derive(Clone, Copy, Debug, PartialEq, Eq, Structural)]
pub enum Servo {
    Thumb,
    Arm,
    Fingers,
}

/// A validated move request: which servo, and how many degrees.
#[derive(Clone, Copy, Debug, PartialEq, Eq, Structural)]
pub struct ServoMoveRequest {
    pub servo: Servo,
    pub degrees: u8,
}

/// What one line of input asks for: a move, a reset into programming mode,
/// or nothing at all.
#[derive(Clone, Copy, Debug, PartialEq, Eq, Structural)]
pub enum Command {
    Move(ServoMoveRequest),
    Reset,
    Ignore,
}

/// Whether a byte sequence is valid UTF-8.  The encoding rules take pages
/// to state, so the predicate is left abstract and pinned to
/// `core::str::from_utf8` by `utf8_check` below.
pub uninterp spec fn utf8_ok(s: Seq<u8>) -> bool;

/// Relies on core::str::from_utf8: it returns `Ok` exactly on valid UTF-8,
/// and ASCII-only input is always valid UTF-8.
#[verifier::external_body]
fn utf8_check(b: &[u8]) -> (r: bool)
    ensures
        r == utf8_ok(b@),
        (forall|i: int| 0 <= i < b@.len() ==> b@[i] < 128) ==> r,
{
    core::str::from_utf8(b).is_ok()
}

/// An upper-case ASCII letter folded to lower case; every other byte is
/// unchanged.
pub open spec fn lower(b: u8) -> u8 {
    if 65 <= b <= 90 {
        (b + 32) as u8
    } else {
        b
    }
}

/// Byte sequences equal up to ASCII case.
pub open spec fn eq_ignore_ascii_case(a: Seq<u8>, b: Seq<u8>) -> bool {
    a.len() == b.len() && forall|i: int| 0 <= i < a.len() ==> lower(a[i]) == lower(b[i])
}

/// The keyword `q`.
pub open spec fn q_token() -> Seq<u8> {
    seq![113u8]
}

/// The keyword `elf2uf2-term`.
pub open spec fn elf2uf2_token() -> Seq<u8> {
    seq![101u8, 108u8, 102u8, 50u8, 117u8, 102u8, 50u8, 45u8, 116u8, 101u8, 114u8, 109u8]
}

/// The keyword `arm`.
pub open spec fn arm_keyword() -> Seq<u8> {
    seq![97u8, 114u8, 109u8]
}

/// The keyword `thumb`.
pub open spec fn thumb_keyword() -> Seq<u8> {
    seq![116u8, 104u8, 117u8, 109u8, 98u8]
}

/// The keyword `fingers`.
pub open spec fn fingers_keyword() -> Seq<u8> {
    seq![102u8, 105u8, 110u8, 103u8, 101u8, 114u8, 115u8]
}

/// A trimmed line that requests a reset, compared without regard to ASCII
/// case.
pub open spec fn is_reset_token(t: Seq<u8>) -> bool {
    eq_ignore_ascii_case(t, q_token()) || eq_ignore_ascii_case(t, elf2uf2_token())
}

/// Whether `t` begins with the bytes of `p`.
pub open spec fn spec_starts_with(t: Seq<u8>, p: Seq<u8>) -> bool {
    t.len() >= p.len() && t.subrange(0, p.len() as int) == p
}

/// End of the first whitespace-separated token of `t`.
pub open spec fn tok1_end(t: Seq<u8>) -> int {
    run_len(t, false) as int
}

/// Start of the second whitespace-separated token of `t`.
pub open spec fn tok2_start(t: Seq<u8>) -> int {
    tok1_end(t) + run_len(t.skip(tok1_end(t)), true)
}

/// End of the second whitespace-separated token of `t`.
pub open spec fn tok2_end(t: Seq<u8>) -> int {
    tok2_start(t) + run_len(t.skip(tok2_start(t)), false)
}

/// The second whitespace-separated token of `t`; empty when there is none.
pub open spec fn second_token(t: Seq<u8>) -> Seq<u8> {
    t.subrange(tok2_start(t), tok2_end(t))
}

/// Whether `b` is an ASCII decimal digit.
pub open spec fn is_dec_digit(b: u8) -> bool {
    48 <= b <= 57
}

/// Every byte of `s` is an ASCII decimal digit.
pub open spec fn all_dec_digits(s: Seq<u8>) -> bool {
    forall|i: int| 0 <= i < s.len() ==> is_dec_digit(s[i])
}

/// The value of a string of decimal digits.
pub open spec fn dec_val(s: Seq<u8>) -> nat
    decreases s.len(),
{
    if s.len() == 0 {
        0
    } else {
        dec_val(s.drop_last()) * 10 + (s.last() - 48) as nat
    }
}

/// The unsigned 8-bit value a token denotes, exactly as `u8::from_str`
/// reads it: an optional leading `+`, then one or more decimal digits,
/// value at most 255; anything else is rejected.
pub open spec fn parse_u8_spec(s: Seq<u8>) -> Option<u8> {
    let d = if s.len() > 0 && s[0] == 43 {
        s.skip(1)
    } else {
        s
    };
    if d.len() > 0 && all_dec_digits(d) && dec_val(d) <= 255 {
        Some(dec_val(d) as u8)
    } else {
        None
    }
}

/// A move command for `servo` when the second token of `t` denotes an
/// 8-bit value; otherwise nothing.
pub open spec fn spec_move(t: Seq<u8>, servo: Servo) -> Command {
    match parse_u8_spec(second_token(t)) {
        Some(d) => Command::Move(ServoMoveRequest { servo, degrees: d }),
        None => Command::Ignore,
    }
}

/// What one raw line means.  The line is trimmed of ASCII whitespace;
/// invalid UTF-8 is dropped; a reset token (case-insensitive) requests a
/// reset; otherwise the line must start with one of the servo keywords
/// (case-sensitive, checked as a plain prefix) and carry a decimal 8-bit
/// degree value as its second token.
pub open spec fn spec_parse(line: Seq<u8>) -> Command {
    let t = trim_spec(line);
    if !utf8_ok(t) {
        Command::Ignore
    } else if is_reset_token(t) {
        Command::Reset
    } else if spec_starts_with(t, arm_keyword()) {
        spec_move(t, Servo::Arm)
    } else if spec_starts_with(t, thumb_keyword()) {
        spec_move(t, Servo::Thumb)
    } else if spec_starts_with(t, fingers_keyword()) {
        spec_move(t, Servo::Fingers)
    } else {
        Command::Ignore
    }
}

/// Extending a digit string can only grow its value.
proof fn lemma_dec_val_prefix(s: Seq<u8>, m: int)
    requires
        0 <= m <= s.len(),
    ensures
        dec_val(s) >= dec_val(s.subrange(0, m)),
    decreases s.len() - m,
{
    if m < s.len() {
        assert(s.subrange(0, m + 1).drop_last() =~= s.subrange(0, m));
        assert(dec_val(s.subrange(0, m + 1)) == dec_val(s.subrange(0, m)) * 10 + (s.subrange(
            0,
            m + 1,
        ).last() - 48) as nat);
        assert(dec_val(s.subrange(0, m)) * 10 >= dec_val(s.subrange(0, m)));
        lemma_dec_val_prefix(s, m + 1);
        assert(s.subrange(0, s.len() as int) =~= s);
    } else {
        assert(s.subrange(0, s.len() as int) =~= s);
    }
}

/// Folding to lower case.
fn lower_byte(b: u8) -> (r: u8)
    ensures
        r == lower(b),
{
    if 65 <= b && b <= 90 {
        b + 32
    } else {
        b
    }
}

/// Whether the trimmed line is one of the two reset tokens, without regard
/// to ASCII case.
fn is_reset_line(t: &[u8]) -> (r: bool)
    ensures
        r == is_reset_token(t@),
{
    if t.len() == 1 {
        let r = lower_byte(t[0]) == 113;
        assert(r == is_reset_token(t@));
        r
    } else if t.len() == 12 {
        let r = lower_byte(t[0]) == 101 && lower_byte(t[1]) == 108 && lower_byte(t[2]) == 102
            && lower_byte(t[3]) == 50 && lower_byte(t[4]) == 117 && lower_byte(t[5]) == 102
            && lower_byte(t[6]) == 50 && lower_byte(t[7]) == 45 && lower_byte(t[8]) == 116
            && lower_byte(t[9]) == 101 && lower_byte(t[10]) == 114 && lower_byte(t[11]) == 109;
        proof {
            if r {
                assert forall|i: int| 0 <= i < 12 implies lower(t@[i]) == lower(
                    elf2uf2_token()[i],
                ) by {}
            }
            if eq_ignore_ascii_case(t@, elf2uf2_token()) {
                assert(lower(t@[0]) == lower(elf2uf2_token()[0]));
                assert(lower(t@[1]) == lower(elf2uf2_token()[1]));
                assert(lower(t@[2]) == lower(elf2uf2_token()[2]));
                assert(lower(t@[3]) == lower(elf2uf2_token()[3]));
                assert(lower(t@[4]) == lower(elf2uf2_token()[4]));
                assert(lower(t@[5]) == lower(elf2uf2_token()[5]));
                assert(lower(t@[6]) == lower(elf2uf2_token()[6]));
                assert(lower(t@[7]) == lower(elf2uf2_token()[7]));
                assert(lower(t@[8]) == lower(elf2uf2_token()[8]));
                assert(lower(t@[9]) == lower(elf2uf2_token()[9]));
                assert(lower(t@[10]) == lower(elf2uf2_token()[10]));
                assert(lower(t@[11]) == lower(elf2uf2_token()[11]));
            }
        }
        r
    } else {
        false
    }
}

/// Whether `t` starts with the three bytes of `arm`.
fn starts_with_arm(t: &[u8]) -> (r: bool)
    ensures
        r == spec_starts_with(t@, arm_keyword()),
{
    let r = t.len() >= 3 && t[0] == 97 && t[1] == 114 && t[2] == 109;
    proof {
        if r {
            assert(t@.subrange(0, 3) =~= arm_keyword());
        } else if spec_starts_with(t@, arm_keyword()) {
            assert(t@[0] == t@.subrange(0, 3)[0]);
            assert(t@[1] == t@.subrange(0, 3)[1]);
            assert(t@[2] == t@.subrange(0, 3)[2]);
        }
    }
    r
}

/// Whether `t` starts with the five bytes of `thumb`.
fn starts_with_thumb(t: &[u8]) -> (r: bool)
    ensures
        r == spec_starts_with(t@, thumb_keyword()),
{
    let r = t.len() >= 5 && t[0] == 116 && t[1] == 104 && t[2] == 117 && t[3] == 109 && t[4]
        == 98;
    proof {
        if r {
            assert(t@.subrange(0, 5) =~= thumb_keyword());
        } else if spec_starts_with(t@, thumb_keyword()) {
            assert forall|i: int| 0 <= i < 5 implies t@[i] == thumb_keyword()[i] by {
                assert(t@[i] == t@.subrange(0, 5)[i]);
            }
        }
    }
    r
}

/// Whether `t` starts with the seven bytes of `fingers`.
fn starts_with_fingers(t: &[u8]) -> (r: bool)
    ensures
        r == spec_starts_with(t@, fingers_keyword()),
{
    let r = t.len() >= 7 && t[0] == 102 && t[1] == 105 && t[2] == 110 && t[3] == 103 && t[4]
        == 101 && t[5] == 114 && t[6] == 115;
    proof {
        if r {
            assert(t@.subrange(0, 7) =~= fingers_keyword());
        } else if spec_starts_with(t@, fingers_keyword()) {
            assert forall|i: int| 0 <= i < 7 implies t@[i] == fingers_keyword()[i] by {
                assert(t@[i] == t@.subrange(0, 7)[i]);
            }
        }
    }
    r
}

/// Reads an unsigned 8-bit decimal value from a whole token, as
/// `u8::from_str` would: optional `+`, then digits, at most 255.
fn parse_u8_ascii(tok: &[u8]) -> (r: Option<u8>)
    ensures
        r == parse_u8_spec(tok@),
{
    let n = tok.len();
    let mut i: usize = 0;
    if n > 0 && tok[0] == 43 {
        i = 1;
    }
    let ghost d: Seq<u8> = if tok@.len() > 0 && tok@[0] == 43 {
        tok@.skip(1)
    } else {
        tok@
    };
    let ghost off = i as int;
    if i == n {
        assert(d.len() == 0);
        return None;
    }
    let mut acc: u32 = 0;
    let mut j: usize = i;
    while j < n
        invariant
            0 <= off <= i <= j <= n,
            n == tok@.len(),
            d =~= tok@.skip(off),
            d == (if tok@.len() > 0 && tok@[0] == 43 {
                tok@.skip(1)
            } else {
                tok@
            }),
            off == i,
            acc <= 255,
            acc == dec_val(tok@.subrange(off, j as int)),
            forall|k: int| off <= k < j ==> is_dec_digit(tok@[k]),
        decreases n - j,
    {
        let b = tok[j];
        if b < 48 || b > 57 {
            assert(!is_dec_digit(d[j - off])) by {
                assert(d[j - off] == tok@[j as int]);
            }
            assert(parse_u8_spec(tok@) is None);
            return None;
        }
        let next: u32 = acc * 10 + (b - 48) as u32;
        proof {
            assert(tok@.subrange(off, j + 1).drop_last() =~= tok@.subrange(off, j as int));
            assert(dec_val(tok@.subrange(off, j + 1)) == dec_val(tok@.subrange(off, j as int))
                * 10 + (tok@[j as int] - 48) as nat);
        }
        if next > 255 {
            proof {
                if all_dec_digits(d) {
                    lemma_dec_val_prefix(d, j + 1 - off);
                    assert(d.subrange(0, j + 1 - off) =~= tok@.subrange(off, j + 1));
                    assert(dec_val(d) > 255);
                }
            }
            assert(parse_u8_spec(tok@) is None);
            return None;
        }
        acc = next;
        j = j + 1;
    }
    proof {
        assert(d =~= tok@.subrange(off, n as int));
        assert(all_dec_digits(d)) by {
            assert forall|k: int| 0 <= k < d.len() implies is_dec_digit(d[k]) by {
                assert(d[k] == tok@[k + off]);
            }
        }
        assert(d.len() > 0);
        assert(acc == dec_val(d));
    }
    Some(acc as u8)
}

/// The value of the second whitespace-separated token of `t`, read as an
/// unsigned 8-bit decimal number.
fn second_token_value(t: &[u8]) -> (r: Option<u8>)
    ensures
        r == parse_u8_spec(second_token(t@)),
{
    let n = t.len();
    let mut a: usize = 0;
    while a < n && !is_ws_byte(t[a])
        invariant
            n == t@.len(),
            0 <= a <= n,
            forall|k: int| 0 <= k < a ==> !is_ascii_ws(t@[k]),
        decreases n - a,
    {
        a = a + 1;
    }
    proof {
        assert forall|k: int| 0 <= k < a implies is_ascii_ws(t@.skip(0)[k]) == false by {
            assert(t@.skip(0)[k] == t@[k]);
        }
        if a < n {
            assert(is_ascii_ws(t@.skip(0)[a as int]) == is_ascii_ws(t@[a as int]));
        }
        lemma_run_len_unique(t@.skip(0), false, a as int);
        assert(t@.skip(0) =~= t@);
        assert(tok1_end(t@) == a as int);
    }
    let mut b = a;
    while b < n && is_ws_byte(t[b])
        invariant
            n == t@.len(),
            a <= b <= n,
            forall|k: int| a <= k < b ==> is_ascii_ws(t@[k]),
        decreases n - b,
    {
        b = b + 1;
    }
    proof {
        assert forall|k: int| 0 <= k < b - a implies is_ascii_ws(t@.skip(a as int)[k]) == true by {
            assert(t@.skip(a as int)[k] == t@[k + a]);
        }
        if b < n {
            assert(is_ascii_ws(t@.skip(a as int)[(b - a) as int]) == is_ascii_ws(t@[b as int]));
        }
        lemma_run_len_unique(t@.skip(a as int), true, (b - a) as int);
        assert(tok2_start(t@) == b as int);
    }
    let mut c = b;
    while c < n && !is_ws_byte(t[c])
        invariant
            n == t@.len(),
            b <= c <= n,
            forall|k: int| b <= k < c ==> !is_ascii_ws(t@[k]),
        decreases n - c,
    {
        c = c + 1;
    }
    proof {
        assert forall|k: int| 0 <= k < c - b implies is_ascii_ws(t@.skip(b as int)[k])
            == false by {
            assert(t@.skip(b as int)[k] == t@[k + b]);
        }
        if c < n {
            assert(is_ascii_ws(t@.skip(b as int)[(c - b) as int]) == is_ascii_ws(t@[c as int]));
        }
        lemma_run_len_unique(t@.skip(b as int), false, (c - b) as int);
        assert(tok2_end(t@) == c as int);
    }
    let tok = vstd::slice::slice_subrange(t, b, c);
    parse_u8_ascii(tok)
}

/// Parses one raw line into a command.  The result is exactly
/// `spec_parse` of the input: trim, drop invalid UTF-8, recognise the two
/// case-insensitive reset tokens, then the three case-sensitive servo
/// keyword prefixes with a decimal 8-bit degree value as second token.
pub fn parse_command(line: &[u8]) -> (c: Command)
    ensures
        c == spec_parse(line@),
{
    let t = trim_ascii_whitespace(line);
    if !utf8_check(t) {
        return Command::Ignore;
    }
    if is_reset_line(t) {
        return Command::Reset;
    }
    if starts_with_arm(t) {
        match second_token_value(t) {
            Some(d) => Command::Move(ServoMoveRequest { servo: Servo::Arm, degrees: d }),
            None => Command::Ignore,
        }
    } else if starts_with_thumb(t) {
        match second_token_value(t) {
            Some(d) => Command::Move(ServoMoveRequest { servo: Servo::Thumb, degrees: d }),
            None => Command::Ignore,
        }
    } else if starts_with_fingers(t) {
        match second_token_value(t) {
            Some(d) => Command::Move(ServoMoveRequest { servo: Servo::Fingers, degrees: d }),
            None => Command::Ignore,
        }
    } else {
        Command::Ignore
    }
}

/// Reset detection ignores ASCII case: two lines equal up to case agree on
/// whether they request a reset.
pub proof fn lemma_reset_case_insensitive(a: Seq<u8>, b: Seq<u8>)
    requires
        a.len() == b.len(),
        forall|i: int| 0 <= i < a.len() ==> lower(a[i]) == lower(b[i]),
    ensures
        is_reset_token(a) == is_reset_token(b),
{
}

} // verus!
