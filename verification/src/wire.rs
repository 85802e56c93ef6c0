//! The wire form of a token: the exact characters that a client holds and
//! presents again.
//!
//! A token is written as a JSON object without blanks, its members in the
//! order `user_id`, `token_str`, `birth`:
//!
//! ```text
//! {"user_id":42,"token_str":"sEcr3t","birth":1700000000}
//! ```
//!
//! The numbers are decimal numerals without leading zeros. In the string,
//! `"` and `\` are written with a `\` in front, the control characters
//! below U+0020 as `\b`, `\f`, `\n`, `\r`, `\t` or `\u00` and two lower-case
//! hexadecimal digits, and every other character as itself.
//!
//! The library writes this form and does not read it. A presented string
//! is looked up in the store as it stands, and what token it says is for
//! the caller's JSON reader to tell.

use crate::text::{
    decimal, is_digit, lemma_parse_decimal, lemma_parse_signed_decimal, parse_number,
    parse_signed, push_decimal, push_signed_decimal, signed_decimal,
};
use crate::token::{TokenView, UserToken};
use vstd::prelude::*;
use vstd::string::StringExecFns;

verus! {

/// The lower-case hexadecimal digit of `d`, for `d` below sixteen.
pub open spec fn hex_char(d: nat) -> char {
    if d < 10 {
        (d + 48) as char
    } else {
        (d + 87) as char
    }
}

/// Whether `c` is a lower-case hexadecimal digit.
spec fn is_hex(c: char) -> bool {
    is_digit(c) || 'a' <= c <= 'f'
}

/// The number that the hexadecimal digit `c` writes.
spec fn hex_value(c: char) -> nat {
    if is_digit(c) {
        (c as nat - 48) as nat
    } else {
        (c as nat - 87) as nat
    }
}

/// How one character of a string is written.
pub open spec fn escape_char(c: char) -> Seq<char> {
    if c == '"' {
        seq!['\\', '"']
    } else if c == '\\' {
        seq!['\\', '\\']
    } else if c == '\u{8}' {
        seq!['\\', 'b']
    } else if c == '\u{c}' {
        seq!['\\', 'f']
    } else if c == '\n' {
        seq!['\\', 'n']
    } else if c == '\r' {
        seq!['\\', 'r']
    } else if c == '\t' {
        seq!['\\', 't']
    } else if (c as nat) < 0x20 {
        seq!['\\', 'u', '0', '0', hex_char(c as nat / 16), hex_char(c as nat % 16)]
    } else {
        seq![c]
    }
}

/// How a string is written between its quotes.
pub open spec fn escape(v: Seq<char>) -> Seq<char>
    decreases v.len(),
{
    if v.len() == 0 {
        Seq::empty()
    } else {
        escape_char(v[0]) + escape(v.drop_first())
    }
}

/// The wire form of a token.
pub open spec fn wire_form(t: TokenView) -> Seq<char> {
    "{\"user_id\":"@ + decimal(t.user_id as nat) + ",\"token_str\":\""@ + escape(t.value)
        + seq!['"'] + ",\"birth\":"@ + signed_decimal(t.issued_at as int) + seq!['}']
}

/// Reads one written character at the head of `s`: the character and how
/// many characters wrote it.
spec fn read_char(s: Seq<char>) -> Option<(char, int)> {
    if s.len() == 0 {
        None
    } else if s[0] != '\\' {
        Some((s[0], 1))
    } else if s.len() < 2 {
        None
    } else if s[1] == '"' {
        Some(('"', 2))
    } else if s[1] == '\\' {
        Some(('\\', 2))
    } else if s[1] == 'b' {
        Some(('\u{8}', 2))
    } else if s[1] == 'f' {
        Some(('\u{c}', 2))
    } else if s[1] == 'n' {
        Some(('\n', 2))
    } else if s[1] == 'r' {
        Some(('\r', 2))
    } else if s[1] == 't' {
        Some(('\t', 2))
    } else if s[1] == 'u' && s.len() >= 6 && s[2] == '0' && s[3] == '0' && (s[4] == '0' || s[4]
        == '1') && is_hex(s[5]) {
        Some(((hex_value(s[4]) * 16 + hex_value(s[5])) as char, 6))
    } else {
        None
    }
}

/// Reads a written string up to and with its closing quote: the string and
/// what follows the quote.
spec fn unescape(s: Seq<char>) -> Option<(Seq<char>, Seq<char>)>
    decreases s.len(),
{
    if s.len() == 0 {
        None
    } else if s[0] == '"' {
        Some((Seq::empty(), s.drop_first()))
    } else {
        match read_char(s) {
            Some((c, k)) => if 0 < k <= s.len() {
                behind(seq![c], unescape(s.skip(k)))
            } else {
                None
            },
            None => None,
        }
    }
}

/// Puts `front` before the string of a reading.
spec fn behind(front: Seq<char>, reading: Option<(Seq<char>, Seq<char>)>) -> Option<
    (Seq<char>, Seq<char>),
> {
    match reading {
        Some((v, rest)) => Some((front + v, rest)),
        None => None,
    }
}

/// The token that `w` writes, read member by member. Only the proof that
/// the wire form loses nothing reads a wire form.
spec fn token_in(w: Seq<char>) -> Option<TokenView> {
    let open = "{\"user_id\":"@;
    let mid = ",\"token_str\":\""@;
    let last = ",\"birth\":"@;
    if !open.is_prefix_of(w) {
        None
    } else {
        match parse_number(w.skip(open.len() as int)) {
            Some((id, r1)) => if id > u64::MAX || !mid.is_prefix_of(r1) {
                None
            } else {
                match unescape(r1.skip(mid.len() as int)) {
                    Some((value, r2)) => if !last.is_prefix_of(r2) {
                        None
                    } else {
                        match parse_signed(r2.skip(last.len() as int)) {
                            Some((birth, r3)) => if birth < i64::MIN || birth > i64::MAX || r3
                                != seq!['}'] {
                                None
                            } else {
                                Some(
                                    TokenView {
                                        user_id: id as u64,
                                        value,
                                        issued_at: birth as i64,
                                    },
                                )
                            },
                            None => None,
                        }
                    },
                    None => None,
                }
            },
            None => None,
        }
    }
}

proof fn lemma_read_escaped_char(c: char, rest: Seq<char>)
    ensures
        read_char(escape_char(c) + rest) == Some((c, escape_char(c).len() as int)),
        escape_char(c)[0] != '"',
        1 <= escape_char(c).len() <= 6,
{
    let s = escape_char(c) + rest;
    assert(s[0] == escape_char(c)[0]);
    if escape_char(c).len() >= 2 {
        assert(s[1] == escape_char(c)[1]);
    }
    if escape_char(c).len() == 6 {
        let hi = c as nat / 16;
        let lo = c as nat % 16;
        assert(s[2] == '0' && s[3] == '0');
        assert(s[4] == hex_char(hi) && s[5] == hex_char(lo));
        assert(hi == 0 || hi == 1);
        assert(hex_value(hex_char(hi)) == hi);
        assert(hex_value(hex_char(lo)) == lo);
        assert(is_hex(hex_char(lo)));
        assert((hi * 16 + lo) as char == c);
    }
}

/// Reading a written string gives the string back, with what followed its
/// closing quote.
proof fn lemma_unescape_escaped(v: Seq<char>, rest: Seq<char>)
    ensures
        unescape(escape(v) + seq!['"'] + rest) == Some((v, rest)),
    decreases v.len(),
{
    let s = escape(v) + seq!['"'] + rest;
    if v.len() == 0 {
        assert(s[0] == '"');
        assert(s.drop_first() =~= rest);
    } else {
        let c = v[0];
        let tail = escape(v.drop_first()) + seq!['"'] + rest;
        assert(s =~= escape_char(c) + tail);
        lemma_read_escaped_char(c, tail);
        let k = escape_char(c).len() as int;
        assert(s[0] == escape_char(c)[0]);
        assert(s.skip(k) =~= tail);
        lemma_unescape_escaped(v.drop_first(), rest);
        assert(seq![c] + v.drop_first() =~= v);
    }
}

/// Reading the wire form of a token gives the token back.
proof fn lemma_token_in_wire_form(t: TokenView)
    ensures
        token_in(wire_form(t)) == Some(t),
{
    reveal_strlit("{\"user_id\":");
    reveal_strlit(",\"token_str\":\"");
    reveal_strlit(",\"birth\":");
    let open = "{\"user_id\":"@;
    let mid = ",\"token_str\":\""@;
    let last = ",\"birth\":"@;
    let w = wire_form(t);
    let a3 = signed_decimal(t.issued_at as int) + seq!['}'];
    let a2 = escape(t.value) + seq!['"'] + (last + a3);
    let a1 = decimal(t.user_id as nat) + (mid + a2);
    assert(w =~= open + a1);
    assert(open.is_prefix_of(w));
    assert(w.skip(open.len() as int) =~= a1);
    assert((mid + a2)[0] == ',');
    lemma_parse_decimal(t.user_id as nat, mid + a2);
    assert(mid.is_prefix_of(mid + a2));
    assert((mid + a2).skip(mid.len() as int) =~= a2);
    lemma_unescape_escaped(t.value, last + a3);
    assert(last.is_prefix_of(last + a3));
    assert((last + a3).skip(last.len() as int) =~= a3);
    lemma_parse_signed_decimal(t.issued_at as int, seq!['}']);
}

/// The wire form loses nothing: tokens with the same wire form are the
/// same token, user, secret and time of issue.
pub proof fn lemma_wire_form_injective(a: TokenView, b: TokenView)
    requires
        wire_form(a) == wire_form(b),
    ensures
        a == b,
{
    lemma_token_in_wire_form(a);
    lemma_token_in_wire_form(b);
}

/// The lower-case hexadecimal digit of `d`.
fn hex_digit(d: u8) -> (c: char)
    requires
        d < 16,
    ensures
        c == hex_char(d as nat),
{
    if d < 10 {
        (d + 48u8) as char
    } else {
        (d + 87u8) as char
    }
}

/// Appends one character as it is written inside a string.
fn push_escaped_char(out: &mut String, c: char)
    ensures
        final(out)@ == old(out)@ + escape_char(c),
{
    if c == '"' {
        out.push('\\');
        out.push('"');
    } else if c == '\\' {
        out.push('\\');
        out.push('\\');
    } else if c == '\u{8}' {
        out.push('\\');
        out.push('b');
    } else if c == '\u{c}' {
        out.push('\\');
        out.push('f');
    } else if c == '\n' {
        out.push('\\');
        out.push('n');
    } else if c == '\r' {
        out.push('\\');
        out.push('r');
    } else if c == '\t' {
        out.push('\\');
        out.push('t');
    } else if (c as u32) < 0x20 {
        let code: u8 = c as u8;
        out.push('\\');
        out.push('u');
        out.push('0');
        out.push('0');
        out.push(hex_digit(code / 16));
        out.push(hex_digit(code % 16));
    } else {
        out.push(c);
    }
    assert(out@ =~= old(out)@ + escape_char(c));
}

/// Appends a string as it is written between its quotes.
fn push_escaped(out: &mut String, value: &str)
    ensures
        final(out)@ == old(out)@ + escape(value@),
{
    let ghost before = out@;
    assert(value@.skip(0) =~= value@);
    for c in it: value.chars()
        invariant
            it.seq() == value@,
            before + escape(value@) == out@ + escape(value@.skip(it.index())),
    {
        let ghost i = it.index();
        let ghost written = out@;
        push_escaped_char(out, c);
        proof {
            assert(value@.skip(i)[0] == c);
            assert(value@.skip(i).drop_first() =~= value@.skip(i + 1));
            assert(written + escape(value@.skip(i)) =~= out@ + escape(value@.skip(i + 1)));
        }
    }
    assert(out@ + escape(value@.skip(value@.len() as int)) =~= out@);
}

/// The wire form of `token`.
pub fn encode(token: &UserToken) -> (wire: String)
    ensures
        wire@ == wire_form(token@),
{
    let mut wire = String::from_str("{\"user_id\":");
    push_decimal(&mut wire, token.user());
    wire.append(",\"token_str\":\"");
    push_escaped(&mut wire, token.token_str());
    wire.push('"');
    wire.append(",\"birth\":");
    push_signed_decimal(&mut wire, token.birth());
    wire.push('}');
    assert(wire@ =~= wire_form(token@));
    wire
}

} // verus!
