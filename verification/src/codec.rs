//! The document codec: a canonical JSON rendering of a project and a parser
//! for exactly that rendering, with a proved round trip.
//!
//! The serializer emits one fixed field order and no whitespace; the parser
//! accepts exactly what the serializer emits.  Strings escape `"` and `\`
//! with a backslash and carry every other character through.

use crate::issue::{Issue, IssueView, Message, MessageView, Resolution, Status};
use crate::project::{Project, ProjectView};
use crate::text::string_from_chars;
use crate::user::{User, UserView, Users};
use vstd::prelude::*;

verus! {

// ---------------------------------------------------------------------------
// Characters and digits
// ---------------------------------------------------------------------------
/// The value of a decimal digit character, or 10 for any other character.
pub open spec fn digit_val(c: char) -> int {
    if c == '0' {
        0
    } else if c == '1' {
        1
    } else if c == '2' {
        2
    } else if c == '3' {
        3
    } else if c == '4' {
        4
    } else if c == '5' {
        5
    } else if c == '6' {
        6
    } else if c == '7' {
        7
    } else if c == '8' {
        8
    } else if c == '9' {
        9
    } else {
        10
    }
}

/// Whether the character is a decimal digit.
pub open spec fn is_digit(c: char) -> bool {
    digit_val(c) < 10
}

/// The digit character for a value below ten.
pub open spec fn digit_char(d: int) -> char {
    if d == 0 {
        '0'
    } else if d == 1 {
        '1'
    } else if d == 2 {
        '2'
    } else if d == 3 {
        '3'
    } else if d == 4 {
        '4'
    } else if d == 5 {
        '5'
    } else if d == 6 {
        '6'
    } else if d == 7 {
        '7'
    } else if d == 8 {
        '8'
    } else {
        '9'
    }
}

/// The value of a digit character, executable form.
fn digit_val_exec(c: char) -> (r: u64)
    ensures
        r == digit_val(c),
{
    if c == '0' {
        0
    } else if c == '1' {
        1
    } else if c == '2' {
        2
    } else if c == '3' {
        3
    } else if c == '4' {
        4
    } else if c == '5' {
        5
    } else if c == '6' {
        6
    } else if c == '7' {
        7
    } else if c == '8' {
        8
    } else if c == '9' {
        9
    } else {
        10
    }
}

/// The digit character for a value below ten, executable form.
fn digit_char_exec(d: u64) -> (r: char)
    requires
        d < 10,
    ensures
        r == digit_char(d as int),
{
    if d == 0 {
        '0'
    } else if d == 1 {
        '1'
    } else if d == 2 {
        '2'
    } else if d == 3 {
        '3'
    } else if d == 4 {
        '4'
    } else if d == 5 {
        '5'
    } else if d == 6 {
        '6'
    } else if d == 7 {
        '7'
    } else if d == 8 {
        '8'
    } else {
        '9'
    }
}

proof fn lemma_digit_char_val(d: int)
    requires
        0 <= d < 10,
    ensures
        digit_val(digit_char(d)) == d,
        is_digit(digit_char(d)),
{
}

// ---------------------------------------------------------------------------
// Decimal representations
// ---------------------------------------------------------------------------
/// The canonical decimal representation of a natural number: most
/// significant digit first, no leading zero.
pub open spec fn dec_rep(n: nat) -> Seq<char>
    decreases n,
{
    if n < 10 {
        seq![digit_char(n as int)]
    } else {
        dec_rep(n / 10) + seq![digit_char((n % 10) as int)]
    }
}

/// Every character of a decimal representation is a digit.
proof fn lemma_dec_rep_digits(n: nat)
    ensures
        dec_rep(n).len() >= 1,
        forall|i: int| 0 <= i < dec_rep(n).len() ==> is_digit(#[trigger] dec_rep(n)[i]),
    decreases n,
{
    if n < 10 {
        lemma_digit_char_val(n as int);
    } else {
        lemma_dec_rep_digits(n / 10);
        lemma_digit_char_val((n % 10) as int);
    }
}

/// The value of a digit string, most significant digit first.
pub open spec fn digits_val(d: Seq<char>) -> int
    decreases d.len(),
{
    if d.len() == 0 {
        0
    } else {
        digits_val(d.drop_last()) * 10 + digit_val(d.last())
    }
}

/// Reading back a decimal representation yields the number.
proof fn lemma_digits_val_dec_rep(n: nat)
    ensures
        digits_val(dec_rep(n)) == n,
    decreases n,
{
    if n < 10 {
        lemma_digit_char_val(n as int);
        assert(dec_rep(n) == seq![digit_char(n as int)]);
        assert(dec_rep(n).len() == 1);
        assert(dec_rep(n).drop_last() =~= Seq::<char>::empty());
        assert(dec_rep(n).last() == digit_char(n as int));
        assert(digits_val(Seq::<char>::empty()) == 0);
        assert(digits_val(dec_rep(n)) == digits_val(dec_rep(n).drop_last()) * 10 + digit_val(
            dec_rep(n).last(),
        ));
        assert(digit_val(digit_char(n as int)) == n);
    } else {
        lemma_digits_val_dec_rep(n / 10);
        lemma_digit_char_val((n % 10) as int);
        assert(dec_rep(n).drop_last() =~= dec_rep(n / 10));
        assert(dec_rep(n).last() == digit_char((n % 10) as int));
        assert(digits_val(dec_rep(n)) == (n / 10) * 10 + (n % 10));
        vstd::arithmetic::div_mod::lemma_fundamental_div_mod(n as int, 10);
        assert((n / 10) as int == (n as int) / 10);
        assert((n % 10) as int == (n as int) % 10);
        assert((n as int) / 10 * 10 + (n as int) % 10 == n as int);
    }
}

/// The length of the leading run of digit characters.
pub open spec fn digit_run_len(s: Seq<char>) -> int
    decreases s.len(),
{
    if s.len() > 0 && is_digit(s[0]) {
        1 + digit_run_len(s.drop_first())
    } else {
        0
    }
}

proof fn lemma_digit_run_basic(s: Seq<char>)
    ensures
        0 <= digit_run_len(s) <= s.len(),
        forall|i: int| 0 <= i < digit_run_len(s) ==> is_digit(s[i]),
        digit_run_len(s) < s.len() ==> !is_digit(s[digit_run_len(s)]),
    decreases s.len(),
{
    if s.len() > 0 && is_digit(s[0]) {
        let t = s.drop_first();
        lemma_digit_run_basic(t);
        assert forall|i: int| 0 <= i < digit_run_len(s) implies is_digit(s[i]) by {
            if i >= 1 {
                assert(s[i] == t[i - 1]);
            }
        }
        if digit_run_len(s) < s.len() {
            assert(s[digit_run_len(s)] == t[digit_run_len(s) - 1]);
        }
    }
}

/// A run of digits followed by a non-digit (or by nothing) is the whole
/// leading digit run.
proof fn lemma_digit_run_concat(d: Seq<char>, rest: Seq<char>)
    requires
        forall|i: int| 0 <= i < d.len() ==> is_digit(d[i]),
        rest.len() > 0 ==> !is_digit(rest[0]),
    ensures
        digit_run_len(d + rest) == d.len(),
    decreases d.len(),
{
    if d.len() == 0 {
        assert(d + rest =~= rest);
    } else {
        assert((d + rest)[0] == d[0]);
        assert((d + rest).drop_first() =~= d.drop_first() + rest);
        lemma_digit_run_concat(d.drop_first(), rest);
    }
}

/// Extending a digit string multiplies its value up: once the value passes a
/// bound, longer prefixes stay past the bound.
proof fn lemma_digits_val_monotone(d: Seq<char>, i: int, j: int)
    requires
        0 <= i <= j <= d.len(),
        forall|k: int| 0 <= k < d.len() ==> is_digit(d[k]),
        digits_val(d.take(i)) >= 0,
    ensures
        digits_val(d.take(j)) >= digits_val(d.take(i)) >= 0,
    decreases j - i,
{
    if i < j {
        lemma_digits_val_monotone(d, i, j - 1);
        assert(d.take(j).drop_last() =~= d.take(j - 1));
        assert(digits_val(d.take(j)) == digits_val(d.take(j - 1)) * 10 + digit_val(d.take(j)[j - 1]));
        assert(digits_val(d.take(j - 1)) * 10 >= digits_val(d.take(j - 1))) by (nonlinear_arith)
            requires
                digits_val(d.take(j - 1)) >= 0,
        ;
    }
}

proof fn lemma_digits_val_nonneg(d: Seq<char>)
    ensures
        digits_val(d) >= 0,
    decreases d.len(),
{
    if d.len() > 0 {
        lemma_digits_val_nonneg(d.drop_last());
        assert(digits_val(d.drop_last()) * 10 >= 0) by (nonlinear_arith)
            requires
                digits_val(d.drop_last()) >= 0,
        ;
    }
}

// ---------------------------------------------------------------------------
// String escaping
// ---------------------------------------------------------------------------
/// The escape of one character.
pub open spec fn esc_char(c: char) -> Seq<char> {
    if c == '"' || c == '\\' {
        seq!['\\', c]
    } else {
        seq![c]
    }
}

/// The escape of a string body, character by character.
pub open spec fn escape(s: Seq<char>) -> Seq<char>
    decreases s.len(),
{
    if s.len() == 0 {
        Seq::empty()
    } else {
        esc_char(s[0]) + escape(s.drop_first())
    }
}

/// Escaping distributes over appending one character at the end.
proof fn lemma_escape_snoc(s: Seq<char>, c: char)
    ensures
        escape(s.push(c)) == escape(s) + esc_char(c),
    decreases s.len(),
{
    if s.len() == 0 {
        assert(s.push(c)[0] == c);
        assert(s.push(c).drop_first() =~= Seq::<char>::empty());
        assert(escape(s.push(c)) == esc_char(c) + escape(Seq::<char>::empty()));
        assert(esc_char(c) + Seq::<char>::empty() =~= esc_char(c));
        assert(escape(s) + esc_char(c) =~= esc_char(c));
    } else {
        assert(s.push(c).drop_first() =~= s.drop_first().push(c));
        lemma_escape_snoc(s.drop_first(), c);
        assert(escape(s.push(c)) == esc_char(s[0]) + (escape(s.drop_first()) + esc_char(c)));
        assert(esc_char(s[0]) + (escape(s.drop_first()) + esc_char(c)) =~= (esc_char(s[0]) + escape(
            s.drop_first(),
        )) + esc_char(c));
    }
}

/// A serialized string: quote, escaped body, quote.
pub open spec fn ser_string(s: Seq<char>) -> Seq<char> {
    seq!['"'] + escape(s) + seq!['"']
}

// ---------------------------------------------------------------------------
// Spec-level parsers, each returning the value and the unread remainder
// ---------------------------------------------------------------------------
/// Consumes an exact literal.
pub open spec fn sp_parse_lit(s: Seq<char>, lit: Seq<char>) -> Option<Seq<char>> {
    if s.len() >= lit.len() && s.take(lit.len() as int) == lit {
        Some(s.skip(lit.len() as int))
    } else {
        None
    }
}

/// A literal parses off the front of exactly itself.
proof fn lemma_rt_lit(lit: Seq<char>, rest: Seq<char>)
    ensures
        sp_parse_lit(lit + rest, lit) == Some(rest),
{
    assert((lit + rest).take(lit.len() as int) =~= lit);
    assert((lit + rest).skip(lit.len() as int) =~= rest);
}

/// Scans a string body up to its closing quote, undoing the escapes;
/// `s` starts just after the opening quote.
pub open spec fn sp_scan_string(s: Seq<char>) -> Option<(Seq<char>, Seq<char>)>
    decreases s.len(),
{
    if s.len() == 0 {
        None
    } else if s[0] == '"' {
        Some((Seq::empty(), s.drop_first()))
    } else if s[0] == '\\' {
        if s.len() >= 2 && (s[1] == '"' || s[1] == '\\') {
            match sp_scan_string(s.skip(2)) {
                Some((body, rest)) => Some((seq![s[1]] + body, rest)),
                None => None,
            }
        } else {
            None
        }
    } else {
        match sp_scan_string(s.drop_first()) {
            Some((body, rest)) => Some((seq![s[0]] + body, rest)),
            None => None,
        }
    }
}

/// Consumes a serialized string.
pub open spec fn sp_parse_string(s: Seq<char>) -> Option<(Seq<char>, Seq<char>)> {
    if s.len() > 0 && s[0] == '"' {
        sp_scan_string(s.drop_first())
    } else {
        None
    }
}

/// Scanning undoes escaping.
proof fn lemma_rt_scan(body: Seq<char>, rest: Seq<char>)
    ensures
        sp_scan_string(escape(body) + seq!['"'] + rest) == Some((body, rest)),
    decreases body.len(),
{
    let s = escape(body) + seq!['"'] + rest;
    if body.len() == 0 {
        assert(s =~= seq!['"'] + rest);
        assert(s[0] == '"');
        assert(s.drop_first() =~= rest);
    } else {
        let c = body[0];
        let tail = body.drop_first();
        lemma_rt_scan(tail, rest);
        assert(escape(body) == esc_char(c) + escape(tail));
        if c == '"' || c == '\\' {
            assert(s =~= seq!['\\', c] + (escape(tail) + seq!['"'] + rest));
            assert(s[0] == '\\');
            assert(s[1] == c);
            assert(s.len() >= 2);
            assert(s.skip(2) =~= escape(tail) + seq!['"'] + rest);
            assert(seq![c] + tail =~= body);
        } else {
            assert(s =~= seq![c] + (escape(tail) + seq!['"'] + rest));
            assert(s[0] == c);
            assert(s[0] != '"' && s[0] != '\\');
            assert(s.drop_first() =~= escape(tail) + seq!['"'] + rest);
            assert(seq![c] + tail =~= body);
        }
    }
}

/// A serialized string parses back to itself.
proof fn lemma_rt_string(body: Seq<char>, rest: Seq<char>)
    ensures
        sp_parse_string(ser_string(body) + rest) == Some((body, rest)),
{
    let s = ser_string(body) + rest;
    assert(s[0] == '"');
    assert(s.drop_first() =~= escape(body) + seq!['"'] + rest);
    lemma_rt_scan(body, rest);
}

/// Consumes an unsigned decimal number that fits in a `u64`.
pub open spec fn sp_parse_u64(s: Seq<char>) -> Option<(u64, Seq<char>)> {
    let k = digit_run_len(s);
    if k == 0 {
        None
    } else if digits_val(s.take(k)) > u64::MAX {
        None
    } else {
        Some((digits_val(s.take(k)) as u64, s.skip(k)))
    }
}

/// A serialized `u64` parses back to itself when what follows opens with a
/// non-digit.
proof fn lemma_rt_u64(n: u64, rest: Seq<char>)
    requires
        rest.len() > 0 ==> !is_digit(rest[0]),
    ensures
        sp_parse_u64(dec_rep(n as nat) + rest) == Some((n, rest)),
{
    let d = dec_rep(n as nat);
    let s = d + rest;
    lemma_dec_rep_digits(n as nat);
    lemma_digit_run_concat(d, rest);
    assert(digit_run_len(s) == d.len());
    assert(s.take(d.len() as int) =~= d);
    assert(s.skip(d.len() as int) =~= rest);
    lemma_digits_val_dec_rep(n as nat);
}

/// Consumes a signed decimal number that fits in an `i64`.
pub open spec fn sp_parse_i64(s: Seq<char>) -> Option<(i64, Seq<char>)> {
    if s.len() > 0 && s[0] == '-' {
        match sp_parse_u64(s.drop_first()) {
            Some((v, rest)) => if v <= 9223372036854775808u64 {
                Some(((-(v as int)) as i64, rest))
            } else {
                None
            },
            None => None,
        }
    } else {
        match sp_parse_u64(s) {
            Some((v, rest)) => if v <= i64::MAX as u64 {
                Some((v as i64, rest))
            } else {
                None
            },
            None => None,
        }
    }
}

/// The canonical decimal representation of a signed number.
pub open spec fn ser_i64(n: i64) -> Seq<char> {
    if n >= 0 {
        dec_rep(n as nat)
    } else {
        seq!['-'] + dec_rep((-(n as int)) as nat)
    }
}

/// A serialized `i64` parses back to itself when what follows opens with a
/// non-digit.
proof fn lemma_rt_i64(n: i64, rest: Seq<char>)
    requires
        rest.len() > 0 ==> !is_digit(rest[0]),
    ensures
        sp_parse_i64(ser_i64(n) + rest) == Some((n, rest)),
{
    if n >= 0 {
        let d = dec_rep(n as nat);
        lemma_dec_rep_digits(n as nat);
        assert((d + rest)[0] == d[0]);
        assert((d + rest).len() > 0);
        assert(is_digit(d[0]));
        assert(d[0] != '-');
        lemma_rt_u64(n as u64, rest);
    } else {
        let m = (-(n as int)) as nat;
        let d = dec_rep(m);
        let s = ser_i64(n) + rest;
        assert(s =~= seq!['-'] + (d + rest));
        assert(s[0] == '-');
        assert(s.drop_first() =~= d + rest);
        assert(m <= 9223372036854775808nat);
        lemma_rt_u64(m as u64, rest);
        assert((-((m as u64) as int)) as i64 == n);
    }
}

/// Consumes `true` or `false`.
pub open spec fn sp_parse_bool(s: Seq<char>) -> Option<(bool, Seq<char>)> {
    if sp_parse_lit(s, "true"@) is Some {
        Some((true, sp_parse_lit(s, "true"@)->Some_0))
    } else if sp_parse_lit(s, "false"@) is Some {
        Some((false, sp_parse_lit(s, "false"@)->Some_0))
    } else {
        None
    }
}

/// The literal a boolean serializes to.
pub open spec fn ser_bool(b: bool) -> Seq<char> {
    if b {
        "true"@
    } else {
        "false"@
    }
}

/// A serialized boolean parses back to itself.
proof fn lemma_rt_bool(b: bool, rest: Seq<char>)
    ensures
        sp_parse_bool(ser_bool(b) + rest) == Some((b, rest)),
{
    reveal_strlit("true");
    reveal_strlit("false");
    if b {
        lemma_rt_lit("true"@, rest);
    } else {
        lemma_rt_lit("false"@, rest);
        let s = "false"@ + rest;
        if s.len() >= 4 {
            assert(s.take(4)[0] == 'f');
            assert(s.take(4) != "true"@);
        }
    }
}

// ---------------------------------------------------------------------------
// Executable serializers
// ---------------------------------------------------------------------------
/// Appends the characters of a literal.
pub(crate) fn append_lit(out: &mut Vec<char>, lit: &str)
    ensures
        final(out)@ == old(out)@ + lit@,
{
    broadcast use vstd::string::group_string_axioms;

    let n = lit.unicode_len();
    let mut i: usize = 0;
    while i < n
        invariant
            n == lit@.len(),
            i <= n,
            out@ =~= old(out)@ + lit@.take(i as int),
        decreases n - i,
    {
        out.push(lit.get_char(i));
        i += 1;
        proof {
            assert(out@ =~= old(out)@ + lit@.take(i as int));
        }
    }
    proof {
        assert(lit@.take(n as int) =~= lit@);
    }
}

/// Appends the decimal representation of an unsigned number.
pub(crate) fn append_u64(out: &mut Vec<char>, n: u64)
    ensures
        final(out)@ == old(out)@ + dec_rep(n as nat),
    decreases n,
{
    if n < 10 {
        out.push(digit_char_exec(n));
        proof {
            assert(out@ =~= old(out)@ + dec_rep(n as nat));
        }
    } else {
        append_u64(out, n / 10);
        out.push(digit_char_exec(n % 10));
        proof {
            assert(out@ =~= old(out)@ + dec_rep(n as nat));
        }
    }
}

/// Appends the decimal representation of a signed number.
pub(crate) fn append_i64(out: &mut Vec<char>, n: i64)
    ensures
        final(out)@ == old(out)@ + ser_i64(n),
{
    if n >= 0 {
        append_u64(out, n as u64);
    } else {
        out.push('-');
        let mag: u64 = if n == i64::MIN {
            9223372036854775808u64
        } else {
            (-n) as u64
        };
        proof {
            assert(mag as nat == (-(n as int)) as nat);
        }
        append_u64(out, mag);
        proof {
            assert(out@ =~= old(out)@ + ser_i64(n));
        }
    }
}

/// Appends a quoted, escaped string.
fn append_string(out: &mut Vec<char>, s: &str)
    ensures
        final(out)@ == old(out)@ + ser_string(s@),
{
    broadcast use vstd::string::group_string_axioms;

    out.push('"');
    let n = s.unicode_len();
    let mut i: usize = 0;
    while i < n
        invariant
            n == s@.len(),
            i <= n,
            out@ =~= old(out)@ + seq!['"'] + escape(s@.take(i as int)),
        decreases n - i,
    {
        let c = s.get_char(i);
        if c == '"' || c == '\\' {
            out.push('\\');
            out.push(c);
        } else {
            out.push(c);
        }
        proof {
            lemma_escape_snoc(s@.take(i as int), c);
            assert(s@.take(i as int).push(c) =~= s@.take(i + 1));
            assert(out@ =~= old(out)@ + seq!['"'] + escape(s@.take(i + 1)));
        }
        i += 1;
    }
    out.push('"');
    proof {
        assert(s@.take(n as int) =~= s@);
        assert(out@ =~= old(out)@ + ser_string(s@));
    }
}

/// Appends `true` or `false`.
fn append_bool(out: &mut Vec<char>, b: bool)
    ensures
        final(out)@ == old(out)@ + ser_bool(b),
{
    if b {
        append_lit(out, "true");
    } else {
        append_lit(out, "false");
    }
}

// ---------------------------------------------------------------------------
// Executable parsers, each at a position into the document
// ---------------------------------------------------------------------------
/// Consumes the literal at `pos`, yielding the next position.
fn parse_lit(inp: &Vec<char>, pos: usize, lit: &str) -> (r: Option<usize>)
    requires
        pos <= inp@.len(),
    ensures
        match r {
            Some(p2) => pos <= p2 <= inp@.len() && sp_parse_lit(inp@.skip(pos as int), lit@)
                == Some(inp@.skip(p2 as int)),
            None => sp_parse_lit(inp@.skip(pos as int), lit@) is None,
        },
{
    broadcast use vstd::string::group_string_axioms;

    let ghost s = inp@.skip(pos as int);
    let n = lit.unicode_len();
    if inp.len() - pos < n {
        proof {
            assert(s.len() < lit@.len());
        }
        return None;
    }
    let mut i: usize = 0;
    while i < n
        invariant
            n == lit@.len(),
            i <= n,
            pos + n <= inp@.len(),
            inp@.len() <= usize::MAX,
            s == inp@.skip(pos as int),
            forall|j: int| 0 <= j < i ==> s[j] == lit@[j],
        decreases n - i,
    {
        if inp[pos + i] != lit.get_char(i) {
            proof {
                assert(s[i as int] == inp@[pos + i]);
                assert(s.take(n as int)[i as int] != lit@[i as int]);
                assert(s.take(n as int) != lit@);
            }
            return None;
        }
        proof {
            assert(s[i as int] == inp@[pos + i]);
        }
        i += 1;
    }
    proof {
        assert(s.take(n as int) =~= lit@);
        assert(s.skip(n as int) =~= inp@.skip(pos + n));
    }
    Some(pos + n)
}

/// Consumes a quoted string at `pos`, yielding its unescaped body.
fn parse_string(inp: &Vec<char>, pos: usize) -> (r: Option<(Vec<char>, usize)>)
    requires
        pos <= inp@.len(),
    ensures
        match r {
            Some((body, p2)) => pos <= p2 <= inp@.len() && sp_parse_string(inp@.skip(pos as int))
                == Some((body@, inp@.skip(p2 as int))),
            None => sp_parse_string(inp@.skip(pos as int)) is None,
        },
{
    if pos == inp.len() {
        return None;
    }
    if inp[pos] != '"' {
        return None;
    }
    proof {
        assert(inp@.skip(pos as int)[0] == '"');
        assert(inp@.skip(pos as int).drop_first() =~= inp@.skip(pos + 1));
    }
    let mut acc: Vec<char> = Vec::new();
    let mut cur: usize = pos + 1;
    loop
        invariant
            pos + 1 <= cur <= inp@.len(),
            sp_parse_string(inp@.skip(pos as int)) == sp_scan_string(inp@.skip(pos + 1)),
            (sp_scan_string(inp@.skip(cur as int)) matches Some(br) ==> sp_scan_string(
                inp@.skip(pos + 1),
            ) == Some((acc@ + br.0, br.1))),
            (sp_scan_string(inp@.skip(cur as int)) is None ==> sp_scan_string(inp@.skip(pos + 1))
                is None),
        decreases inp@.len() - cur,
    {
        let ghost s = inp@.skip(cur as int);
        if cur == inp.len() {
            proof {
                assert(s.len() == 0);
            }
            return None;
        }
        let c = inp[cur];
        proof {
            assert(s[0] == c);
            assert(s.drop_first() =~= inp@.skip(cur + 1));
        }
        if c == '"' {
            proof {
                assert(sp_scan_string(s) == Some((Seq::<char>::empty(), inp@.skip(cur + 1))));
                assert(acc@ + Seq::<char>::empty() =~= acc@);
            }
            return Some((acc, cur + 1));
        }
        if c == '\\' {
            if cur + 1 == inp.len() {
                proof {
                    assert(s.len() == 1);
                }
                return None;
            }
            let c2 = inp[cur + 1];
            proof {
                assert(s[1] == c2);
            }
            if c2 == '"' || c2 == '\\' {
                let ghost acc0 = acc@;
                acc.push(c2);
                cur = cur + 2;
                proof {
                    assert(s.skip(2) =~= inp@.skip(cur as int));
                    assert forall|b: Seq<char>, r2: Seq<char>|
                        sp_scan_string(inp@.skip(cur as int)) == Some((b, r2)) implies acc0 + (
                    seq![c2] + b) =~= acc@ + b by {}
                }
            } else {
                return None;
            }
        } else {
            let ghost acc0 = acc@;
            acc.push(c);
            cur = cur + 1;
            proof {
                assert forall|b: Seq<char>, r2: Seq<char>|
                    sp_scan_string(inp@.skip(cur as int)) == Some((b, r2)) implies acc0 + (seq![c]
                    + b) =~= acc@ + b by {}
            }
        }
    }
}

/// Consumes an unsigned decimal number at `pos`.
fn parse_u64(inp: &Vec<char>, pos: usize) -> (r: Option<(u64, usize)>)
    requires
        pos <= inp@.len(),
    ensures
        match r {
            Some((v, p2)) => pos <= p2 <= inp@.len() && sp_parse_u64(inp@.skip(pos as int)) == Some(
                (v, inp@.skip(p2 as int)),
            ),
            None => sp_parse_u64(inp@.skip(pos as int)) is None,
        },
{
    let ghost s = inp@.skip(pos as int);
    // Find the end of the digit run.
    let mut e: usize = pos;
    while e < inp.len() && digit_val_exec(inp[e]) < 10
        invariant
            pos <= e <= inp@.len(),
            s == inp@.skip(pos as int),
            digit_run_len(s) == (e - pos) + digit_run_len(inp@.skip(e as int)),
            forall|j: int| pos <= j < e ==> is_digit(inp@[j]),
        decreases inp@.len() - e,
    {
        proof {
            let t = inp@.skip(e as int);
            assert(t[0] == inp@[e as int]);
            assert(t.drop_first() =~= inp@.skip(e + 1));
        }
        e += 1;
    }
    proof {
        let t = inp@.skip(e as int);
        if e < inp@.len() {
            assert(t[0] == inp@[e as int]);
            assert(!is_digit(t[0]));
        }
        assert(digit_run_len(t) == 0);
        assert(digit_run_len(s) == e - pos);
    }
    if e == pos {
        return None;
    }
    let ghost d_all = s.take((e - pos) as int);
    proof {
        assert forall|j: int| 0 <= j < d_all.len() implies is_digit(d_all[j]) by {
            assert(d_all[j] == inp@[pos + j]);
        }
    }
    // Accumulate the value with an overflow check.
    let mut acc: u64 = 0;
    let mut i: usize = pos;
    while i < e
        invariant
            pos <= i <= e <= inp@.len(),
            s == inp@.skip(pos as int),
            digit_run_len(s) == e - pos,
            e > pos,
            d_all == s.take((e - pos) as int),
            d_all.len() == e - pos,
            forall|j: int| 0 <= j < d_all.len() ==> is_digit(d_all[j]),
            forall|j: int| pos <= j < e ==> is_digit(inp@[j]) && d_all[j - pos] == inp@[j],
            acc == digits_val(d_all.take((i - pos) as int)),
        decreases e - i,
    {
        let d = digit_val_exec(inp[i]);
        proof {
            assert(d_all.take((i - pos) + 1).drop_last() =~= d_all.take((i - pos) as int));
            assert(d_all.take((i - pos) + 1).last() == inp@[i as int]);
            assert(digits_val(d_all.take((i - pos) + 1)) == acc * 10 + d);
        }
        if acc > (u64::MAX - d) / 10 {
            proof {
                vstd::arithmetic::div_mod::lemma_fundamental_div_mod((u64::MAX - d) as int, 10);
                assert(acc * 10 + d > u64::MAX) by (nonlinear_arith)
                    requires
                        acc > ((u64::MAX - d) as u64 / 10),
                        0 <= d < 10,
                ;
                lemma_digits_val_monotone(d_all, (i - pos) + 1, d_all.len() as int);
                assert(d_all.take(d_all.len() as int) =~= d_all);
                assert(digits_val(d_all) > u64::MAX);
                assert(sp_parse_u64(s) is None);
            }
            return None;
        }
        proof {
            vstd::arithmetic::div_mod::lemma_fundamental_div_mod((u64::MAX - d) as int, 10);
            assert(acc * 10 + d <= u64::MAX) by (nonlinear_arith)
                requires
                    acc <= ((u64::MAX - d) as u64 / 10),
                    0 <= d < 10,
            ;
        }
        acc = acc * 10 + d;
        i += 1;
    }
    proof {
        assert(d_all.take((e - pos) as int) =~= d_all);
        assert(digits_val(d_all) == acc);
        assert(s.skip((e - pos) as int) =~= inp@.skip(e as int));
    }
    Some((acc, e))
}

/// Consumes a signed decimal number at `pos`.
fn parse_i64(inp: &Vec<char>, pos: usize) -> (r: Option<(i64, usize)>)
    requires
        pos <= inp@.len(),
    ensures
        match r {
            Some((v, p2)) => pos <= p2 <= inp@.len() && sp_parse_i64(inp@.skip(pos as int)) == Some(
                (v, inp@.skip(p2 as int)),
            ),
            None => sp_parse_i64(inp@.skip(pos as int)) is None,
        },
{
    let ghost s = inp@.skip(pos as int);
    if pos < inp.len() && inp[pos] == '-' {
        proof {
            assert(s[0] == '-');
            assert(s.drop_first() =~= inp@.skip(pos + 1));
        }
        match parse_u64(inp, pos + 1) {
            Some((v, p2)) => {
                if v <= 9223372036854775808u64 {
                    let w: i64 = if v == 9223372036854775808u64 {
                        i64::MIN
                    } else {
                        -(v as i64)
                    };
                    proof {
                        assert(w == (-(v as int)) as i64);
                    }
                    Some((w, p2))
                } else {
                    None
                }
            },
            None => None,
        }
    } else {
        proof {
            if s.len() > 0 {
                assert(s[0] == inp@[pos as int]);
            }
        }
        match parse_u64(inp, pos) {
            Some((v, p2)) => {
                if v <= 9223372036854775807u64 {
                    Some((v as i64, p2))
                } else {
                    None
                }
            },
            None => None,
        }
    }
}

// ---------------------------------------------------------------------------
// Users
// ---------------------------------------------------------------------------
/// A serialized user object.
pub open spec fn ser_user(u: UserView) -> Seq<char> {
    "{\"name\":"@ + ser_string(u.name) + ",\"email\":"@ + ser_string(u.email)
        + ",\"deactivate\":"@ + ser_bool(u.deactivate) + "}"@
}

/// Consumes a user object.
pub open spec fn sp_parse_user(s: Seq<char>) -> Option<(UserView, Seq<char>)> {
    match sp_parse_lit(s, "{\"name\":"@) {
        None => None,
        Some(s1) => match sp_parse_string(s1) {
            None => None,
            Some((name, s2)) => match sp_parse_lit(s2, ",\"email\":"@) {
                None => None,
                Some(s3) => match sp_parse_string(s3) {
                    None => None,
                    Some((email, s4)) => match sp_parse_lit(s4, ",\"deactivate\":"@) {
                        None => None,
                        Some(s5) => match sp_parse_bool(s5) {
                            None => None,
                            Some((d, s6)) => match sp_parse_lit(s6, "}"@) {
                                None => None,
                                Some(s7) => Some(
                                    (UserView { name: name, email: email, deactivate: d }, s7),
                                ),
                            },
                        },
                    },
                },
            },
        },
    }
}

/// A serialized user parses back to itself.
proof fn lemma_rt_user(u: UserView, rest: Seq<char>)
    ensures
        sp_parse_user(ser_user(u) + rest) == Some((u, rest)),
        ser_user(u).len() >= 1,
        (ser_user(u) + rest)[0] == '{',
{
    reveal_strlit("{\"name\":");
    let t4 = "}"@ + rest;
    let t3b = ser_bool(u.deactivate) + t4;
    let t3 = ",\"deactivate\":"@ + t3b;
    let t2b = ser_string(u.email) + t3;
    let t2 = ",\"email\":"@ + t2b;
    let t1b = ser_string(u.name) + t2;
    let t1 = "{\"name\":"@ + t1b;
    assert(ser_user(u) + rest =~= t1);
    lemma_rt_lit("{\"name\":"@, t1b);
    lemma_rt_string(u.name, t2);
    lemma_rt_lit(",\"email\":"@, t2b);
    lemma_rt_string(u.email, t3);
    lemma_rt_lit(",\"deactivate\":"@, t3b);
    lemma_rt_bool(u.deactivate, t4);
    lemma_rt_lit("}"@, rest);
    assert((ser_user(u) + rest)[0] == '{');
}

/// The serialized tail of a user list: either the closing bracket or a comma
/// followed by a user and the rest.
pub open spec fn ser_users_rest(l: Seq<UserView>) -> Seq<char>
    decreases l.len(),
{
    if l.len() == 0 {
        "]"@
    } else {
        ","@ + ser_user(l[0]) + ser_users_rest(l.drop_first())
    }
}

/// The serialized body of a user list, after the opening bracket.
pub open spec fn ser_users_body(l: Seq<UserView>) -> Seq<char> {
    if l.len() == 0 {
        "]"@
    } else {
        ser_user(l[0]) + ser_users_rest(l.drop_first())
    }
}

/// Consumes the tail of a user list.
pub open spec fn sp_parse_users_rest(s: Seq<char>) -> Option<(Seq<UserView>, Seq<char>)>
    decreases s.len(),
{
    match sp_parse_lit(s, "]"@) {
        Some(r) => Some((Seq::empty(), r)),
        None => match sp_parse_lit(s, ","@) {
            None => None,
            Some(s1) => match sp_parse_user(s1) {
                None => None,
                Some((u, s2)) => if s2.len() < s.len() {
                    match sp_parse_users_rest(s2) {
                        None => None,
                        Some((us, r)) => Some((seq![u] + us, r)),
                    }
                } else {
                    None
                },
            },
        },
    }
}

/// Consumes a user list, after the opening bracket.
pub open spec fn sp_parse_users(s: Seq<char>) -> Option<(Seq<UserView>, Seq<char>)> {
    match sp_parse_lit(s, "]"@) {
        Some(r) => Some((Seq::empty(), r)),
        None => match sp_parse_user(s) {
            None => None,
            Some((u, s1)) => if s1.len() < s.len() {
                match sp_parse_users_rest(s1) {
                    None => None,
                    Some((us, r)) => Some((seq![u] + us, r)),
                }
            } else {
                None
            },
        },
    }
}

/// A serialized user-list tail parses back to itself.
#[verifier::rlimit(100)]
proof fn lemma_rt_users_rest(l: Seq<UserView>, rest: Seq<char>)
    ensures
        sp_parse_users_rest(ser_users_rest(l) + rest) == Some((l, rest)),
    decreases l.len(),
{
    reveal_strlit("]");
    reveal_strlit(",");
    if l.len() == 0 {
        lemma_rt_lit("]"@, rest);
    } else {
        let tail = l.drop_first();
        let t2 = ser_users_rest(tail) + rest;
        let t1 = ser_user(l[0]) + t2;
        let s = ","@ + t1;
        assert(ser_users_rest(l) + rest =~= s);
        assert(s[0] == ',');
        if s.len() >= 1 {
            assert(s.take(1)[0] == ',');
            assert(s.take(1) != "]"@);
        }
        lemma_rt_lit(","@, t1);
        lemma_rt_user(l[0], t2);
        assert(t2.len() < t1.len());
        assert(t1.len() < s.len());
        lemma_rt_users_rest(tail, rest);
        assert(seq![l[0]] + tail =~= l);
    }
}

/// A serialized user-list body parses back to itself.
#[verifier::rlimit(100)]
proof fn lemma_rt_users(l: Seq<UserView>, rest: Seq<char>)
    ensures
        sp_parse_users(ser_users_body(l) + rest) == Some((l, rest)),
{
    reveal_strlit("]");
    if l.len() == 0 {
        lemma_rt_lit("]"@, rest);
    } else {
        let tail = l.drop_first();
        let t2 = ser_users_rest(tail) + rest;
        let s = ser_user(l[0]) + t2;
        assert(ser_users_body(l) + rest =~= s);
        lemma_rt_user(l[0], t2);
        assert(s[0] == '{');
        if s.len() >= 1 {
            assert(s.take(1)[0] == '{');
            assert(s.take(1) != "]"@);
        }
        assert(t2.len() < s.len());
        lemma_rt_users_rest(tail, rest);
        assert(seq![l[0]] + tail =~= l);
    }
}

/// A serialized optional user list: `null` or a bracketed list.
pub open spec fn ser_opt_users(o: Option<Seq<UserView>>) -> Seq<char> {
    match o {
        None => "null"@,
        Some(l) => "["@ + ser_users_body(l),
    }
}

/// Consumes `null` or a bracketed user list.
pub open spec fn sp_parse_opt_users(s: Seq<char>) -> Option<(Option<Seq<UserView>>, Seq<char>)> {
    match sp_parse_lit(s, "null"@) {
        Some(r) => Some((None, r)),
        None => match sp_parse_lit(s, "["@) {
            None => None,
            Some(s1) => match sp_parse_users(s1) {
                None => None,
                Some((us, r)) => Some((Some(us), r)),
            },
        },
    }
}

/// A serialized optional user list parses back to itself.
proof fn lemma_rt_opt_users(o: Option<Seq<UserView>>, rest: Seq<char>)
    ensures
        sp_parse_opt_users(ser_opt_users(o) + rest) == Some((o, rest)),
{
    reveal_strlit("null");
    reveal_strlit("[");
    reveal_strlit("]");
    match o {
        None => {
            lemma_rt_lit("null"@, rest);
        },
        Some(l) => {
            let t1 = ser_users_body(l) + rest;
            let s = "["@ + t1;
            assert(ser_opt_users(o) + rest =~= s);
            assert(s[0] == '[');
            if l.len() == 0 {
                assert(ser_users_body(l) == "]"@);
                assert(s[0] == '[');
            } else {
                lemma_rt_user(l[0], ser_users_rest(l.drop_first()) + rest);
            }
            if s.len() >= 4 {
                assert(s.take(4)[0] == '[');
                assert(s.take(4) != "null"@);
            }
            lemma_rt_lit("["@, t1);
            lemma_rt_users(l, rest);
        },
    }
}

/// Consumes a user object at `pos`.
fn parse_user(inp: &Vec<char>, pos: usize) -> (r: Option<(User, usize)>)
    requires
        pos <= inp@.len(),
    ensures
        match r {
            Some((u, p2)) => pos <= p2 <= inp@.len() && sp_parse_user(inp@.skip(pos as int))
                == Some((u@, inp@.skip(p2 as int))),
            None => sp_parse_user(inp@.skip(pos as int)) is None,
        },
{
    let p1 = match parse_lit(inp, pos, "{\"name\":") {
        Some(p) => p,
        None => {
            return None;
        },
    };
    let (name, p2) = match parse_string(inp, p1) {
        Some(v) => v,
        None => {
            return None;
        },
    };
    let p3 = match parse_lit(inp, p2, ",\"email\":") {
        Some(p) => p,
        None => {
            return None;
        },
    };
    let (email, p4) = match parse_string(inp, p3) {
        Some(v) => v,
        None => {
            return None;
        },
    };
    let p5 = match parse_lit(inp, p4, ",\"deactivate\":") {
        Some(p) => p,
        None => {
            return None;
        },
    };
    let (d, p6) = match parse_bool(inp, p5) {
        Some(v) => v,
        None => {
            return None;
        },
    };
    let p7 = match parse_lit(inp, p6, "}") {
        Some(p) => p,
        None => {
            return None;
        },
    };
    let u = User {
        name: string_from_chars(&name),
        email: string_from_chars(&email),
        deactivate: d,
    };
    Some((u, p7))
}

/// Appends a serialized user object.
fn append_user(out: &mut Vec<char>, u: &User)
    ensures
        final(out)@ == old(out)@ + ser_user(u@),
{
    append_lit(out, "{\"name\":");
    append_string(out, u.name.as_str());
    append_lit(out, ",\"email\":");
    append_string(out, u.email.as_str());
    append_lit(out, ",\"deactivate\":");
    append_bool(out, u.deactivate);
    append_lit(out, "}");
    proof {
        assert(out@ =~= old(out)@ + ser_user(u@));
    }
}

/// Appends a serialized user list, brackets included.
fn append_users(out: &mut Vec<char>, l: &Vec<User>)
    ensures
        final(out)@ == old(out)@ + "["@ + ser_users_body(l@.map(|i: int, u: User| u@)),
{
    let ghost lv = l@.map(|i: int, u: User| u@);
    append_lit(out, "[");
    if l.len() == 0 {
        append_lit(out, "]");
        proof {
            assert(out@ =~= old(out)@ + "["@ + ser_users_body(lv));
        }
        return ;
    }
    append_user(out, &l[0]);
    let ghost mid = out@;
    let mut i: usize = 1;
    while i < l.len()
        invariant
            1 <= i <= l@.len(),
            lv == l@.map(|j: int, u: User| u@),
            lv.len() == l@.len(),
            forall|j: int| 0 <= j < l@.len() ==> lv[j] == l@[j]@,
            out@ == mid + rest_emitted(lv, 1, i as int),
        decreases l@.len() - i,
    {
        append_lit(out, ",");
        append_user(out, &l[i]);
        proof {
            assert(lv[i as int] == l@[i as int]@);
            assert(out@ =~= mid + rest_emitted(lv, 1, i + 1));
        }
        i += 1;
    }
    append_lit(out, "]");
    proof {
        lemma_rest_emitted_full(lv, 1);
        assert(out@ =~= old(out)@ + "["@ + ser_users_body(lv));
    }
}

/// The serialized commas-and-users between positions `from` and `to` of a
/// user list.
pub open spec fn rest_emitted(l: Seq<UserView>, from: int, to: int) -> Seq<char>
    decreases to - from,
{
    if from >= to {
        Seq::empty()
    } else {
        rest_emitted(l, from, to - 1) + ","@ + ser_user(l[to - 1])
    }
}

/// Emitting every tail element and the closing bracket yields the serialized
/// list tail.
proof fn lemma_rest_emitted_full(l: Seq<UserView>, from: int)
    requires
        0 <= from <= l.len(),
    ensures
        rest_emitted(l, from, l.len() as int) + "]"@ == ser_users_rest(l.skip(from)),
    decreases l.len() - from,
{
    if from == l.len() {
        assert(l.skip(from) =~= Seq::<UserView>::empty());
        assert(rest_emitted(l, from, from) + "]"@ =~= "]"@);
    } else {
        lemma_rest_emitted_prefix(l, from, from + 1, l.len() as int);
        lemma_rest_emitted_full(l, from + 1);
        let t = l.skip(from);
        assert(t.len() > 0);
        assert(t[0] == l[from]);
        assert(t.drop_first() =~= l.skip(from + 1));
        assert(ser_users_rest(t) == ","@ + ser_user(l[from]) + ser_users_rest(l.skip(from + 1)));
        assert(rest_emitted(l, from, l.len() as int) + "]"@ =~= ","@ + ser_user(l[from]) + (
        rest_emitted(l, from + 1, l.len() as int) + "]"@));
    }
}

/// Peeling the first emitted element off a span of emitted elements.
proof fn lemma_rest_emitted_prefix(l: Seq<UserView>, from: int, mid: int, to: int)
    requires
        0 <= from < mid <= to <= l.len(),
        mid == from + 1,
    ensures
        rest_emitted(l, from, to) =~= ","@ + ser_user(l[from]) + rest_emitted(l, mid, to),
    decreases to - mid,
{
    if mid == to {
        assert(rest_emitted(l, from, from) == Seq::<char>::empty());
        assert(rest_emitted(l, from, to) =~= ","@ + ser_user(l[from]));
    } else {
        lemma_rest_emitted_prefix(l, from, mid, to - 1);
        assert(rest_emitted(l, from, to) =~= ","@ + ser_user(l[from]) + rest_emitted(l, mid, to));
    }
}

/// Consumes a user list (after its opening bracket) at `pos`.
fn parse_users(inp: &Vec<char>, pos: usize) -> (r: Option<(Vec<User>, usize)>)
    requires
        pos <= inp@.len(),
    ensures
        match r {
            Some((l, p2)) => pos <= p2 <= inp@.len() && sp_parse_users(inp@.skip(pos as int))
                == Some((l@.map(|i: int, u: User| u@), inp@.skip(p2 as int))),
            None => sp_parse_users(inp@.skip(pos as int)) is None,
        },
{
    match parse_lit(inp, pos, "]") {
        Some(p2) => {
            let l: Vec<User> = Vec::new();
            proof {
                assert(l@.map(|i: int, u: User| u@) =~= Seq::<UserView>::empty());
            }
            return Some((l, p2));
        },
        None => {},
    }
    let (u0, p1) = match parse_user(inp, pos) {
        Some(v) => v,
        None => {
            return None;
        },
    };
    if p1 == pos {
        proof {
            assert(inp@.skip(p1 as int).len() == inp@.skip(pos as int).len());
        }
        return None;
    }
    let mut acc: Vec<User> = Vec::new();
    acc.push(u0);
    let mut cur: usize = p1;
    proof {
        assert(inp@.skip(p1 as int).len() < inp@.skip(pos as int).len());
    }
    loop
        invariant
            pos <= cur <= inp@.len(),
            (sp_parse_users_rest(inp@.skip(cur as int)) matches Some(ur) ==> sp_parse_users(
                inp@.skip(pos as int),
            ) == Some((acc@.map(|i: int, u: User| u@) + ur.0, ur.1))),
            (sp_parse_users_rest(inp@.skip(cur as int)) is None ==> sp_parse_users(
                inp@.skip(pos as int),
            ) is None),
        decreases inp@.len() - cur,
    {
        match parse_lit(inp, cur, "]") {
            Some(p2) => {
                proof {
                    assert(sp_parse_users_rest(inp@.skip(cur as int)) == Some(
                        (Seq::<UserView>::empty(), inp@.skip(p2 as int)),
                    ));
                    assert(acc@.map(|i: int, u: User| u@) + Seq::<UserView>::empty() =~= acc@.map(
                        |i: int, u: User| u@,
                    ));
                }
                return Some((acc, p2));
            },
            None => {},
        }
        let p2 = match parse_lit(inp, cur, ",") {
            Some(p) => p,
            None => {
                return None;
            },
        };
        let (u, p3) = match parse_user(inp, p2) {
            Some(v) => v,
            None => {
                return None;
            },
        };
        proof {
            reveal_strlit(",");
            assert(p2 == cur + 1);
            assert(p3 > cur);
            assert(inp@.skip(p3 as int).len() < inp@.skip(cur as int).len());
        }
        let ghost acc0 = acc@.map(|i: int, u2: User| u2@);
        let ghost uv = u@;
        acc.push(u);
        proof {
            assert(acc@.map(|i: int, u2: User| u2@) =~= acc0.push(uv));
            assert forall|us: Seq<UserView>| true implies acc0 + (seq![uv] + us) =~= acc0.push(uv)
                + us by {}
        }
        cur = p3;
    }
}

/// Consumes `null` or a bracketed user list at `pos`.
fn parse_opt_users(inp: &Vec<char>, pos: usize) -> (r: Option<(Option<Vec<User>>, usize)>)
    requires
        pos <= inp@.len(),
    ensures
        match r {
            Some((o, p2)) => pos <= p2 <= inp@.len() && sp_parse_opt_users(inp@.skip(pos as int))
                == Some(
                (
                    match o {
                        Some(l) => Some(l@.map(|i: int, u: User| u@)),
                        None => None,
                    },
                    inp@.skip(p2 as int),
                ),
            ),
            None => sp_parse_opt_users(inp@.skip(pos as int)) is None,
        },
{
    match parse_lit(inp, pos, "null") {
        Some(p2) => {
            return Some((None, p2));
        },
        None => {},
    }
    let p1 = match parse_lit(inp, pos, "[") {
        Some(p) => p,
        None => {
            return None;
        },
    };
    match parse_users(inp, p1) {
        Some((l, p2)) => Some((Some(l), p2)),
        None => None,
    }
}

/// Appends `null` or a serialized user list.
fn append_opt_users(out: &mut Vec<char>, o: &Option<Vec<User>>)
    ensures
        final(out)@ == old(out)@ + ser_opt_users(
            match o {
                Some(l) => Some(l@.map(|i: int, u: User| u@)),
                None => None,
            },
        ),
{
    match o {
        None => {
            append_lit(out, "null");
        },
        Some(l) => {
            append_users(out, l);
            proof {
                assert(out@ =~= old(out)@ + ser_opt_users(Some(l@.map(|i: int, u: User| u@))));
            }
        },
    }
}

// ---------------------------------------------------------------------------
// Optional timestamps
// ---------------------------------------------------------------------------
/// A serialized optional timestamp: `null` or a signed number.
pub open spec fn ser_opt_i64(o: Option<i64>) -> Seq<char> {
    match o {
        None => "null"@,
        Some(n) => ser_i64(n),
    }
}

/// Consumes `null` or a signed number.
pub open spec fn sp_parse_opt_i64(s: Seq<char>) -> Option<(Option<i64>, Seq<char>)> {
    match sp_parse_lit(s, "null"@) {
        Some(r) => Some((None, r)),
        None => match sp_parse_i64(s) {
            None => None,
            Some((n, r)) => Some((Some(n), r)),
        },
    }
}

/// A serialized optional timestamp parses back to itself.
proof fn lemma_rt_opt_i64(o: Option<i64>, rest: Seq<char>)
    requires
        rest.len() > 0 ==> !is_digit(rest[0]),
    ensures
        sp_parse_opt_i64(ser_opt_i64(o) + rest) == Some((o, rest)),
{
    reveal_strlit("null");
    match o {
        None => {
            lemma_rt_lit("null"@, rest);
        },
        Some(n) => {
            let s = ser_i64(n) + rest;
            if n >= 0 {
                lemma_dec_rep_digits(n as nat);
                assert(s[0] == dec_rep(n as nat)[0]);
                assert(is_digit(s[0]));
                assert(s[0] != 'n');
            } else {
                assert(ser_i64(n)[0] == '-');
                assert(s[0] == '-');
            }
            if s.len() >= 4 {
                assert(s.take(4)[0] == s[0]);
                assert(s.take(4) != "null"@);
            }
            lemma_rt_i64(n, rest);
        },
    }
}

/// Consumes `null` or a signed number at `pos`.
fn parse_opt_i64(inp: &Vec<char>, pos: usize) -> (r: Option<(Option<i64>, usize)>)
    requires
        pos <= inp@.len(),
    ensures
        match r {
            Some((o, p2)) => pos <= p2 <= inp@.len() && sp_parse_opt_i64(inp@.skip(pos as int))
                == Some((o, inp@.skip(p2 as int))),
            None => sp_parse_opt_i64(inp@.skip(pos as int)) is None,
        },
{
    match parse_lit(inp, pos, "null") {
        Some(p2) => {
            return Some((None, p2));
        },
        None => {},
    }
    match parse_i64(inp, pos) {
        Some((n, p2)) => Some((Some(n), p2)),
        None => None,
    }
}

/// Appends `null` or a signed number.
fn append_opt_i64(out: &mut Vec<char>, o: Option<i64>)
    ensures
        final(out)@ == old(out)@ + ser_opt_i64(o),
{
    match o {
        None => {
            append_lit(out, "null");
        },
        Some(n) => {
            append_i64(out, n);
        },
    }
}

// ---------------------------------------------------------------------------
// Status
// ---------------------------------------------------------------------------
/// A serialized status.
pub open spec fn ser_status(st: Status) -> Seq<char> {
    match st {
        Status::Open => "\"Open\""@,
        Status::Closed(Resolution::Resolved) => "{\"Closed\":\"Resolved\"}"@,
        Status::Closed(Resolution::Unresolved) => "{\"Closed\":\"UnResolved\"}"@,
        Status::MarkedForDeletion(n) => "{\"MarkedForDeletion\":"@ + dec_rep(n as nat) + "}"@,
    }
}

/// Consumes a status.
pub open spec fn sp_parse_status(s: Seq<char>) -> Option<(Status, Seq<char>)> {
    match sp_parse_lit(s, "\"Open\""@) {
        Some(r) => Some((Status::Open, r)),
        None => match sp_parse_lit(s, "{\"Closed\":\"Resolved\"}"@) {
            Some(r) => Some((Status::Closed(Resolution::Resolved), r)),
            None => match sp_parse_lit(s, "{\"Closed\":\"UnResolved\"}"@) {
                Some(r) => Some((Status::Closed(Resolution::Unresolved), r)),
                None => match sp_parse_lit(s, "{\"MarkedForDeletion\":"@) {
                    None => None,
                    Some(s1) => match sp_parse_u64(s1) {
                        None => None,
                        Some((n, s2)) => match sp_parse_lit(s2, "}"@) {
                            None => None,
                            Some(r) => Some((Status::MarkedForDeletion(n), r)),
                        },
                    },
                },
            },
        },
    }
}

/// A serialized status parses back to itself.
proof fn lemma_rt_status(st: Status, rest: Seq<char>)
    ensures
        sp_parse_status(ser_status(st) + rest) == Some((st, rest)),
{
    reveal_strlit("\"Open\"");
    reveal_strlit("{\"Closed\":\"Resolved\"}");
    reveal_strlit("{\"Closed\":\"UnResolved\"}");
    reveal_strlit("{\"MarkedForDeletion\":");
    reveal_strlit("}");
    let s = ser_status(st) + rest;
    match st {
        Status::Open => {
            lemma_rt_lit("\"Open\""@, rest);
        },
        Status::Closed(Resolution::Resolved) => {
            assert(s[0] == '{');
            if s.len() >= 6 {
                assert(s.take(6)[0] == '{');
                assert(s.take(6) != "\"Open\""@);
            }
            lemma_rt_lit("{\"Closed\":\"Resolved\"}"@, rest);
        },
        Status::Closed(Resolution::Unresolved) => {
            assert(s[0] == '{');
            if s.len() >= 6 {
                assert(s.take(6)[0] == '{');
                assert(s.take(6) != "\"Open\""@);
            }
            assert(s[11] == 'U');
            if s.len() >= 21 {
                assert(s.take(21)[11] == 'U');
                assert(s.take(21) != "{\"Closed\":\"Resolved\"}"@);
            }
            lemma_rt_lit("{\"Closed\":\"UnResolved\"}"@, rest);
        },
        Status::MarkedForDeletion(n) => {
            let t1 = dec_rep(n as nat) + ("}"@ + rest);
            assert(s =~= "{\"MarkedForDeletion\":"@ + t1);
            assert(s[0] == '{');
            assert(s[2] == 'M');
            if s.len() >= 6 {
                assert(s.take(6)[0] == '{');
                assert(s.take(6) != "\"Open\""@);
            }
            if s.len() >= 21 {
                assert(s.take(21)[2] == 'M');
                assert(s.take(21) != "{\"Closed\":\"Resolved\"}"@);
            }
            if s.len() >= 23 {
                assert(s.take(23)[2] == 'M');
                assert(s.take(23) != "{\"Closed\":\"UnResolved\"}"@);
            }
            lemma_rt_lit("{\"MarkedForDeletion\":"@, t1);
            assert(("}"@ + rest)[0] == '}');
            assert(!is_digit('}'));
            lemma_rt_u64(n, "}"@ + rest);
            lemma_rt_lit("}"@, rest);
        },
    }
}

/// Consumes a status at `pos`.
fn parse_status(inp: &Vec<char>, pos: usize) -> (r: Option<(Status, usize)>)
    requires
        pos <= inp@.len(),
    ensures
        match r {
            Some((st, p2)) => pos <= p2 <= inp@.len() && sp_parse_status(inp@.skip(pos as int))
                == Some((st, inp@.skip(p2 as int))),
            None => sp_parse_status(inp@.skip(pos as int)) is None,
        },
{
    match parse_lit(inp, pos, "\"Open\"") {
        Some(p2) => {
            return Some((Status::Open, p2));
        },
        None => {},
    }
    match parse_lit(inp, pos, "{\"Closed\":\"Resolved\"}") {
        Some(p2) => {
            return Some((Status::Closed(Resolution::Resolved), p2));
        },
        None => {},
    }
    match parse_lit(inp, pos, "{\"Closed\":\"UnResolved\"}") {
        Some(p2) => {
            return Some((Status::Closed(Resolution::Unresolved), p2));
        },
        None => {},
    }
    let p1 = match parse_lit(inp, pos, "{\"MarkedForDeletion\":") {
        Some(p) => p,
        None => {
            return None;
        },
    };
    let (n, p2) = match parse_u64(inp, p1) {
        Some(v) => v,
        None => {
            return None;
        },
    };
    match parse_lit(inp, p2, "}") {
        Some(p3) => Some((Status::MarkedForDeletion(n), p3)),
        None => None,
    }
}

/// Appends a serialized status.
fn append_status(out: &mut Vec<char>, st: Status)
    ensures
        final(out)@ == old(out)@ + ser_status(st),
{
    match st {
        Status::Open => {
            append_lit(out, "\"Open\"");
        },
        Status::Closed(Resolution::Resolved) => {
            append_lit(out, "{\"Closed\":\"Resolved\"}");
        },
        Status::Closed(Resolution::Unresolved) => {
            append_lit(out, "{\"Closed\":\"UnResolved\"}");
        },
        Status::MarkedForDeletion(n) => {
            append_lit(out, "{\"MarkedForDeletion\":");
            append_u64(out, n);
            append_lit(out, "}");
            proof {
                assert(out@ =~= old(out)@ + ser_status(st));
            }
        },
    }
}

// ---------------------------------------------------------------------------
// Messages
// ---------------------------------------------------------------------------
/// A serialized message object.
pub open spec fn ser_message(m: MessageView) -> Seq<char> {
    "{\"message\":"@ + ser_string(m.message) + ",\"show\":"@ + ser_bool(m.show)
        + ",\"created_at\":"@ + ser_i64(m.created_at) + ",\"author\":"@ + ser_user(m.author)
        + "}"@
}

/// Consumes a message object.
pub open spec fn sp_parse_message(s: Seq<char>) -> Option<(MessageView, Seq<char>)> {
    match sp_parse_lit(s, "{\"message\":"@) {
        None => None,
        Some(s1) => match sp_parse_string(s1) {
            None => None,
            Some((msg, s2)) => match sp_parse_lit(s2, ",\"show\":"@) {
                None => None,
                Some(s3) => match sp_parse_bool(s3) {
                    None => None,
                    Some((sh, s4)) => match sp_parse_lit(s4, ",\"created_at\":"@) {
                        None => None,
                        Some(s5) => match sp_parse_i64(s5) {
                            None => None,
                            Some((t, s6)) => match sp_parse_lit(s6, ",\"author\":"@) {
                                None => None,
                                Some(s7) => match sp_parse_user(s7) {
                                    None => None,
                                    Some((a, s8)) => match sp_parse_lit(s8, "}"@) {
                                        None => None,
                                        Some(s9) => Some(
                                            (
                                                MessageView {
                                                    message: msg,
                                                    show: sh,
                                                    created_at: t,
                                                    author: a,
                                                },
                                                s9,
                                            ),
                                        ),
                                    },
                                },
                            },
                        },
                    },
                },
            },
        },
    }
}

/// A serialized message parses back to itself.
#[verifier::rlimit(100)]
proof fn lemma_rt_message(m: MessageView, rest: Seq<char>)
    ensures
        sp_parse_message(ser_message(m) + rest) == Some((m, rest)),
        (ser_message(m) + rest)[0] == '{',
{
    reveal_strlit("{\"message\":");
    reveal_strlit(",\"author\":");
    let t5 = "}"@ + rest;
    let t4b = ser_user(m.author) + t5;
    let t4 = ",\"author\":"@ + t4b;
    let t3b = ser_i64(m.created_at) + t4;
    let t3 = ",\"created_at\":"@ + t3b;
    let t2b = ser_bool(m.show) + t3;
    let t2 = ",\"show\":"@ + t2b;
    let t1b = ser_string(m.message) + t2;
    let t1 = "{\"message\":"@ + t1b;
    assert(ser_message(m) + rest =~= t1);
    lemma_rt_lit("{\"message\":"@, t1b);
    lemma_rt_string(m.message, t2);
    lemma_rt_lit(",\"show\":"@, t2b);
    lemma_rt_bool(m.show, t3);
    lemma_rt_lit(",\"created_at\":"@, t3b);
    assert(t4[0] == ',');
    assert(!is_digit(','));
    lemma_rt_i64(m.created_at, t4);
    lemma_rt_lit(",\"author\":"@, t4b);
    lemma_rt_user(m.author, t5);
    lemma_rt_lit("}"@, rest);
    assert((ser_message(m) + rest)[0] == '{');
}

/// The serialized tail of a message list.
pub open spec fn ser_msgs_rest(l: Seq<MessageView>) -> Seq<char>
    decreases l.len(),
{
    if l.len() == 0 {
        "]"@
    } else {
        ","@ + ser_message(l[0]) + ser_msgs_rest(l.drop_first())
    }
}

/// The serialized body of a message list, after the opening bracket.
pub open spec fn ser_msgs_body(l: Seq<MessageView>) -> Seq<char> {
    if l.len() == 0 {
        "]"@
    } else {
        ser_message(l[0]) + ser_msgs_rest(l.drop_first())
    }
}

/// Consumes the tail of a message list.
pub open spec fn sp_parse_msgs_rest(s: Seq<char>) -> Option<(Seq<MessageView>, Seq<char>)>
    decreases s.len(),
{
    match sp_parse_lit(s, "]"@) {
        Some(r) => Some((Seq::empty(), r)),
        None => match sp_parse_lit(s, ","@) {
            None => None,
            Some(s1) => match sp_parse_message(s1) {
                None => None,
                Some((m, s2)) => if s2.len() < s.len() {
                    match sp_parse_msgs_rest(s2) {
                        None => None,
                        Some((ms, r)) => Some((seq![m] + ms, r)),
                    }
                } else {
                    None
                },
            },
        },
    }
}

/// Consumes a message list, after the opening bracket.
pub open spec fn sp_parse_msgs(s: Seq<char>) -> Option<(Seq<MessageView>, Seq<char>)> {
    match sp_parse_lit(s, "]"@) {
        Some(r) => Some((Seq::empty(), r)),
        None => match sp_parse_message(s) {
            None => None,
            Some((m, s1)) => if s1.len() < s.len() {
                match sp_parse_msgs_rest(s1) {
                    None => None,
                    Some((ms, r)) => Some((seq![m] + ms, r)),
                }
            } else {
                None
            },
        },
    }
}

/// A serialized message-list tail parses back to itself.
#[verifier::rlimit(100)]
proof fn lemma_rt_msgs_rest(l: Seq<MessageView>, rest: Seq<char>)
    ensures
        sp_parse_msgs_rest(ser_msgs_rest(l) + rest) == Some((l, rest)),
    decreases l.len(),
{
    reveal_strlit("]");
    reveal_strlit(",");
    if l.len() == 0 {
        lemma_rt_lit("]"@, rest);
    } else {
        let tail = l.drop_first();
        let t2 = ser_msgs_rest(tail) + rest;
        let t1 = ser_message(l[0]) + t2;
        let s = ","@ + t1;
        assert(ser_msgs_rest(l) + rest =~= s);
        assert(s[0] == ',');
        if s.len() >= 1 {
            assert(s.take(1)[0] == ',');
            assert(s.take(1) != "]"@);
        }
        lemma_rt_lit(","@, t1);
        lemma_rt_message(l[0], t2);
        assert(t2.len() < t1.len());
        assert(t1.len() < s.len());
        lemma_rt_msgs_rest(tail, rest);
        assert(seq![l[0]] + tail =~= l);
    }
}

/// A serialized message-list body parses back to itself.
#[verifier::rlimit(100)]
proof fn lemma_rt_msgs(l: Seq<MessageView>, rest: Seq<char>)
    ensures
        sp_parse_msgs(ser_msgs_body(l) + rest) == Some((l, rest)),
    decreases l.len(),
{
    reveal_strlit("]");
    if l.len() == 0 {
        lemma_rt_lit("]"@, rest);
    } else {
        let tail = l.drop_first();
        let t2 = ser_msgs_rest(tail) + rest;
        let s = ser_message(l[0]) + t2;
        assert(ser_msgs_body(l) + rest =~= s);
        lemma_rt_message(l[0], t2);
        assert(s[0] == '{');
        if s.len() >= 1 {
            assert(s.take(1)[0] == '{');
            assert(s.take(1) != "]"@);
        }
        assert(t2.len() < s.len());
        lemma_rt_msgs_rest(tail, rest);
        assert(seq![l[0]] + tail =~= l);
    }
}

/// Consumes a message object at `pos`.
fn parse_message(inp: &Vec<char>, pos: usize) -> (r: Option<(Message, usize)>)
    requires
        pos <= inp@.len(),
    ensures
        match r {
            Some((m, p2)) => pos <= p2 <= inp@.len() && sp_parse_message(inp@.skip(pos as int))
                == Some((m@, inp@.skip(p2 as int))),
            None => sp_parse_message(inp@.skip(pos as int)) is None,
        },
{
    let p1 = match parse_lit(inp, pos, "{\"message\":") {
        Some(p) => p,
        None => {
            return None;
        },
    };
    let (msg, p2) = match parse_string(inp, p1) {
        Some(v) => v,
        None => {
            return None;
        },
    };
    let p3 = match parse_lit(inp, p2, ",\"show\":") {
        Some(p) => p,
        None => {
            return None;
        },
    };
    let (sh, p4) = match parse_bool(inp, p3) {
        Some(v) => v,
        None => {
            return None;
        },
    };
    let p5 = match parse_lit(inp, p4, ",\"created_at\":") {
        Some(p) => p,
        None => {
            return None;
        },
    };
    let (t, p6) = match parse_i64(inp, p5) {
        Some(v) => v,
        None => {
            return None;
        },
    };
    let p7 = match parse_lit(inp, p6, ",\"author\":") {
        Some(p) => p,
        None => {
            return None;
        },
    };
    let (a, p8) = match parse_user(inp, p7) {
        Some(v) => v,
        None => {
            return None;
        },
    };
    let p9 = match parse_lit(inp, p8, "}") {
        Some(p) => p,
        None => {
            return None;
        },
    };
    let m = Message { message: string_from_chars(&msg), show: sh, created_at: t, author: a };
    Some((m, p9))
}

/// Appends a serialized message object.
fn append_message(out: &mut Vec<char>, m: &Message)
    ensures
        final(out)@ == old(out)@ + ser_message(m@),
{
    append_lit(out, "{\"message\":");
    append_string(out, m.message.as_str());
    append_lit(out, ",\"show\":");
    append_bool(out, m.show);
    append_lit(out, ",\"created_at\":");
    append_i64(out, m.created_at);
    append_lit(out, ",\"author\":");
    append_user(out, &m.author);
    append_lit(out, "}");
    proof {
        assert(out@ =~= old(out)@ + ser_message(m@));
    }
}

/// The serialized commas-and-messages between positions `from` and `to` of a
/// message list.
pub open spec fn msgs_emitted(l: Seq<MessageView>, from: int, to: int) -> Seq<char>
    decreases to - from,
{
    if from >= to {
        Seq::empty()
    } else {
        msgs_emitted(l, from, to - 1) + ","@ + ser_message(l[to - 1])
    }
}

/// Peeling the first emitted message off a span of emitted messages.
proof fn lemma_msgs_emitted_prefix(l: Seq<MessageView>, from: int, mid: int, to: int)
    requires
        0 <= from < mid <= to <= l.len(),
        mid == from + 1,
    ensures
        msgs_emitted(l, from, to) =~= ","@ + ser_message(l[from]) + msgs_emitted(l, mid, to),
    decreases to - mid,
{
    if mid == to {
        assert(msgs_emitted(l, from, from) == Seq::<char>::empty());
        assert(msgs_emitted(l, from, to) =~= ","@ + ser_message(l[from]));
    } else {
        lemma_msgs_emitted_prefix(l, from, mid, to - 1);
        assert(msgs_emitted(l, from, to) =~= ","@ + ser_message(l[from]) + msgs_emitted(
            l,
            mid,
            to,
        ));
    }
}

/// Emitting every tail message and the closing bracket yields the serialized
/// list tail.
proof fn lemma_msgs_emitted_full(l: Seq<MessageView>, from: int)
    requires
        0 <= from <= l.len(),
    ensures
        msgs_emitted(l, from, l.len() as int) + "]"@ == ser_msgs_rest(l.skip(from)),
    decreases l.len() - from,
{
    if from == l.len() {
        assert(l.skip(from) =~= Seq::<MessageView>::empty());
        assert(msgs_emitted(l, from, from) + "]"@ =~= "]"@);
    } else {
        lemma_msgs_emitted_prefix(l, from, from + 1, l.len() as int);
        lemma_msgs_emitted_full(l, from + 1);
        let t = l.skip(from);
        assert(t.len() > 0);
        assert(t[0] == l[from]);
        assert(t.drop_first() =~= l.skip(from + 1));
        assert(ser_msgs_rest(t) == ","@ + ser_message(l[from]) + ser_msgs_rest(l.skip(from + 1)));
        assert(msgs_emitted(l, from, l.len() as int) + "]"@ =~= ","@ + ser_message(l[from]) + (
        msgs_emitted(l, from + 1, l.len() as int) + "]"@));
    }
}

/// Appends a serialized message list, brackets included.
fn append_msgs(out: &mut Vec<char>, l: &Vec<Message>)
    ensures
        final(out)@ == old(out)@ + "["@ + ser_msgs_body(l@.map(|i: int, m: Message| m@)),
{
    let ghost lv = l@.map(|i: int, m: Message| m@);
    append_lit(out, "[");
    if l.len() == 0 {
        append_lit(out, "]");
        proof {
            assert(out@ =~= old(out)@ + "["@ + ser_msgs_body(lv));
        }
        return ;
    }
    append_message(out, &l[0]);
    let ghost mid = out@;
    let mut i: usize = 1;
    while i < l.len()
        invariant
            1 <= i <= l@.len(),
            lv == l@.map(|j: int, m: Message| m@),
            lv.len() == l@.len(),
            forall|j: int| 0 <= j < l@.len() ==> lv[j] == l@[j]@,
            out@ == mid + msgs_emitted(lv, 1, i as int),
        decreases l@.len() - i,
    {
        append_lit(out, ",");
        append_message(out, &l[i]);
        proof {
            assert(lv[i as int] == l@[i as int]@);
            assert(out@ =~= mid + msgs_emitted(lv, 1, i + 1));
        }
        i += 1;
    }
    append_lit(out, "]");
    proof {
        lemma_msgs_emitted_full(lv, 1);
        assert(out@ =~= old(out)@ + "["@ + ser_msgs_body(lv));
    }
}

/// Consumes a message list (after its opening bracket) at `pos`.
fn parse_msgs(inp: &Vec<char>, pos: usize) -> (r: Option<(Vec<Message>, usize)>)
    requires
        pos <= inp@.len(),
    ensures
        match r {
            Some((l, p2)) => pos <= p2 <= inp@.len() && sp_parse_msgs(inp@.skip(pos as int))
                == Some((l@.map(|i: int, m: Message| m@), inp@.skip(p2 as int))),
            None => sp_parse_msgs(inp@.skip(pos as int)) is None,
        },
{
    match parse_lit(inp, pos, "]") {
        Some(p2) => {
            let l: Vec<Message> = Vec::new();
            proof {
                assert(l@.map(|i: int, m: Message| m@) =~= Seq::<MessageView>::empty());
            }
            return Some((l, p2));
        },
        None => {},
    }
    let (m0, p1) = match parse_message(inp, pos) {
        Some(v) => v,
        None => {
            return None;
        },
    };
    if p1 == pos {
        proof {
            assert(inp@.skip(p1 as int).len() == inp@.skip(pos as int).len());
        }
        return None;
    }
    let mut acc: Vec<Message> = Vec::new();
    acc.push(m0);
    let mut cur: usize = p1;
    proof {
        assert(inp@.skip(p1 as int).len() < inp@.skip(pos as int).len());
    }
    loop
        invariant
            pos <= cur <= inp@.len(),
            (sp_parse_msgs_rest(inp@.skip(cur as int)) matches Some(mr) ==> sp_parse_msgs(
                inp@.skip(pos as int),
            ) == Some((acc@.map(|i: int, m: Message| m@) + mr.0, mr.1))),
            (sp_parse_msgs_rest(inp@.skip(cur as int)) is None ==> sp_parse_msgs(
                inp@.skip(pos as int),
            ) is None),
        decreases inp@.len() - cur,
    {
        match parse_lit(inp, cur, "]") {
            Some(p2) => {
                proof {
                    assert(sp_parse_msgs_rest(inp@.skip(cur as int)) == Some(
                        (Seq::<MessageView>::empty(), inp@.skip(p2 as int)),
                    ));
                    assert(acc@.map(|i: int, m: Message| m@) + Seq::<MessageView>::empty()
                        =~= acc@.map(|i: int, m: Message| m@));
                }
                return Some((acc, p2));
            },
            None => {},
        }
        let p2 = match parse_lit(inp, cur, ",") {
            Some(p) => p,
            None => {
                return None;
            },
        };
        let (m, p3) = match parse_message(inp, p2) {
            Some(v) => v,
            None => {
                return None;
            },
        };
        proof {
            reveal_strlit(",");
            assert(p2 == cur + 1);
            assert(p3 > cur);
            assert(inp@.skip(p3 as int).len() < inp@.skip(cur as int).len());
        }
        let ghost acc0 = acc@.map(|i: int, m2: Message| m2@);
        let ghost mv = m@;
        acc.push(m);
        proof {
            assert(acc@.map(|i: int, m2: Message| m2@) =~= acc0.push(mv));
            assert forall|ms: Seq<MessageView>| true implies acc0 + (seq![mv] + ms) =~= acc0.push(
                mv,
            ) + ms by {}
        }
        cur = p3;
    }
}

// ---------------------------------------------------------------------------
// Issues and the id-keyed issue table
// ---------------------------------------------------------------------------
/// The serialized back half of an issue object, from the due date on.
#[verifier::opaque]
pub open spec fn ser_issue_rest(iv: IssueView) -> Seq<char> {
    ",\"due_date\":"@ + ser_opt_i64(iv.due_date) + ",\"author\":"@ + ser_user(iv.author)
        + ",\"assigned_member\":"@ + ser_opt_users(iv.assigned_member) + ",\"messages\":["@
        + ser_msgs_body(iv.messages) + "}"@
}

/// A serialized issue object.
#[verifier::opaque]
pub open spec fn ser_issue(iv: IssueView) -> Seq<char> {
    "{\"name\":"@ + ser_string(iv.name) + ",\"status\":"@ + ser_status(iv.status)
        + ",\"created_at\":"@ + ser_i64(iv.created_at) + ",\"updated_at\":"@ + ser_i64(
        iv.updated_at,
    ) + ser_issue_rest(iv)
}

/// Consumes the back half of an issue object, from the due date on, and
/// assembles the issue from the already-read front fields.
#[verifier::opaque]
pub open spec fn sp_parse_issue_rest(s: Seq<char>, name: Seq<char>, st: Status, ca: i64, ua: i64) -> Option<
    (IssueView, Seq<char>),
> {
    match sp_parse_lit(s, ",\"due_date\":"@) {
        None => None,
        Some(s9) => match sp_parse_opt_i64(s9) {
            None => None,
            Some((dd, s10)) => match sp_parse_lit(s10, ",\"author\":"@) {
                None => None,
                Some(s11) => match sp_parse_user(s11) {
                    None => None,
                    Some((a, s12)) => match sp_parse_lit(s12, ",\"assigned_member\":"@) {
                        None => None,
                        Some(s13) => match sp_parse_opt_users(s13) {
                            None => None,
                            Some((am, s14)) => match sp_parse_lit(s14, ",\"messages\":["@) {
                                None => None,
                                Some(s15) => match sp_parse_msgs(s15) {
                                    None => None,
                                    Some((ms, s16)) => match sp_parse_lit(s16, "}"@) {
                                        None => None,
                                        Some(s17) => Some(
                                            (
                                                IssueView {
                                                    name: name,
                                                    status: st,
                                                    created_at: ca,
                                                    updated_at: ua,
                                                    due_date: dd,
                                                    author: a,
                                                    assigned_member: am,
                                                    messages: ms,
                                                },
                                                s17,
                                            ),
                                        ),
                                    },
                                },
                            },
                        },
                    },
                },
            },
        },
    }
}

/// Consumes an issue object.
#[verifier::opaque]
pub open spec fn sp_parse_issue(s: Seq<char>) -> Option<(IssueView, Seq<char>)> {
    match sp_parse_lit(s, "{\"name\":"@) {
        None => None,
        Some(s1) => match sp_parse_string(s1) {
            None => None,
            Some((name, s2)) => match sp_parse_lit(s2, ",\"status\":"@) {
                None => None,
                Some(s3) => match sp_parse_status(s3) {
                    None => None,
                    Some((st, s4)) => match sp_parse_lit(s4, ",\"created_at\":"@) {
                        None => None,
                        Some(s5) => match sp_parse_i64(s5) {
                            None => None,
                            Some((ca, s6)) => match sp_parse_lit(s6, ",\"updated_at\":"@) {
                                None => None,
                                Some(s7) => match sp_parse_i64(s7) {
                                    None => None,
                                    Some((ua, s8)) => sp_parse_issue_rest(s8, name, st, ca, ua),
                                },
                            },
                        },
                    },
                },
            },
        },
    }
}

/// The serialized back half of an issue parses back to what it holds.
#[verifier::rlimit(100)]
proof fn lemma_rt_issue_rest(iv: IssueView, rest: Seq<char>)
    ensures
        sp_parse_issue_rest(
            ser_issue_rest(iv) + rest,
            iv.name,
            iv.status,
            iv.created_at,
            iv.updated_at,
        ) == Some((iv, rest)),
        (ser_issue_rest(iv) + rest)[0] == ',',
{
    reveal(ser_issue_rest);
    reveal(sp_parse_issue_rest);
    reveal_strlit(",\"due_date\":");
    reveal_strlit(",\"author\":");
    reveal_strlit(",\"assigned_member\":");
    reveal_strlit(",\"messages\":[");
    let t9 = "}"@ + rest;
    let t8b = ser_msgs_body(iv.messages) + t9;
    let t8 = ",\"messages\":["@ + t8b;
    let t7b = ser_opt_users(iv.assigned_member) + t8;
    let t7 = ",\"assigned_member\":"@ + t7b;
    let t6b = ser_user(iv.author) + t7;
    let t6 = ",\"author\":"@ + t6b;
    let t5b = ser_opt_i64(iv.due_date) + t6;
    let t5 = ",\"due_date\":"@ + t5b;
    assert(ser_issue_rest(iv) + rest =~= t5);
    lemma_rt_lit(",\"due_date\":"@, t5b);
    assert(t6[0] == ',');
    assert(!is_digit(','));
    lemma_rt_opt_i64(iv.due_date, t6);
    lemma_rt_lit(",\"author\":"@, t6b);
    lemma_rt_user(iv.author, t7);
    lemma_rt_lit(",\"assigned_member\":"@, t7b);
    lemma_rt_opt_users(iv.assigned_member, t8);
    lemma_rt_lit(",\"messages\":["@, t8b);
    lemma_rt_msgs(iv.messages, t9);
    lemma_rt_lit("}"@, rest);
}

/// A serialized issue parses back to itself.
#[verifier::rlimit(100)]
proof fn lemma_rt_issue(iv: IssueView, rest: Seq<char>)
    ensures
        sp_parse_issue(ser_issue(iv) + rest) == Some((iv, rest)),
        (ser_issue(iv) + rest)[0] == '{',
{
    reveal(ser_issue);
    reveal(sp_parse_issue);
    reveal_strlit("{\"name\":");
    reveal_strlit(",\"status\":");
    reveal_strlit(",\"created_at\":");
    reveal_strlit(",\"updated_at\":");
    let t5 = ser_issue_rest(iv) + rest;
    let t4b = ser_i64(iv.updated_at) + t5;
    let t4 = ",\"updated_at\":"@ + t4b;
    let t3b = ser_i64(iv.created_at) + t4;
    let t3 = ",\"created_at\":"@ + t3b;
    let t2b = ser_status(iv.status) + t3;
    let t2 = ",\"status\":"@ + t2b;
    let t1b = ser_string(iv.name) + t2;
    let t1 = "{\"name\":"@ + t1b;
    assert(ser_issue(iv) + rest =~= t1);
    lemma_rt_lit("{\"name\":"@, t1b);
    lemma_rt_string(iv.name, t2);
    lemma_rt_lit(",\"status\":"@, t2b);
    lemma_rt_status(iv.status, t3);
    lemma_rt_lit(",\"created_at\":"@, t3b);
    assert(t4[0] == ',');
    assert(!is_digit(','));
    lemma_rt_i64(iv.created_at, t4);
    lemma_rt_lit(",\"updated_at\":"@, t4b);
    lemma_rt_issue_rest(iv, rest);
    assert(t5[0] == ',');
    lemma_rt_i64(iv.updated_at, t5);
    assert((ser_issue(iv) + rest)[0] == '{');
}

/// A serialized issue-table entry: the id as a JSON key, then the issue.
pub open spec fn ser_entry(e: (u64, IssueView)) -> Seq<char> {
    "\""@ + dec_rep(e.0 as nat) + "\":"@ + ser_issue(e.1)
}

/// Consumes an issue-table entry.
pub open spec fn sp_parse_entry(s: Seq<char>) -> Option<((u64, IssueView), Seq<char>)> {
    match sp_parse_lit(s, "\""@) {
        None => None,
        Some(s1) => match sp_parse_u64(s1) {
            None => None,
            Some((id, s2)) => match sp_parse_lit(s2, "\":"@) {
                None => None,
                Some(s3) => match sp_parse_issue(s3) {
                    None => None,
                    Some((iv, s4)) => Some(((id, iv), s4)),
                },
            },
        },
    }
}

/// A serialized issue-table entry parses back to itself.
proof fn lemma_rt_entry(e: (u64, IssueView), rest: Seq<char>)
    ensures
        sp_parse_entry(ser_entry(e) + rest) == Some((e, rest)),
        (ser_entry(e) + rest)[0] == '"',
        ser_entry(e).len() >= 1,
{
    reveal_strlit("\"");
    reveal_strlit("\":");
    let t3 = ser_issue(e.1) + rest;
    let t2b = "\":"@ + t3;
    let t2 = dec_rep(e.0 as nat) + t2b;
    let t1 = "\""@ + t2;
    assert(ser_entry(e) + rest =~= t1);
    lemma_rt_lit("\""@, t2);
    assert(t2b[0] == '"');
    assert(!is_digit('"'));
    lemma_rt_u64(e.0, t2b);
    lemma_rt_lit("\":"@, t3);
    lemma_rt_issue(e.1, rest);
    assert((ser_entry(e) + rest)[0] == '"');
}

/// The serialized tail of an issue table.
pub open spec fn ser_entries_rest(l: Seq<(u64, IssueView)>) -> Seq<char>
    decreases l.len(),
{
    if l.len() == 0 {
        "}"@
    } else {
        ","@ + ser_entry(l[0]) + ser_entries_rest(l.drop_first())
    }
}

/// The serialized body of an issue table, after the opening brace.
pub open spec fn ser_entries_body(l: Seq<(u64, IssueView)>) -> Seq<char> {
    if l.len() == 0 {
        "}"@
    } else {
        ser_entry(l[0]) + ser_entries_rest(l.drop_first())
    }
}

/// Consumes the tail of an issue table.
pub open spec fn sp_parse_entries_rest(s: Seq<char>) -> Option<(Seq<(u64, IssueView)>, Seq<char>)>
    decreases s.len(),
{
    match sp_parse_lit(s, "}"@) {
        Some(r) => Some((Seq::empty(), r)),
        None => match sp_parse_lit(s, ","@) {
            None => None,
            Some(s1) => match sp_parse_entry(s1) {
                None => None,
                Some((e, s2)) => if s2.len() < s.len() {
                    match sp_parse_entries_rest(s2) {
                        None => None,
                        Some((es, r)) => Some((seq![e] + es, r)),
                    }
                } else {
                    None
                },
            },
        },
    }
}

/// Consumes an issue table, after the opening brace.
pub open spec fn sp_parse_entries(s: Seq<char>) -> Option<(Seq<(u64, IssueView)>, Seq<char>)> {
    match sp_parse_lit(s, "}"@) {
        Some(r) => Some((Seq::empty(), r)),
        None => match sp_parse_entry(s) {
            None => None,
            Some((e, s1)) => if s1.len() < s.len() {
                match sp_parse_entries_rest(s1) {
                    None => None,
                    Some((es, r)) => Some((seq![e] + es, r)),
                }
            } else {
                None
            },
        },
    }
}

/// A serialized issue-table tail parses back to itself.
#[verifier::rlimit(100)]
proof fn lemma_rt_entries_rest(l: Seq<(u64, IssueView)>, rest: Seq<char>)
    ensures
        sp_parse_entries_rest(ser_entries_rest(l) + rest) == Some((l, rest)),
    decreases l.len(),
{
    reveal_strlit("}");
    reveal_strlit(",");
    if l.len() == 0 {
        lemma_rt_lit("}"@, rest);
    } else {
        let tail = l.drop_first();
        let t2 = ser_entries_rest(tail) + rest;
        let t1 = ser_entry(l[0]) + t2;
        let s = ","@ + t1;
        assert(ser_entries_rest(l) + rest =~= s);
        assert(s[0] == ',');
        if s.len() >= 1 {
            assert(s.take(1)[0] == ',');
            assert(s.take(1) != "}"@);
        }
        lemma_rt_lit(","@, t1);
        lemma_rt_entry(l[0], t2);
        assert(t2.len() < t1.len());
        assert(t1.len() < s.len());
        lemma_rt_entries_rest(tail, rest);
        assert(seq![l[0]] + tail =~= l);
    }
}

/// A serialized issue-table body parses back to itself.
#[verifier::rlimit(100)]
proof fn lemma_rt_entries(l: Seq<(u64, IssueView)>, rest: Seq<char>)
    ensures
        sp_parse_entries(ser_entries_body(l) + rest) == Some((l, rest)),
{
    reveal_strlit("}");
    if l.len() == 0 {
        lemma_rt_lit("}"@, rest);
    } else {
        let tail = l.drop_first();
        let t2 = ser_entries_rest(tail) + rest;
        let s = ser_entry(l[0]) + t2;
        assert(ser_entries_body(l) + rest =~= s);
        lemma_rt_entry(l[0], t2);
        assert(s[0] == '"');
        if s.len() >= 1 {
            assert(s.take(1)[0] == '"');
            assert(s.take(1) != "}"@);
        }
        assert(t2.len() < s.len());
        lemma_rt_entries_rest(tail, rest);
        assert(seq![l[0]] + tail =~= l);
    }
}

/// Appends a serialized issue object.
fn append_issue(out: &mut Vec<char>, iss: &Issue)
    ensures
        final(out)@ == old(out)@ + ser_issue(iss@),
{
    append_lit(out, "{\"name\":");
    append_string(out, iss.name.as_str());
    append_lit(out, ",\"status\":");
    append_status(out, iss.status);
    append_lit(out, ",\"created_at\":");
    append_i64(out, iss.created_at);
    append_lit(out, ",\"updated_at\":");
    append_i64(out, iss.updated_at);
    let ghost mid = out@;
    proof {
        assert(mid =~= old(out)@ + ("{\"name\":"@ + ser_string(iss@.name) + ",\"status\":"@
            + ser_status(iss@.status) + ",\"created_at\":"@ + ser_i64(iss@.created_at)
            + ",\"updated_at\":"@ + ser_i64(iss@.updated_at)));
    }
    append_lit(out, ",\"due_date\":");
    append_opt_i64(out, iss.due_date);
    append_lit(out, ",\"author\":");
    append_user(out, &iss.author);
    append_lit(out, ",\"assigned_member\":");
    append_opt_users(out, &iss.assigned_member);
    append_lit(out, ",\"messages\":[");
    append_msgs_body(out, &iss.messages);
    append_lit(out, "}");
    proof {
        reveal(ser_issue_rest);
        assert(out@ =~= mid + ser_issue_rest(iss@));
        reveal(ser_issue);
        assert(out@ =~= old(out)@ + ser_issue(iss@));
    }
}

/// Appends the body of a serialized message list (the bracket was already
/// appended by the caller).
fn append_msgs_body(out: &mut Vec<char>, l: &Vec<Message>)
    ensures
        final(out)@ == old(out)@ + ser_msgs_body(l@.map(|i: int, m: Message| m@)),
{
    let ghost before = out@;
    let mut tmp: Vec<char> = Vec::new();
    append_msgs(&mut tmp, l);
    let mut i: usize = 1;
    let ghost tv = tmp@;
    proof {
        reveal_strlit("[");
        assert(tv.len() >= 1);
        assert(tv.subrange(1, 1) =~= Seq::<char>::empty());
        assert(before + tv.subrange(1, 1) =~= before);
    }
    while i < tmp.len()
        invariant
            1 <= i <= tmp@.len(),
            tmp@ == tv,
            tv == "["@ + ser_msgs_body(l@.map(|j: int, m: Message| m@)),
            out@ =~= before + tv.subrange(1, i as int),
        decreases tmp@.len() - i,
    {
        out.push(tmp[i]);
        i += 1;
        proof {
            assert(out@ =~= before + tv.subrange(1, i as int));
        }
    }
    proof {
        reveal_strlit("[");
        assert(tv.len() >= 1);
        assert(tv.subrange(1, tv.len() as int) =~= ser_msgs_body(
            l@.map(|j: int, m: Message| m@),
        ));
    }
}

/// Consumes an issue object at `pos`.
fn parse_issue(inp: &Vec<char>, pos: usize) -> (r: Option<(Issue, usize)>)
    requires
        pos <= inp@.len(),
    ensures
        match r {
            Some((iss, p2)) => pos <= p2 <= inp@.len() && sp_parse_issue(inp@.skip(pos as int))
                == Some((iss@, inp@.skip(p2 as int))),
            None => sp_parse_issue(inp@.skip(pos as int)) is None,
        },
{
    proof {
        reveal(sp_parse_issue);
        reveal(sp_parse_issue_rest);
    }
    let p1 = match parse_lit(inp, pos, "{\"name\":") {
        Some(p) => p,
        None => {
            return None;
        },
    };
    let (name, p2) = match parse_string(inp, p1) {
        Some(v) => v,
        None => {
            return None;
        },
    };
    let p3 = match parse_lit(inp, p2, ",\"status\":") {
        Some(p) => p,
        None => {
            return None;
        },
    };
    let (st, p4) = match parse_status(inp, p3) {
        Some(v) => v,
        None => {
            return None;
        },
    };
    let p5 = match parse_lit(inp, p4, ",\"created_at\":") {
        Some(p) => p,
        None => {
            return None;
        },
    };
    let (ca, p6) = match parse_i64(inp, p5) {
        Some(v) => v,
        None => {
            return None;
        },
    };
    let p7 = match parse_lit(inp, p6, ",\"updated_at\":") {
        Some(p) => p,
        None => {
            return None;
        },
    };
    let (ua, p8) = match parse_i64(inp, p7) {
        Some(v) => v,
        None => {
            return None;
        },
    };
    let p9 = match parse_lit(inp, p8, ",\"due_date\":") {
        Some(p) => p,
        None => {
            return None;
        },
    };
    let (dd, p10) = match parse_opt_i64(inp, p9) {
        Some(v) => v,
        None => {
            return None;
        },
    };
    let p11 = match parse_lit(inp, p10, ",\"author\":") {
        Some(p) => p,
        None => {
            return None;
        },
    };
    let (a, p12) = match parse_user(inp, p11) {
        Some(v) => v,
        None => {
            return None;
        },
    };
    let p13 = match parse_lit(inp, p12, ",\"assigned_member\":") {
        Some(p) => p,
        None => {
            return None;
        },
    };
    let (am, p14) = match parse_opt_users(inp, p13) {
        Some(v) => v,
        None => {
            return None;
        },
    };
    let p15 = match parse_lit(inp, p14, ",\"messages\":[") {
        Some(p) => p,
        None => {
            return None;
        },
    };
    let (ms, p16) = match parse_msgs(inp, p15) {
        Some(v) => v,
        None => {
            return None;
        },
    };
    let p17 = match parse_lit(inp, p16, "}") {
        Some(p) => p,
        None => {
            return None;
        },
    };
    let iss = Issue {
        name: string_from_chars(&name),
        status: st,
        created_at: ca,
        updated_at: ua,
        due_date: dd,
        author: a,
        assigned_member: am,
        messages: ms,
    };
    proof {
        assert(iss@ =~= sp_parse_issue(inp@.skip(pos as int))->Some_0.0);
    }
    Some((iss, p17))
}

/// The serialized commas-and-entries between positions `from` and `to` of an
/// issue table.
pub open spec fn entries_emitted(l: Seq<(u64, IssueView)>, from: int, to: int) -> Seq<char>
    decreases to - from,
{
    if from >= to {
        Seq::empty()
    } else {
        entries_emitted(l, from, to - 1) + ","@ + ser_entry(l[to - 1])
    }
}

/// Peeling the first emitted entry off a span of emitted entries.
proof fn lemma_entries_emitted_prefix(l: Seq<(u64, IssueView)>, from: int, mid: int, to: int)
    requires
        0 <= from < mid <= to <= l.len(),
        mid == from + 1,
    ensures
        entries_emitted(l, from, to) =~= ","@ + ser_entry(l[from]) + entries_emitted(l, mid, to),
    decreases to - mid,
{
    if mid == to {
        assert(entries_emitted(l, from, from) == Seq::<char>::empty());
        assert(entries_emitted(l, from, to) =~= ","@ + ser_entry(l[from]));
    } else {
        lemma_entries_emitted_prefix(l, from, mid, to - 1);
        assert(entries_emitted(l, from, to) =~= ","@ + ser_entry(l[from]) + entries_emitted(
            l,
            mid,
            to,
        ));
    }
}

/// Emitting every tail entry and the closing brace yields the serialized
/// table tail.
proof fn lemma_entries_emitted_full(l: Seq<(u64, IssueView)>, from: int)
    requires
        0 <= from <= l.len(),
    ensures
        entries_emitted(l, from, l.len() as int) + "}"@ == ser_entries_rest(l.skip(from)),
    decreases l.len() - from,
{
    if from == l.len() {
        assert(l.skip(from) =~= Seq::<(u64, IssueView)>::empty());
        assert(entries_emitted(l, from, from) + "}"@ =~= "}"@);
    } else {
        lemma_entries_emitted_prefix(l, from, from + 1, l.len() as int);
        lemma_entries_emitted_full(l, from + 1);
        let t = l.skip(from);
        assert(t.len() > 0);
        assert(t[0] == l[from]);
        assert(t.drop_first() =~= l.skip(from + 1));
        assert(ser_entries_rest(t) == ","@ + ser_entry(l[from]) + ser_entries_rest(
            l.skip(from + 1),
        ));
        assert(entries_emitted(l, from, l.len() as int) + "}"@ =~= ","@ + ser_entry(l[from]) + (
        entries_emitted(l, from + 1, l.len() as int) + "}"@));
    }
}

/// Appends a serialized entry: the id as a key, then the issue.
fn append_entry(out: &mut Vec<char>, id: u64, iss: &Issue)
    ensures
        final(out)@ == old(out)@ + ser_entry((id, iss@)),
{
    append_lit(out, "\"");
    append_u64(out, id);
    append_lit(out, "\":");
    append_issue(out, iss);
    proof {
        assert(out@ =~= old(out)@ + ser_entry((id, iss@)));
    }
}

/// Appends the body of a serialized issue table (the opening brace was
/// already appended by the caller), closing brace included.
fn append_entries_body(out: &mut Vec<char>, l: &Vec<(u64, Issue)>)
    ensures
        final(out)@ == old(out)@ + ser_entries_body(
            l@.map(|i: int, e: (u64, Issue)| (e.0, e.1@)),
        ),
{
    let ghost lv = l@.map(|i: int, e: (u64, Issue)| (e.0, e.1@));
    if l.len() == 0 {
        append_lit(out, "}");
        proof {
            assert(out@ =~= old(out)@ + ser_entries_body(lv));
        }
        return ;
    }
    let (id0, iss0) = &l[0];
    append_entry(out, *id0, iss0);
    let ghost mid = out@;
    proof {
        assert(lv[0] == (l@[0].0, l@[0].1@));
        assert(mid =~= old(out)@ + ser_entry(lv[0]));
    }
    let mut i: usize = 1;
    while i < l.len()
        invariant
            1 <= i <= l@.len(),
            lv == l@.map(|j: int, e: (u64, Issue)| (e.0, e.1@)),
            lv.len() == l@.len(),
            forall|j: int| 0 <= j < l@.len() ==> lv[j] == (l@[j].0, l@[j].1@),
            out@ == mid + entries_emitted(lv, 1, i as int),
        decreases l@.len() - i,
    {
        append_lit(out, ",");
        let (id, iss) = &l[i];
        append_entry(out, *id, iss);
        proof {
            assert(lv[i as int] == (l@[i as int].0, l@[i as int].1@));
            assert(out@ =~= mid + entries_emitted(lv, 1, i + 1));
        }
        i += 1;
    }
    append_lit(out, "}");
    proof {
        lemma_entries_emitted_full(lv, 1);
        assert(lv.drop_first() =~= lv.skip(1));
        assert(out@ =~= old(out)@ + ser_entries_body(lv));
    }
}

/// Consumes an issue table (after its opening brace) at `pos`.
fn parse_entries(inp: &Vec<char>, pos: usize) -> (r: Option<(Vec<(u64, Issue)>, usize)>)
    requires
        pos <= inp@.len(),
    ensures
        match r {
            Some((l, p2)) => pos <= p2 <= inp@.len() && sp_parse_entries(inp@.skip(pos as int))
                == Some((l@.map(|i: int, e: (u64, Issue)| (e.0, e.1@)), inp@.skip(p2 as int))),
            None => sp_parse_entries(inp@.skip(pos as int)) is None,
        },
{
    match parse_lit(inp, pos, "}") {
        Some(p2) => {
            let l: Vec<(u64, Issue)> = Vec::new();
            proof {
                assert(l@.map(|i: int, e: (u64, Issue)| (e.0, e.1@)) =~= Seq::<
                    (u64, IssueView),
                >::empty());
            }
            return Some((l, p2));
        },
        None => {},
    }
    let (e0, p1) = match parse_entry(inp, pos) {
        Some(v) => v,
        None => {
            return None;
        },
    };
    if p1 == pos {
        proof {
            assert(inp@.skip(p1 as int).len() == inp@.skip(pos as int).len());
        }
        return None;
    }
    let mut acc: Vec<(u64, Issue)> = Vec::new();
    acc.push(e0);
    let mut cur: usize = p1;
    proof {
        assert(inp@.skip(p1 as int).len() < inp@.skip(pos as int).len());
    }
    loop
        invariant
            pos <= cur <= inp@.len(),
            (sp_parse_entries_rest(inp@.skip(cur as int)) matches Some(er) ==> sp_parse_entries(
                inp@.skip(pos as int),
            ) == Some((acc@.map(|i: int, e: (u64, Issue)| (e.0, e.1@)) + er.0, er.1))),
            (sp_parse_entries_rest(inp@.skip(cur as int)) is None ==> sp_parse_entries(
                inp@.skip(pos as int),
            ) is None),
        decreases inp@.len() - cur,
    {
        match parse_lit(inp, cur, "}") {
            Some(p2) => {
                proof {
                    assert(sp_parse_entries_rest(inp@.skip(cur as int)) == Some(
                        (Seq::<(u64, IssueView)>::empty(), inp@.skip(p2 as int)),
                    ));
                    assert(acc@.map(|i: int, e: (u64, Issue)| (e.0, e.1@)) + Seq::<
                        (u64, IssueView),
                    >::empty() =~= acc@.map(|i: int, e: (u64, Issue)| (e.0, e.1@)));
                }
                return Some((acc, p2));
            },
            None => {},
        }
        let p2 = match parse_lit(inp, cur, ",") {
            Some(p) => p,
            None => {
                return None;
            },
        };
        let (e, p3) = match parse_entry(inp, p2) {
            Some(v) => v,
            None => {
                return None;
            },
        };
        proof {
            reveal_strlit(",");
            assert(p2 == cur + 1);
            assert(p3 > cur);
            assert(inp@.skip(p3 as int).len() < inp@.skip(cur as int).len());
        }
        let ghost acc0 = acc@.map(|i: int, e2: (u64, Issue)| (e2.0, e2.1@));
        let ghost ev = (e.0, e.1@);
        acc.push(e);
        proof {
            assert(acc@.map(|i: int, e2: (u64, Issue)| (e2.0, e2.1@)) =~= acc0.push(ev));
            assert forall|es: Seq<(u64, IssueView)>| true implies acc0 + (seq![ev] + es)
                =~= acc0.push(ev) + es by {}
        }
        cur = p3;
    }
}

/// Consumes an issue-table entry at `pos`.
fn parse_entry(inp: &Vec<char>, pos: usize) -> (r: Option<((u64, Issue), usize)>)
    requires
        pos <= inp@.len(),
    ensures
        match r {
            Some((e, p2)) => pos <= p2 <= inp@.len() && sp_parse_entry(inp@.skip(pos as int))
                == Some(((e.0, e.1@), inp@.skip(p2 as int))),
            None => sp_parse_entry(inp@.skip(pos as int)) is None,
        },
{
    let p1 = match parse_lit(inp, pos, "\"") {
        Some(p) => p,
        None => {
            return None;
        },
    };
    let (id, p2) = match parse_u64(inp, p1) {
        Some(v) => v,
        None => {
            return None;
        },
    };
    let p3 = match parse_lit(inp, p2, "\":") {
        Some(p) => p,
        None => {
            return None;
        },
    };
    let (iss, p4) = match parse_issue(inp, p3) {
        Some(v) => v,
        None => {
            return None;
        },
    };
    Some(((id, iss), p4))
}

// ---------------------------------------------------------------------------
// The whole document
// ---------------------------------------------------------------------------
/// The serialized back half of a project document, from the path on.
#[verifier::opaque]
pub open spec fn ser_project_rest(pv: ProjectView) -> Seq<char> {
    ",\"project_path\":"@ + ser_string(pv.path) + ",\"users\":["@ + ser_users_body(pv.users)
        + ",\"issues\":{"@ + ser_entries_body(pv.issues) + "}"@
}

/// The canonical document for a project value.
#[verifier::opaque]
pub open spec fn ser_project(pv: ProjectView) -> Seq<char> {
    "{\"project_name\":"@ + ser_string(pv.name) + ",\"current_id\":"@ + dec_rep(
        pv.current_id as nat,
    ) + ",\"created_at\":"@ + ser_i64(pv.created_at) + ",\"updated_at\":"@ + ser_i64(
        pv.updated_at,
    ) + ser_project_rest(pv)
}

/// Consumes the back half of a project document and assembles the project
/// from the already-read front fields.
#[verifier::opaque]
pub open spec fn sp_parse_project_rest(
    s: Seq<char>,
    name: Seq<char>,
    cid: u64,
    ca: i64,
    ua: i64,
) -> Option<(ProjectView, Seq<char>)> {
    match sp_parse_lit(s, ",\"project_path\":"@) {
        None => None,
        Some(s1) => match sp_parse_string(s1) {
            None => None,
            Some((path, s2)) => match sp_parse_lit(s2, ",\"users\":["@) {
                None => None,
                Some(s3) => match sp_parse_users(s3) {
                    None => None,
                    Some((us, s4)) => match sp_parse_lit(s4, ",\"issues\":{"@) {
                        None => None,
                        Some(s5) => match sp_parse_entries(s5) {
                            None => None,
                            Some((es, s6)) => match sp_parse_lit(s6, "}"@) {
                                None => None,
                                Some(s7) => Some(
                                    (
                                        ProjectView {
                                            name: name,
                                            path: path,
                                            current_id: cid,
                                            created_at: ca,
                                            updated_at: ua,
                                            users: us,
                                            issues: es,
                                        },
                                        s7,
                                    ),
                                ),
                            },
                        },
                    },
                },
            },
        },
    }
}

/// Consumes a project document.
#[verifier::opaque]
pub open spec fn sp_parse_project(s: Seq<char>) -> Option<(ProjectView, Seq<char>)> {
    match sp_parse_lit(s, "{\"project_name\":"@) {
        None => None,
        Some(s1) => match sp_parse_string(s1) {
            None => None,
            Some((name, s2)) => match sp_parse_lit(s2, ",\"current_id\":"@) {
                None => None,
                Some(s3) => match sp_parse_u64(s3) {
                    None => None,
                    Some((cid, s4)) => match sp_parse_lit(s4, ",\"created_at\":"@) {
                        None => None,
                        Some(s5) => match sp_parse_i64(s5) {
                            None => None,
                            Some((ca, s6)) => match sp_parse_lit(s6, ",\"updated_at\":"@) {
                                None => None,
                                Some(s7) => match sp_parse_i64(s7) {
                                    None => None,
                                    Some((ua, s8)) => sp_parse_project_rest(s8, name, cid, ca, ua),
                                },
                            },
                        },
                    },
                },
            },
        },
    }
}

/// What a whole document means: a project with nothing after it, or nothing.
pub open spec fn sp_parse_document(s: Seq<char>) -> Option<ProjectView> {
    match sp_parse_project(s) {
        None => None,
        Some((pv, r)) => if r.len() == 0 {
            Some(pv)
        } else {
            None
        },
    }
}

/// The serialized back half of a project parses back to what it holds.
#[verifier::rlimit(100)]
proof fn lemma_rt_project_rest(pv: ProjectView, rest: Seq<char>)
    ensures
        sp_parse_project_rest(
            ser_project_rest(pv) + rest,
            pv.name,
            pv.current_id,
            pv.created_at,
            pv.updated_at,
        ) == Some((pv, rest)),
        (ser_project_rest(pv) + rest)[0] == ',',
{
    reveal(ser_project_rest);
    reveal(sp_parse_project_rest);
    reveal_strlit(",\"project_path\":");
    reveal_strlit(",\"users\":[");
    reveal_strlit(",\"issues\":{");
    let t6 = "}"@ + rest;
    let t5b = ser_entries_body(pv.issues) + t6;
    let t5 = ",\"issues\":{"@ + t5b;
    let t4b = ser_users_body(pv.users) + t5;
    let t4 = ",\"users\":["@ + t4b;
    let t3b = ser_string(pv.path) + t4;
    let t3 = ",\"project_path\":"@ + t3b;
    assert(ser_project_rest(pv) + rest =~= t3);
    lemma_rt_lit(",\"project_path\":"@, t3b);
    lemma_rt_string(pv.path, t4);
    lemma_rt_lit(",\"users\":["@, t4b);
    lemma_rt_users(pv.users, t5);
    lemma_rt_lit(",\"issues\":{"@, t5b);
    lemma_rt_entries(pv.issues, t6);
    lemma_rt_lit("}"@, rest);
}

/// A serialized project parses back to itself, with nothing left over.
#[verifier::rlimit(100)]
proof fn lemma_rt_project(pv: ProjectView, rest: Seq<char>)
    ensures
        sp_parse_project(ser_project(pv) + rest) == Some((pv, rest)),
{
    reveal(ser_project);
    reveal(sp_parse_project);
    reveal_strlit("{\"project_name\":");
    reveal_strlit(",\"current_id\":");
    reveal_strlit(",\"created_at\":");
    reveal_strlit(",\"updated_at\":");
    let t5 = ser_project_rest(pv) + rest;
    let t4b = ser_i64(pv.updated_at) + t5;
    let t4 = ",\"updated_at\":"@ + t4b;
    let t3b = ser_i64(pv.created_at) + t4;
    let t3 = ",\"created_at\":"@ + t3b;
    let t2b = dec_rep(pv.current_id as nat) + t3;
    let t2 = ",\"current_id\":"@ + t2b;
    let t1b = ser_string(pv.name) + t2;
    let t1 = "{\"project_name\":"@ + t1b;
    assert(ser_project(pv) + rest =~= t1);
    lemma_rt_lit("{\"project_name\":"@, t1b);
    lemma_rt_string(pv.name, t2);
    lemma_rt_lit(",\"current_id\":"@, t2b);
    assert(t3[0] == ',');
    assert(!is_digit(','));
    lemma_rt_u64(pv.current_id, t3);
    lemma_rt_lit(",\"created_at\":"@, t3b);
    assert(t4[0] == ',');
    lemma_rt_i64(pv.created_at, t4);
    lemma_rt_lit(",\"updated_at\":"@, t4b);
    lemma_rt_project_rest(pv, rest);
    assert(t5[0] == ',');
    lemma_rt_i64(pv.updated_at, t5);
}

/// The round trip: the document of any project value reads back as exactly
/// that value.  Serialization never loses a field.
pub proof fn lemma_document_round_trip(pv: ProjectView)
    ensures
        sp_parse_document(ser_project(pv)) == Some(pv),
{
    lemma_rt_project(pv, Seq::empty());
    assert(ser_project(pv) + Seq::<char>::empty() =~= ser_project(pv));
}

/// Serializes a project to its canonical document.
pub fn serialize_project(p: &Project) -> (r: Vec<char>)
    ensures
        r@ == ser_project(p@),
{
    proof {
        reveal(ser_project);
        reveal(ser_project_rest);
    }
    let mut out: Vec<char> = Vec::new();
    append_lit(&mut out, "{\"project_name\":");
    append_string(&mut out, p.project_name.as_str());
    append_lit(&mut out, ",\"current_id\":");
    append_u64(&mut out, p.current_id);
    append_lit(&mut out, ",\"created_at\":");
    append_i64(&mut out, p.created_at);
    append_lit(&mut out, ",\"updated_at\":");
    append_i64(&mut out, p.updated_at);
    append_lit(&mut out, ",\"project_path\":");
    append_string(&mut out, p.project_path.as_str());
    append_lit(&mut out, ",\"users\":[");
    append_users_body(&mut out, &p.users.list);
    append_lit(&mut out, ",\"issues\":{");
    append_entries_body(&mut out, &p.issues);
    append_lit(&mut out, "}");
    proof {
        assert(out@ =~= ser_project(p@));
    }
    out
}

/// Appends the body of a serialized user list (the bracket was already
/// appended by the caller).
fn append_users_body(out: &mut Vec<char>, l: &Vec<User>)
    ensures
        final(out)@ == old(out)@ + ser_users_body(l@.map(|i: int, u: User| u@)),
{
    let ghost before = out@;
    let mut tmp: Vec<char> = Vec::new();
    append_users(&mut tmp, l);
    let mut i: usize = 1;
    let ghost tv = tmp@;
    proof {
        reveal_strlit("[");
        assert(tv.len() >= 1);
        assert(tv.subrange(1, 1) =~= Seq::<char>::empty());
        assert(before + tv.subrange(1, 1) =~= before);
    }
    while i < tmp.len()
        invariant
            1 <= i <= tmp@.len(),
            tmp@ == tv,
            tv == "["@ + ser_users_body(l@.map(|j: int, u: User| u@)),
            out@ =~= before + tv.subrange(1, i as int),
        decreases tmp@.len() - i,
    {
        out.push(tmp[i]);
        i += 1;
        proof {
            assert(out@ =~= before + tv.subrange(1, i as int));
        }
    }
    proof {
        reveal_strlit("[");
        assert(tv.len() >= 1);
        assert(tv.subrange(1, tv.len() as int) =~= ser_users_body(l@.map(|j: int, u: User| u@)));
    }
}

/// Parses a whole document into a project; anything but the canonical form
/// of some project value is refused.
pub fn parse_document(doc: &Vec<char>) -> (r: Option<Project>)
    ensures
        match r {
            Some(p) => sp_parse_document(doc@) == Some(p@),
            None => sp_parse_document(doc@) is None,
        },
{
    proof {
        reveal(sp_parse_project);
        reveal(sp_parse_project_rest);
        assert(doc@.skip(0) =~= doc@);
    }
    let p1 = match parse_lit(doc, 0, "{\"project_name\":") {
        Some(p) => p,
        None => {
            return None;
        },
    };
    let (name, p2) = match parse_string(doc, p1) {
        Some(v) => v,
        None => {
            return None;
        },
    };
    let p3 = match parse_lit(doc, p2, ",\"current_id\":") {
        Some(p) => p,
        None => {
            return None;
        },
    };
    let (cid, p4) = match parse_u64(doc, p3) {
        Some(v) => v,
        None => {
            return None;
        },
    };
    let p5 = match parse_lit(doc, p4, ",\"created_at\":") {
        Some(p) => p,
        None => {
            return None;
        },
    };
    let (ca, p6) = match parse_i64(doc, p5) {
        Some(v) => v,
        None => {
            return None;
        },
    };
    let p7 = match parse_lit(doc, p6, ",\"updated_at\":") {
        Some(p) => p,
        None => {
            return None;
        },
    };
    let (ua, p8) = match parse_i64(doc, p7) {
        Some(v) => v,
        None => {
            return None;
        },
    };
    proof {
        assert(sp_parse_project(doc@) == sp_parse_project_rest(
            doc@.skip(p8 as int),
            name@,
            cid,
            ca,
            ua,
        ));
    }
    let p9 = match parse_lit(doc, p8, ",\"project_path\":") {
        Some(p) => p,
        None => {
            return None;
        },
    };
    let (path, p10) = match parse_string(doc, p9) {
        Some(v) => v,
        None => {
            return None;
        },
    };
    let p11 = match parse_lit(doc, p10, ",\"users\":[") {
        Some(p) => p,
        None => {
            return None;
        },
    };
    let (us, p12) = match parse_users(doc, p11) {
        Some(v) => v,
        None => {
            return None;
        },
    };
    let p13 = match parse_lit(doc, p12, ",\"issues\":{") {
        Some(p) => p,
        None => {
            return None;
        },
    };
    let (es, p14) = match parse_entries(doc, p13) {
        Some(v) => v,
        None => {
            return None;
        },
    };
    let p15 = match parse_lit(doc, p14, "}") {
        Some(p) => p,
        None => {
            return None;
        },
    };
    let ghost pv = ProjectView {
        name: name@,
        path: path@,
        current_id: cid,
        created_at: ca,
        updated_at: ua,
        users: us@.map(|i: int, u: User| u@),
        issues: es@.map(|i: int, e: (u64, Issue)| (e.0, e.1@)),
    };
    proof {
        assert(sp_parse_project(doc@) == Some((pv, doc@.skip(p15 as int))));
    }
    if p15 != doc.len() {
        proof {
            assert(doc@.skip(p15 as int).len() > 0);
        }
        return None;
    }
    let p = Project {
        project_name: string_from_chars(&name),
        project_path: string_from_chars(&path),
        current_id: cid,
        created_at: ca,
        updated_at: ua,
        users: Users { list: us },
        issues: es,
    };
    proof {
        assert(doc@.skip(p15 as int).len() == 0);
        assert(p@ =~= pv);
    }
    Some(p)
}

/// Consumes `true` or `false` at `pos`.
fn parse_bool(inp: &Vec<char>, pos: usize) -> (r: Option<(bool, usize)>)
    requires
        pos <= inp@.len(),
    ensures
        match r {
            Some((v, p2)) => pos <= p2 <= inp@.len() && sp_parse_bool(inp@.skip(pos as int))
                == Some((v, inp@.skip(p2 as int))),
            None => sp_parse_bool(inp@.skip(pos as int)) is None,
        },
{
    match parse_lit(inp, pos, "true") {
        Some(p2) => Some((true, p2)),
        None => {
            match parse_lit(inp, pos, "false") {
                Some(p2) => Some((false, p2)),
                None => None,
            }
        },
    }
}

} // verus!
