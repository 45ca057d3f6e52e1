//! Canonical JSON text: escaping, rendering, and a strict parser for the
//! exact documents this library writes, with round-trip lemmas.
//!
//! Strings are escaped as JSON demands: quote, backslash, and control
//! characters; the writer emits `\n`, `\r`, `\t` and `\u00XX` forms, and the
//! parser reverses exactly those.

use vstd::prelude::*;

verus! {

use crate::strutil::{dec_digit, dec_rep, int_rep, push_char};

// ============================================================================
// Escaping
// ============================================================================

/// The lowercase hexadecimal digit for a value between 0 and 15.
pub open spec fn hex_digit(n: int) -> char {
    if n < 10 {
        dec_digit(n)
    } else if n == 10 {
        'a'
    } else if n == 11 {
        'b'
    } else if n == 12 {
        'c'
    } else if n == 13 {
        'd'
    } else if n == 14 {
        'e'
    } else {
        'f'
    }
}

/// Whether the character is a decimal digit.
pub open spec fn is_digit(c: char) -> bool {
    '0' <= c && c <= '9'
}

/// The value of a decimal digit character.
pub open spec fn digit_val(c: char) -> int {
    c as u32 - '0' as u32
}

/// Whether the character is a lowercase hexadecimal digit.
pub open spec fn is_hex(c: char) -> bool {
    is_digit(c) || ('a' <= c && c <= 'f')
}

/// The value of a lowercase hexadecimal digit character.
pub open spec fn hex_val(c: char) -> int {
    if is_digit(c) {
        digit_val(c)
    } else {
        c as u32 - 'a' as u32 + 10
    }
}

/// How one character appears inside a JSON string literal.
pub open spec fn esc_char(c: char) -> Seq<char> {
    if c == '"' {
        seq!['\\', '"']
    } else if c == '\\' {
        seq!['\\', '\\']
    } else if c == '\n' {
        seq!['\\', 'n']
    } else if c == '\r' {
        seq!['\\', 'r']
    } else if c == '\t' {
        seq!['\\', 't']
    } else if (c as u32) < 32 {
        seq!['\\', 'u', '0', '0', hex_digit(c as u32 as int / 16), hex_digit(c as u32 as int % 16)]
    } else {
        seq![c]
    }
}

/// The body of a JSON string literal: every character escaped.
pub open spec fn escape_text(s: Seq<char>) -> Seq<char>
    decreases s.len(),
{
    if s.len() == 0 {
        Seq::empty()
    } else {
        escape_text(s.drop_last()) + esc_char(s.last())
    }
}

/// A JSON string literal: quotes around the escaped body.
pub open spec fn enc_string(s: Seq<char>) -> Seq<char> {
    seq!['"'] + escape_text(s) + seq!['"']
}

/// Escaping can also be unrolled from the front.
pub proof fn lemma_escape_head(s: Seq<char>)
    requires
        s.len() > 0,
    ensures
        escape_text(s) == esc_char(s[0]) + escape_text(s.skip(1)),
    decreases s.len(),
{
    if s.len() == 1 {
        assert(s.drop_last() =~= Seq::<char>::empty());
        assert(s.skip(1) =~= Seq::<char>::empty());
        assert(escape_text(s) =~= esc_char(s[0]) + escape_text(s.skip(1)));
    } else {
        lemma_escape_head(s.drop_last());
        assert(s.drop_last().skip(1) =~= s.skip(1).drop_last());
        assert(s.drop_last()[0] == s[0]);
        assert(s.skip(1).last() == s.last());
        assert(escape_text(s) == escape_text(s.drop_last()) + esc_char(s.last()));
        assert(escape_text(s.skip(1)) == escape_text(s.skip(1).drop_last()) + esc_char(
            s.skip(1).last(),
        ));
        assert(escape_text(s) =~= esc_char(s[0]) + escape_text(s.skip(1)));
    }
}

/// The digit of a value below 16, as executable code.
fn hex_digit_char(d: u32) -> (r: char)
    requires
        d < 16,
    ensures
        r == hex_digit(d as int),
{
    match d {
        0 => '0',
        1 => '1',
        2 => '2',
        3 => '3',
        4 => '4',
        5 => '5',
        6 => '6',
        7 => '7',
        8 => '8',
        9 => '9',
        10 => 'a',
        11 => 'b',
        12 => 'c',
        13 => 'd',
        14 => 'e',
        _ => 'f',
    }
}

/// Appends the JSON string literal for `v` to `out`.
pub fn encode_string_into(out: &mut String, v: &str)
    ensures
        final(out)@ == old(out)@ + enc_string(v@),
{
    let chars = crate::strutil::chars_of(v);
    push_char(out, '"');
    let mut i: usize = 0;
    while i < chars.len()
        invariant
            i <= chars.len(),
            chars@ == v@,
            out@ =~= old(out)@ + seq!['"'] + escape_text(v@.take(i as int)),
        decreases chars.len() - i,
    {
        let c = chars[i];
        if c == '"' {
            push_char(out, '\\');
            push_char(out, '"');
        } else if c == '\\' {
            push_char(out, '\\');
            push_char(out, '\\');
        } else if c == '\n' {
            push_char(out, '\\');
            push_char(out, 'n');
        } else if c == '\r' {
            push_char(out, '\\');
            push_char(out, 'r');
        } else if c == '\t' {
            push_char(out, '\\');
            push_char(out, 't');
        } else if (c as u32) < 32 {
            push_char(out, '\\');
            push_char(out, 'u');
            push_char(out, '0');
            push_char(out, '0');
            push_char(out, hex_digit_char((c as u32) / 16));
            push_char(out, hex_digit_char((c as u32) % 16));
        } else {
            push_char(out, c);
        }
        proof {
            assert(v@.take(i as int + 1).drop_last() =~= v@.take(i as int));
            assert(v@.take(i as int + 1).last() == v@[i as int]);
            assert(out@ =~= old(out)@ + seq!['"'] + escape_text(v@.take(i as int + 1)));
        }
        i = i + 1;
    }
    push_char(out, '"');
    proof {
        assert(v@.take(v@.len() as int) =~= v@);
        assert(out@ =~= old(out)@ + enc_string(v@));
    }
}

// ============================================================================
// Parsing: strings
// ============================================================================

/// The character written as `\u00XX` with the two given hex digits.
pub open spec fn char_of_hex(h1: char, h2: char) -> char {
    ((hex_val(h1) * 16 + hex_val(h2)) as u32) as char
}

/// Parses the body of a JSON string literal from position `i` up to and over
/// the closing quote. Yields the decoded characters and the position after
/// the quote.
pub open spec fn sp_string_body(t: Seq<char>, i: int) -> Option<(Seq<char>, int)>
    decreases t.len() - i,
{
    if i < 0 || i >= t.len() {
        None
    } else if t[i] == '"' {
        Some((Seq::empty(), i + 1))
    } else if t[i] == '\\' {
        if i + 2 <= t.len() {
            let e = t[i + 1];
            if e == '"' || e == '\\' {
                match sp_string_body(t, i + 2) {
                    Some((s, j)) => Some((seq![e] + s, j)),
                    None => None,
                }
            } else if e == 'n' || e == 'r' || e == 't' {
                let c = if e == 'n' {
                    '\n'
                } else if e == 'r' {
                    '\r'
                } else {
                    '\t'
                };
                match sp_string_body(t, i + 2) {
                    Some((s, j)) => Some((seq![c] + s, j)),
                    None => None,
                }
            } else if e == 'u' {
                if i + 6 <= t.len() && t[i + 2] == '0' && t[i + 3] == '0' && is_hex(t[i + 4])
                    && is_hex(t[i + 5]) {
                    match sp_string_body(t, i + 6) {
                        Some((s, j)) => Some((seq![char_of_hex(t[i + 4], t[i + 5])] + s, j)),
                        None => None,
                    }
                } else {
                    None
                }
            } else {
                None
            }
        } else {
            None
        }
    } else {
        match sp_string_body(t, i + 1) {
            Some((s, j)) => Some((seq![t[i]] + s, j)),
            None => None,
        }
    }
}

/// Parses a JSON string literal (opening quote included) at position `i`.
pub open spec fn sp_string(t: Seq<char>, i: int) -> Option<(Seq<char>, int)> {
    if 0 <= i < t.len() && t[i] == '"' {
        sp_string_body(t, i + 1)
    } else {
        None
    }
}

/// Reading back an escaped body: the text holding the escaped form of `s`,
/// the closing quote, and anything after parses to exactly `s`.
pub proof fn lemma_string_body_inv(pre: Seq<char>, s: Seq<char>, rest: Seq<char>)
    ensures
        sp_string_body(pre + escape_text(s) + seq!['"'] + rest, pre.len() as int) == Some(
            (s, pre.len() + escape_text(s).len() + 1 as int),
        ),
    decreases s.len(),
{
    let t = pre + escape_text(s) + seq!['"'] + rest;
    if s.len() == 0 {
        assert(escape_text(s).len() == 0);
        assert(t[pre.len() as int] == '"');
    } else {
        lemma_escape_head(s);
        let c = s[0];
        let e = esc_char(c);
        let pre2 = pre + e;
        let s2 = s.skip(1);
        assert(escape_text(s) == e + escape_text(s2));
        assert(t =~= pre2 + escape_text(s2) + seq!['"'] + rest);
        lemma_string_body_inv(pre2, s2, rest);
        let i = pre.len() as int;
        assert forall|k: int| 0 <= k < e.len() implies t[i + k] == e[k] by {
            assert(escape_text(s)[k] == e[k]);
        }
        if c == '"' || c == '\\' {
            assert(t[i] == '\\' && t[i + 1] == c);
            assert(sp_string_body(t, i + 2) == Some(
                (s2, pre2.len() + escape_text(s2).len() + 1 as int),
            ));
            assert(seq![c] + s2 =~= s);
        } else if c == '\n' {
            assert(t[i] == '\\' && t[i + 1] == 'n');
            assert(seq![c] + s2 =~= s);
        } else if c == '\r' {
            assert(t[i] == '\\' && t[i + 1] == 'r');
            assert(seq![c] + s2 =~= s);
        } else if c == '\t' {
            assert(t[i] == '\\' && t[i + 1] == 't');
            assert(seq![c] + s2 =~= s);
        } else if (c as u32) < 32 {
            let u = c as u32;
            assert(t[i] == '\\' && t[i + 1] == 'u' && t[i + 2] == '0' && t[i + 3] == '0');
            let h1 = hex_digit(u as int / 16);
            let h2 = hex_digit(u as int % 16);
            assert(t[i + 4] == h1 && t[i + 5] == h2);
            assert(is_hex(h1) && hex_val(h1) == u as int / 16);
            assert(is_hex(h2) && hex_val(h2) == u as int % 16);
            assert(hex_val(h1) * 16 + hex_val(h2) == u as int);
            assert(char_of_hex(h1, h2) == c) by {
                assert((hex_val(h1) * 16 + hex_val(h2)) as u32 == u);
                vstd::utf8::char_u32_cast(c, u);
            }
            assert(seq![c] + s2 =~= s);
        } else {
            assert(t[i] == c);
            assert(c != '"' && c != '\\');
            assert(seq![c] + s2 =~= s);
        }
    }
}

/// Reading back a string literal: the rendered form of `s` parses to `s`.
pub proof fn lemma_string_inv(pre: Seq<char>, s: Seq<char>, rest: Seq<char>)
    ensures
        sp_string(pre + enc_string(s) + rest, pre.len() as int) == Some(
            (s, pre.len() + enc_string(s).len() as int),
        ),
{
    let t = pre + enc_string(s) + rest;
    assert(t[pre.len() as int] == '"');
    let pre2 = pre + seq!['"'];
    assert(t =~= pre2 + escape_text(s) + seq!['"'] + rest);
    lemma_string_body_inv(pre2, s, rest);
}

// ============================================================================
// Parsing: literals, numbers, booleans
// ============================================================================

/// Matches the exact characters of `lit` at position `i`.
pub open spec fn sp_expect(t: Seq<char>, i: int, lit: Seq<char>) -> Option<int> {
    if 0 <= i && i + lit.len() <= t.len() && t.subrange(i, i + lit.len()) == lit {
        Some(i + lit.len())
    } else {
        None
    }
}

/// Reading back a literal: the text holding `lit` at the position matches.
pub proof fn lemma_expect_inv(pre: Seq<char>, lit: Seq<char>, rest: Seq<char>)
    ensures
        sp_expect(pre + lit + rest, pre.len() as int, lit) == Some(
            pre.len() + lit.len() as int,
        ),
{
    let t = pre + lit + rest;
    assert(t.subrange(pre.len() as int, pre.len() + lit.len() as int) =~= lit);
}

/// Greedily consumes decimal digits, folding them onto `acc`.
pub open spec fn sp_digits_from(t: Seq<char>, i: int, acc: nat) -> (nat, int)
    decreases t.len() - i,
{
    if 0 <= i < t.len() && is_digit(t[i]) {
        sp_digits_from(t, i + 1, acc * 10 + digit_val(t[i]) as nat)
    } else {
        (acc, i)
    }
}

/// Parses an unsigned decimal number: at least one digit, taken greedily.
pub open spec fn sp_number(t: Seq<char>, i: int) -> Option<(nat, int)> {
    if 0 <= i < t.len() && is_digit(t[i]) {
        Some(sp_digits_from(t, i, 0))
    } else {
        None
    }
}

/// Parses a signed decimal number: an optional minus sign, then digits.
pub open spec fn sp_int(t: Seq<char>, i: int) -> Option<(int, int)> {
    if 0 <= i < t.len() && t[i] == '-' {
        match sp_number(t, i + 1) {
            Some((n, j)) => Some((-(n as int), j)),
            None => None,
        }
    } else {
        match sp_number(t, i) {
            Some((n, j)) => Some((n as int, j)),
            None => None,
        }
    }
}

/// The greedy fold never shrinks its accumulator.
pub proof fn lemma_digits_lower_bound(t: Seq<char>, i: int, acc: nat)
    ensures
        sp_digits_from(t, i, acc).0 >= acc,
    decreases t.len() - i,
{
    if 0 <= i < t.len() && is_digit(t[i]) {
        lemma_digits_lower_bound(t, i + 1, acc * 10 + digit_val(t[i]) as nat);
    }
}

/// The value of a digit string folded onto an accumulator.
pub open spec fn digits_val(ds: Seq<char>, acc: nat) -> nat
    decreases ds.len(),
{
    if ds.len() == 0 {
        acc
    } else {
        digits_val(ds.skip(1), acc * 10 + digit_val(ds[0]) as nat)
    }
}

/// The greedy fold consumes exactly a digit window followed by a non-digit.
pub proof fn lemma_digits_parse(pre: Seq<char>, ds: Seq<char>, rest: Seq<char>, acc: nat)
    requires
        forall|k: int| 0 <= k < ds.len() ==> is_digit(#[trigger] ds[k]),
        rest.len() > 0,
        !is_digit(rest[0]),
    ensures
        sp_digits_from(pre + ds + rest, pre.len() as int, acc) == (
            digits_val(ds, acc),
            pre.len() + ds.len() as int,
        ),
    decreases ds.len(),
{
    let t = pre + ds + rest;
    let i = pre.len() as int;
    if ds.len() == 0 {
        assert(t[i] == rest[0]);
    } else {
        assert(t[i] == ds[0]);
        let pre2 = pre + seq![ds[0]];
        let ds2 = ds.skip(1);
        assert(t =~= pre2 + ds2 + rest);
        lemma_digits_parse(pre2, ds2, rest, acc * 10 + digit_val(ds[0]) as nat);
    }
}

/// Ten to the `k`.
pub open spec fn pow10(k: nat) -> nat
    decreases k,
{
    if k == 0 {
        1nat
    } else {
        10 * pow10((k - 1) as nat)
    }
}

/// Folding one more digit onto a parsed digit string.
pub proof fn lemma_digits_val_snoc(ds: Seq<char>, d: char, acc: nat)
    requires
        is_digit(d),
        forall|k: int| 0 <= k < ds.len() ==> is_digit(#[trigger] ds[k]),
    ensures
        digits_val(ds + seq![d], acc) == digits_val(ds, acc) * 10 + digit_val(d),
    decreases ds.len(),
{
    if ds.len() == 0 {
        assert((ds + seq![d])[0] == d);
        assert((ds + seq![d]).skip(1) =~= Seq::<char>::empty());
        assert(digits_val(Seq::<char>::empty(), (acc * 10 + digit_val(d)) as nat) == acc * 10
            + digit_val(d));
    } else {
        assert((ds + seq![d])[0] == ds[0]);
        assert((ds + seq![d]).skip(1) =~= ds.skip(1) + seq![d]);
        lemma_digits_val_snoc(ds.skip(1), d, acc * 10 + digit_val(ds[0]) as nat);
    }
}

/// Every character of a decimal representation is a digit, and the digit
/// string folds back to the number it renders.
pub proof fn lemma_dec_rep_digits(n: nat)
    ensures
        forall|k: int| 0 <= k < dec_rep(n).len() ==> is_digit(#[trigger] dec_rep(n)[k]),
        dec_rep(n).len() >= 1,
    decreases n,
{
    if n < 10 {
        assert(is_digit(dec_digit(n as int)));
    } else {
        lemma_dec_rep_digits(n / 10);
        assert(is_digit(dec_digit((n % 10) as int)));
        assert forall|k: int| 0 <= k < dec_rep(n).len() implies is_digit(
            #[trigger] dec_rep(n)[k],
        ) by {
            if k < dec_rep(n / 10).len() {
                assert(dec_rep(n)[k] == dec_rep(n / 10)[k]);
            } else {
                assert(dec_rep(n)[k] == dec_digit((n % 10) as int));
            }
        }
    }
}

/// The rendered digits of `n` fold back to `acc` shifted past them, plus `n`.
pub proof fn lemma_dec_rep_val(n: nat, acc: nat)
    ensures
        digits_val(dec_rep(n), acc) == acc * pow10(dec_rep(n).len()) + n,
    decreases n,
{
    if n < 10 {
        assert(dec_rep(n) =~= seq![dec_digit(n as int)]);
        assert(dec_rep(n).skip(1) =~= Seq::<char>::empty());
        assert(digit_val(dec_digit(n as int)) == n as int);
        assert(digits_val(Seq::<char>::empty(), (acc * 10 + n) as nat) == acc * 10 + n);
        assert(digits_val(dec_rep(n), acc) == acc * 10 + n);
        assert(pow10(0) == 1);
        assert(pow10(1) == 10);
    } else {
        let hi = dec_rep(n / 10);
        let d = dec_digit((n % 10) as int);
        assert(dec_rep(n) == hi + seq![d]);
        lemma_dec_rep_digits(n / 10);
        assert(is_digit(d));
        lemma_digits_val_snoc(hi, d, acc);
        lemma_dec_rep_val(n / 10, acc);
        assert(digit_val(d) == (n % 10) as int);
        let k = hi.len();
        assert(dec_rep(n).len() == k + 1);
        assert(pow10(k + 1) == 10 * pow10(k));
        assert((acc * pow10(k) + n / 10) * 10 + n % 10 == acc * (10 * pow10(k)) + n) by (nonlinear_arith);
        assert(digits_val(dec_rep(n), acc) == digits_val(hi, acc) * 10 + digit_val(d));
    }
}

/// Reading back an unsigned number: the rendered decimal form of `n`,
/// followed by anything that does not begin with a digit, parses to `n`.
pub proof fn lemma_number_inv(pre: Seq<char>, n: nat, rest: Seq<char>)
    requires
        rest.len() > 0,
        !is_digit(rest[0]),
    ensures
        sp_number(pre + dec_rep(n) + rest, pre.len() as int) == Some(
            (n, pre.len() + dec_rep(n).len() as int),
        ),
{
    let t = pre + dec_rep(n) + rest;
    lemma_dec_rep_digits(n);
    assert(t[pre.len() as int] == dec_rep(n)[0]);
    lemma_digits_parse(pre, dec_rep(n), rest, 0);
    lemma_dec_rep_val(n, 0);
}

/// Reading back a signed number rendered by `int_rep`.
pub proof fn lemma_int_inv(pre: Seq<char>, n: int, rest: Seq<char>)
    requires
        rest.len() > 0,
        !is_digit(rest[0]),
    ensures
        sp_int(pre + int_rep(n) + rest, pre.len() as int) == Some(
            (n, pre.len() + int_rep(n).len() as int),
        ),
{
    let t = pre + int_rep(n) + rest;
    if n >= 0 {
        lemma_number_inv(pre, n as nat, rest);
        lemma_dec_rep_digits(n as nat);
        assert(t[pre.len() as int] == dec_rep(n as nat)[0]);
        assert(t[pre.len() as int] != '-');
    } else {
        let m = (-n) as nat;
        assert(int_rep(n) == seq!['-'] + dec_rep(m));
        assert(t[pre.len() as int] == '-');
        let pre2 = pre + seq!['-'];
        assert(t =~= pre2 + dec_rep(m) + rest);
        lemma_number_inv(pre2, m, rest);
    }
}

/// The rendered form of a boolean.
pub open spec fn enc_bool(b: bool) -> Seq<char> {
    if b {
        "true"@
    } else {
        "false"@
    }
}

/// Parses `true` or `false`.
pub open spec fn sp_bool(t: Seq<char>, i: int) -> Option<(bool, int)> {
    if sp_expect(t, i, "true"@) is Some {
        Some((true, sp_expect(t, i, "true"@)->Some_0))
    } else if sp_expect(t, i, "false"@) is Some {
        Some((false, sp_expect(t, i, "false"@)->Some_0))
    } else {
        None
    }
}

/// Reading back a rendered boolean.
pub proof fn lemma_bool_inv(pre: Seq<char>, b: bool, rest: Seq<char>)
    ensures
        sp_bool(pre + enc_bool(b) + rest, pre.len() as int) == Some(
            (b, pre.len() + enc_bool(b).len() as int),
        ),
{
    reveal_strlit("true");
    reveal_strlit("false");
    let t = pre + enc_bool(b) + rest;
    let i = pre.len() as int;
    if b {
        lemma_expect_inv(pre, "true"@, rest);
    } else {
        assert(t[i] == 'f');
        if sp_expect(t, i, "true"@) is Some {
            assert(t.subrange(i, i + 4)[0] == 't');
            assert(false);
        }
        lemma_expect_inv(pre, "false"@, rest);
    }
}

// ============================================================================
// Comma-joined renderings of sequences
// ============================================================================

/// The elements of `s` rendered by `f` and joined with commas.
pub open spec fn join_map<T>(s: Seq<T>, f: spec_fn(T) -> Seq<char>) -> Seq<char>
    decreases s.len(),
{
    if s.len() == 0 {
        Seq::empty()
    } else if s.len() == 1 {
        f(s[0])
    } else {
        join_map(s.drop_last(), f) + seq![','] + f(s.last())
    }
}

/// A comma-joined rendering can also be unrolled from the front.
pub proof fn lemma_join_head<T>(s: Seq<T>, f: spec_fn(T) -> Seq<char>)
    requires
        s.len() >= 1,
    ensures
        join_map(s, f) == if s.len() == 1 {
            f(s[0])
        } else {
            f(s[0]) + seq![','] + join_map(s.skip(1), f)
        },
    decreases s.len(),
{
    if s.len() == 1 {
    } else if s.len() == 2 {
        let a = seq![s[0]];
        let b = seq![s[1]];
        assert(s.drop_last() =~= a);
        assert(s.skip(1) =~= b);
        assert(a.len() == 1 && a[0] == s[0]);
        assert(b.len() == 1 && b[0] == s[1]);
        assert(join_map(a, f) == f(s[0]));
        assert(join_map(b, f) == f(s[1]));
        assert(join_map(s, f) == join_map(s.drop_last(), f) + seq![','] + f(s.last()));
        assert(join_map(s, f) =~= f(s[0]) + seq![','] + join_map(s.skip(1), f));
    } else {
        lemma_join_head(s.drop_last(), f);
        assert(s.drop_last()[0] == s[0]);
        assert(s.drop_last().skip(1) =~= s.skip(1).drop_last());
        assert(s.skip(1).last() == s.last());
        assert(s.drop_last().len() >= 2);
        assert(join_map(s.drop_last(), f) == f(s[0]) + seq![','] + join_map(
            s.drop_last().skip(1),
            f,
        ));
        assert(join_map(s, f) == join_map(s.drop_last(), f) + seq![','] + f(s.last()));
        assert(s.skip(1).len() >= 2);
        assert(join_map(s.skip(1), f) == join_map(s.skip(1).drop_last(), f) + seq![','] + f(
            s.skip(1).last(),
        ));
        assert(join_map(s.skip(1).drop_last(), f) == join_map(s.drop_last().skip(1), f));
        assert(join_map(s, f) =~= f(s[0]) + seq![','] + join_map(s.skip(1), f));
    }
}

// ============================================================================
// Executable parsers
// ============================================================================

/// Whether the character is a decimal digit, as executable code.
pub fn digit_check(c: char) -> (r: bool)
    ensures
        r == is_digit(c),
{
    let u = c as u32;
    ('0' as u32) <= u && u <= ('9' as u32)
}

/// Matches the exact characters of `lit` at position `i` of `t`.
pub fn expect_lit(t: &Vec<char>, i: usize, lit: &str) -> (r: Option<usize>)
    ensures
        match r {
            Some(j) => sp_expect(t@, i as int, lit@) == Some(j as int),
            None => sp_expect(t@, i as int, lit@) is None,
        },
{
    let m = lit.unicode_len();
    if i > t.len() || m > t.len() - i {
        return None;
    }
    let n = t.len();
    let mut k: usize = 0;
    while k < m
        invariant
            k <= m,
            m == lit@.len(),
            n == t@.len(),
            i + m <= n,
            forall|q: int| 0 <= q < k ==> t@[i + q] == lit@[q],
        decreases m - k,
    {
        if t[i + k] != lit.get_char(k) {
            proof {
                if t@.subrange(i as int, i + m as int) == lit@ {
                    assert(t@.subrange(i as int, i + m as int)[k as int] == lit@[k as int]);
                }
            }
            return None;
        }
        k = k + 1;
    }
    proof {
        assert(t@.subrange(i as int, i + m as int) =~= lit@);
    }
    Some(i + m)
}

/// The value of a decimal digit character, as executable code.
fn digit_val_of(c: char) -> (r: u64)
    requires
        is_digit(c),
    ensures
        r as int == digit_val(c),
        r < 10,
{
    ((c as u32) - ('0' as u32)) as u64
}

/// Parses an unsigned decimal number at position `i` of `t`. Fails when no
/// digit starts there or the value does not fit a `u64`.
pub fn parse_u64(t: &Vec<char>, i: usize) -> (r: Option<(u64, usize)>)
    ensures
        match r {
            Some((n, j)) => sp_number(t@, i as int) == Some((n as nat, j as int)),
            None => sp_number(t@, i as int) is None || sp_number(t@, i as int)->Some_0.0
                > u64::MAX,
        },
{
    if i >= t.len() || !digit_check(t[i]) {
        return None;
    }
    let mut acc: u64 = 0;
    let mut cur: usize = i;
    while cur < t.len() && digit_check(t[cur])
        invariant
            i <= cur <= t@.len(),
            sp_digits_from(t@, i as int, 0) == sp_digits_from(t@, cur as int, acc as nat),
        decreases t@.len() - cur,
    {
        let d = digit_val_of(t[cur]);
        if acc > (u64::MAX - d) / 10 {
            proof {
                let big = (acc * 10 + d) as nat;
                assert(big > u64::MAX) by (nonlinear_arith)
                    requires
                        acc > (u64::MAX - d) / 10,
                        d < 10,
                        big == acc * 10 + d,
                ;
                lemma_digits_lower_bound(t@, cur + 1, big);
            }
            return None;
        }
        acc = acc * 10 + d;
        cur = cur + 1;
    }
    Some((acc, cur))
}

/// Parses a signed decimal number at position `i` of `t`. Fails when no
/// number starts there or the value does not fit an `i64`.
pub fn parse_i64(t: &Vec<char>, i: usize) -> (r: Option<(i64, usize)>)
    ensures
        match r {
            Some((n, j)) => sp_int(t@, i as int) == Some((n as int, j as int)),
            None => sp_int(t@, i as int) is None || sp_int(t@, i as int)->Some_0.0
                > i64::MAX || sp_int(t@, i as int)->Some_0.0 < i64::MIN,
        },
{
    if i < t.len() && t[i] == '-' {
        match parse_u64(t, i + 1) {
            Some((n, j)) => {
                if n <= 9223372036854775807u64 {
                    Some((-(n as i64), j))
                } else if n == 9223372036854775808u64 {
                    Some((i64::MIN, j))
                } else {
                    None
                }
            },
            None => None,
        }
    } else {
        match parse_u64(t, i) {
            Some((n, j)) => {
                if n <= 9223372036854775807u64 {
                    Some((n as i64, j))
                } else {
                    None
                }
            },
            None => None,
        }
    }
}

/// Parses `true` or `false` at position `i` of `t`.
pub fn parse_bool(t: &Vec<char>, i: usize) -> (r: Option<(bool, usize)>)
    ensures
        match r {
            Some((b, j)) => sp_bool(t@, i as int) == Some((b, j as int)),
            None => sp_bool(t@, i as int) is None,
        },
{
    match expect_lit(t, i, "true") {
        Some(j) => Some((true, j)),
        None => {
            match expect_lit(t, i, "false") {
                Some(j) => Some((false, j)),
                None => None,
            }
        },
    }
}

/// Whether the character is a lowercase hexadecimal digit, as executable
/// code.
pub fn hex_check(c: char) -> (r: bool)
    ensures
        r == is_hex(c),
{
    let u = c as u32;
    digit_check(c) || (('a' as u32) <= u && u <= ('f' as u32))
}

/// The value of a lowercase hexadecimal digit, as executable code.
fn hex_val_of(c: char) -> (r: u32)
    requires
        is_hex(c),
    ensures
        r as int == hex_val(c),
        r < 16,
{
    let u = c as u32;
    if u <= ('9' as u32) {
        u - ('0' as u32)
    } else {
        u - ('a' as u32) + 10
    }
}

/// Parses a JSON string literal at position `i` of `t`, undoing the escapes
/// the writer produces.
pub fn parse_string(t: &Vec<char>, i: usize) -> (r: Option<(String, usize)>)
    ensures
        match r {
            Some((s, j)) => sp_string(t@, i as int) == Some((s@, j as int)),
            None => sp_string(t@, i as int) is None,
        },
{
    if i >= t.len() || t[i] != '"' {
        return None;
    }
    let mut acc = String::new();
    let mut cur: usize = i + 1;
    loop
        invariant
            i + 1 <= cur <= t@.len() + 1,
            sp_string(t@, i as int) == match sp_string_body(t@, cur as int) {
                Some((s, j)) => Some((acc@ + s, j)),
                None => None::<(Seq<char>, int)>,
            },
        decreases t@.len() - cur,
    {
        if cur >= t.len() {
            return None;
        }
        let c = t[cur];
        if c == '"' {
            proof {
                assert(acc@ + Seq::<char>::empty() =~= acc@);
            }
            return Some((acc, cur + 1));
        } else if c == '\\' {
            if cur + 1 >= t.len() {
                return None;
            }
            let e = t[cur + 1];
            if e == '"' || e == '\\' {
                push_char(&mut acc, e);
                cur = cur + 2;
            } else if e == 'n' {
                push_char(&mut acc, '\n');
                cur = cur + 2;
            } else if e == 'r' {
                push_char(&mut acc, '\r');
                cur = cur + 2;
            } else if e == 't' {
                push_char(&mut acc, '\t');
                cur = cur + 2;
            } else if e == 'u' {
                if t.len() - cur <= 5 {
                    return None;
                }
                if t[cur + 2] != '0' || t[cur + 3] != '0' {
                    return None;
                }
                let h1 = t[cur + 4];
                let h2 = t[cur + 5];
                if !hex_check(h1) || !hex_check(h2) {
                    return None;
                }
                let v = hex_val_of(h1) * 16 + hex_val_of(h2);
                let c2 = (v as u8) as char;
                proof {
                    assert(c2 == char_of_hex(h1, h2));
                }
                push_char(&mut acc, c2);
                cur = cur + 6;
            } else {
                return None;
            }
        } else {
            push_char(&mut acc, c);
            cur = cur + 1;
        }
        proof {
            assert(sp_string(t@, i as int) == match sp_string_body(t@, cur as int) {
                Some((s, j)) => Some((acc@ + s, j)),
                None => None::<(Seq<char>, int)>,
            });
        }
    }
}

} // verus!
