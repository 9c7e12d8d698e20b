//! Escaping text for inclusion in a JSON string literal.
use vstd::prelude::*;

verus! {

/// The lower-case hexadecimal digit for `n`, when `n < 16`.
pub open spec fn hex_digit(n: nat) -> char {
    if n == 0 {
        '0'
    } else if n == 1 {
        '1'
    } else if n == 2 {
        '2'
    } else if n == 3 {
        '3'
    } else if n == 4 {
        '4'
    } else if n == 5 {
        '5'
    } else if n == 6 {
        '6'
    } else if n == 7 {
        '7'
    } else if n == 8 {
        '8'
    } else if n == 9 {
        '9'
    } else if n == 10 {
        'a'
    } else if n == 11 {
        'b'
    } else if n == 12 {
        'c'
    } else if n == 13 {
        'd'
    } else if n == 14 {
        'e'
    } else {
        'f'
    }
}

/// How one character appears inside a JSON string literal: quote and
/// backslash get a backslash escape, the named control characters their
/// short escapes, every other control character a `\u00..` escape, and
/// all remaining characters stand as themselves.
pub open spec fn escaped_char(c: char) -> Seq<char> {
    if c == '"' {
        seq!['\\', '"']
    } else if c == '\\' {
        seq!['\\', '\\']
    } else if c == '\u{8}' {
        seq!['\\', 'b']
    } else if c == '\t' {
        seq!['\\', 't']
    } else if c == '\n' {
        seq!['\\', 'n']
    } else if c == '\u{c}' {
        seq!['\\', 'f']
    } else if c == '\r' {
        seq!['\\', 'r']
    } else if (c as u32) < 32 {
        seq!['\\', 'u', '0', '0', hex_digit((c as u32 / 16) as nat), hex_digit((c as u32 % 16) as nat)]
    } else {
        seq![c]
    }
}

/// The body of the JSON string literal denoting `s`: each character escaped.
pub open spec fn escaped(s: Seq<char>) -> Seq<char>
    decreases s.len(),
{
    if s.len() == 0 {
        Seq::empty()
    } else {
        escaped(s.drop_last()) + escaped_char(s.last())
    }
}

/// The JSON string literal denoting `s`: the escaped body between quotes.
pub open spec fn quoted(s: Seq<char>) -> Seq<char> {
    seq!['"'] + escaped(s) + seq!['"']
}

/// Whether `c` may stand as a hexadecimal digit in a `\u` escape.
pub open spec fn is_hex_digit(c: char) -> bool {
    (48 <= c as u32 && c as u32 <= 57) || (97 <= c as u32 && c as u32 <= 102) || (65 <= c as u32
        && c as u32 <= 70)
}

/// Whether `s` is a legal body for a JSON string literal, read from the
/// left: each step takes an escape pair, a `\u` escape with four
/// hexadecimal digits, or one plain character that is no quote, no
/// backslash and no control character.
pub open spec fn is_literal_body(s: Seq<char>) -> bool
    decreases s.len(),
{
    if s.len() == 0 {
        true
    } else if s[0] == '\\' {
        if s.len() >= 2 && (s[1] == '"' || s[1] == '\\' || s[1] == '/' || s[1] == 'b' || s[1] == 'f'
            || s[1] == 'n' || s[1] == 'r' || s[1] == 't') {
            is_literal_body(s.skip(2))
        } else if s.len() >= 6 && s[1] == 'u' && is_hex_digit(s[2]) && is_hex_digit(s[3])
            && is_hex_digit(s[4]) && is_hex_digit(s[5]) {
            is_literal_body(s.skip(6))
        } else {
            false
        }
    } else {
        s[0] != '"' && (s[0] as u32) >= 32 && is_literal_body(s.skip(1))
    }
}

/// Whether `s` is a well-formed JSON string literal: a quote, a legal
/// body, a quote.
pub open spec fn is_json_string_literal(s: Seq<char>) -> bool {
    s.len() >= 2 && s[0] == '"' && s[s.len() - 1] == '"' && is_literal_body(
        s.subrange(1, s.len() - 1),
    )
}

proof fn lemma_literal_body_concat(a: Seq<char>, b: Seq<char>)
    requires
        is_literal_body(a),
        is_literal_body(b),
    ensures
        is_literal_body(a + b),
    decreases a.len(),
{
    if a.len() == 0 {
        assert(a + b =~= b);
    } else if a[0] == '\\' {
        if a.len() >= 2 && (a[1] == '"' || a[1] == '\\' || a[1] == '/' || a[1] == 'b' || a[1] == 'f'
            || a[1] == 'n' || a[1] == 'r' || a[1] == 't') {
            assert((a + b).skip(2) =~= a.skip(2) + b);
            lemma_literal_body_concat(a.skip(2), b);
        } else {
            assert((a + b).skip(6) =~= a.skip(6) + b);
            lemma_literal_body_concat(a.skip(6), b);
        }
    } else {
        assert((a + b).skip(1) =~= a.skip(1) + b);
        lemma_literal_body_concat(a.skip(1), b);
    }
}

proof fn lemma_hex_digit_is_hex(n: nat)
    requires
        n < 16,
    ensures
        is_hex_digit(hex_digit(n)),
{
}

proof fn lemma_escaped_char_body(c: char)
    ensures
        is_literal_body(escaped_char(c)),
{
    let e = escaped_char(c);
    if c == '"' || c == '\\' || c == '\u{8}' || c == '\t' || c == '\n' || c == '\u{c}' || c
        == '\r' {
        assert(e.skip(2) =~= Seq::<char>::empty());
        assert(is_literal_body(e.skip(2)));
    } else if (c as u32) < 32 {
        lemma_hex_digit_is_hex((c as u32 / 16) as nat);
        lemma_hex_digit_is_hex((c as u32 % 16) as nat);
        assert(e.skip(6) =~= Seq::<char>::empty());
        assert(is_literal_body(e.skip(6)));
    } else {
        assert(e.skip(1) =~= Seq::<char>::empty());
        assert(is_literal_body(e.skip(1)));
    }
}

proof fn lemma_escaped_body(s: Seq<char>)
    ensures
        is_literal_body(escaped(s)),
    decreases s.len(),
{
    if s.len() > 0 {
        lemma_escaped_body(s.drop_last());
        lemma_escaped_char_body(s.last());
        lemma_literal_body_concat(escaped(s.drop_last()), escaped_char(s.last()));
    }
}

/// Whatever characters `s` holds, `quoted(s)` is a well-formed JSON string
/// literal: a quote, then only escape sequences and plain characters free
/// of raw quotes, backslashes and control characters, then a quote.
pub proof fn lemma_quoted_well_formed(s: Seq<char>)
    ensures
        is_json_string_literal(quoted(s)),
{
    lemma_escaped_body(s);
    let q = quoted(s);
    assert(q.subrange(1, q.len() - 1) =~= escaped(s));
    assert(q[0] == '"');
    assert(q[q.len() - 1] == '"');
}

/// How many characters at the head of `s` stand before an unescaped
/// closing quote, reading legal body steps from the left; `None` where no
/// legal body followed by a quote stands there.
pub open spec fn body_extent(s: Seq<char>) -> Option<nat>
    decreases s.len(),
{
    if s.len() == 0 {
        Option::None
    } else if s[0] == '"' {
        Option::Some(0)
    } else if s[0] == '\\' {
        if s.len() >= 2 && (s[1] == '"' || s[1] == '\\' || s[1] == '/' || s[1] == 'b' || s[1] == 'f'
            || s[1] == 'n' || s[1] == 'r' || s[1] == 't') {
            match body_extent(s.skip(2)) {
                Option::Some(k) => Option::Some(k + 2),
                Option::None => Option::None,
            }
        } else if s.len() >= 6 && s[1] == 'u' && is_hex_digit(s[2]) && is_hex_digit(s[3])
            && is_hex_digit(s[4]) && is_hex_digit(s[5]) {
            match body_extent(s.skip(6)) {
                Option::Some(k) => Option::Some(k + 6),
                Option::None => Option::None,
            }
        } else {
            Option::None
        }
    } else if (s[0] as u32) < 32 {
        Option::None
    } else {
        match body_extent(s.skip(1)) {
            Option::Some(k) => Option::Some(k + 1),
            Option::None => Option::None,
        }
    }
}

/// How many characters one JSON string literal takes at the head of `s`:
/// an opening quote, a legal body, the closing quote; `None` where none
/// stands there.
pub open spec fn literal_extent(s: Seq<char>) -> Option<nat> {
    if s.len() >= 1 && s[0] == '"' {
        match body_extent(s.skip(1)) {
            Option::Some(k) => Option::Some(k + 2),
            Option::None => Option::None,
        }
    } else {
        Option::None
    }
}

/// Scanning a legal body followed by a quote stops exactly at that quote,
/// whatever follows: inside the body, every quote and backslash hides
/// behind an escape.
pub proof fn lemma_body_extent_stops(a: Seq<char>, rest: Seq<char>)
    requires
        is_literal_body(a),
    ensures
        body_extent(a + seq!['"'] + rest) == Some(a.len()),
    decreases a.len(),
{
    let s = a + seq!['"'] + rest;
    if a.len() == 0 {
        assert(s[0] == '"');
    } else if a[0] == '\\' {
        if a.len() >= 2 && (a[1] == '"' || a[1] == '\\' || a[1] == '/' || a[1] == 'b' || a[1] == 'f'
            || a[1] == 'n' || a[1] == 'r' || a[1] == 't') {
            assert(s.skip(2) =~= a.skip(2) + seq!['"'] + rest);
            lemma_body_extent_stops(a.skip(2), rest);
        } else {
            assert(s.skip(6) =~= a.skip(6) + seq!['"'] + rest);
            lemma_body_extent_stops(a.skip(6), rest);
        }
    } else {
        assert(s.skip(1) =~= a.skip(1) + seq!['"'] + rest);
        lemma_body_extent_stops(a.skip(1), rest);
    }
}

/// The quoted form of any text, followed by anything, parses from the left
/// as one string literal of exactly the quoted form's length.
pub proof fn lemma_literal_extent_prefix(t: Seq<char>, rest: Seq<char>)
    ensures
        literal_extent(quoted(t) + rest) == Some(quoted(t).len()),
{
    lemma_escaped_body(t);
    let s = quoted(t) + rest;
    assert(s[0] == '"');
    assert(s.skip(1) =~= escaped(t) + seq!['"'] + rest);
    lemma_body_extent_stops(escaped(t), rest);
    assert(quoted(t).len() == escaped(t).len() + 2);
}

/// The numeric value of a hexadecimal digit.
pub open spec fn hex_value(c: char) -> nat {
    if 48 <= c as u32 && c as u32 <= 57 {
        (c as u32 - 48) as nat
    } else if 97 <= c as u32 && c as u32 <= 102 {
        (c as u32 - 87) as nat
    } else {
        (c as u32 - 55) as nat
    }
}

/// The text that a legal JSON string literal body denotes: each escape
/// sequence replaced by the character it stands for, each plain character
/// kept as itself.
pub open spec fn unescaped(s: Seq<char>) -> Seq<char>
    decreases s.len(),
{
    if s.len() == 0 {
        Seq::empty()
    } else if s[0] == '\\' && s.len() >= 2 {
        if s[1] == '"' {
            seq!['"'] + unescaped(s.skip(2))
        } else if s[1] == '\\' {
            seq!['\\'] + unescaped(s.skip(2))
        } else if s[1] == '/' {
            seq!['/'] + unescaped(s.skip(2))
        } else if s[1] == 'b' {
            seq!['\u{8}'] + unescaped(s.skip(2))
        } else if s[1] == 'f' {
            seq!['\u{c}'] + unescaped(s.skip(2))
        } else if s[1] == 'n' {
            seq!['\n'] + unescaped(s.skip(2))
        } else if s[1] == 'r' {
            seq!['\r'] + unescaped(s.skip(2))
        } else if s[1] == 't' {
            seq!['\t'] + unescaped(s.skip(2))
        } else if s[1] == 'u' && s.len() >= 6 {
            seq![
                (((hex_value(s[2]) * 4096 + hex_value(s[3]) * 256 + hex_value(s[4]) * 16
                    + hex_value(s[5])) as u32) as char)
            ] + unescaped(s.skip(6))
        } else {
            unescaped(s.skip(2))
        }
    } else {
        seq![s[0]] + unescaped(s.skip(1))
    }
}

proof fn lemma_unescaped_concat(a: Seq<char>, b: Seq<char>)
    requires
        is_literal_body(a),
    ensures
        unescaped(a + b) == unescaped(a) + unescaped(b),
    decreases a.len(),
{
    if a.len() == 0 {
        assert(a + b =~= b);
        assert(unescaped(a) + unescaped(b) =~= unescaped(b));
    } else if a[0] == '\\' {
        if a.len() >= 2 && (a[1] == '"' || a[1] == '\\' || a[1] == '/' || a[1] == 'b' || a[1] == 'f'
            || a[1] == 'n' || a[1] == 'r' || a[1] == 't') {
            assert((a + b).skip(2) =~= a.skip(2) + b);
            lemma_unescaped_concat(a.skip(2), b);
            assert(unescaped(a + b) =~= unescaped(a) + unescaped(b));
        } else {
            assert((a + b).skip(6) =~= a.skip(6) + b);
            lemma_unescaped_concat(a.skip(6), b);
            assert(unescaped(a + b) =~= unescaped(a) + unescaped(b));
        }
    } else {
        assert((a + b).skip(1) =~= a.skip(1) + b);
        lemma_unescaped_concat(a.skip(1), b);
        assert(unescaped(a + b) =~= unescaped(a) + unescaped(b));
    }
}

proof fn lemma_hex_value_of_digit(n: nat)
    requires
        n < 16,
    ensures
        hex_value(hex_digit(n)) == n,
{
}

proof fn lemma_unescape_escaped_char(c: char)
    ensures
        unescaped(escaped_char(c)) == seq![c],
{
    let e = escaped_char(c);
    assert(unescaped(Seq::<char>::empty()) =~= Seq::<char>::empty());
    if c == '"' || c == '\\' || c == '\u{8}' || c == '\t' || c == '\n' || c == '\u{c}' || c
        == '\r' {
        assert(e.skip(2) =~= Seq::<char>::empty());
        assert(unescaped(e) =~= seq![c]);
    } else if (c as u32) < 32 {
        let code: u32 = c as u32;
        lemma_hex_value_of_digit((code / 16) as nat);
        lemma_hex_value_of_digit((code % 16) as nat);
        assert(hex_value('0') == 0);
        assert(hex_value(e[2]) * 4096 + hex_value(e[3]) * 256 + hex_value(e[4]) * 16 + hex_value(
            e[5],
        ) == code);
        vstd::utf8::char_u32_cast(c, code);
        assert(e.skip(6) =~= Seq::<char>::empty());
        assert(unescaped(e) =~= seq![c]);
    } else {
        assert(e.skip(1) =~= Seq::<char>::empty());
        assert(unescaped(e) =~= seq![c]);
    }
}

/// Escaping loses nothing: the escaped body of any text denotes exactly
/// that text again.
pub proof fn lemma_escape_round_trip(s: Seq<char>)
    ensures
        unescaped(escaped(s)) == s,
    decreases s.len(),
{
    if s.len() == 0 {
        assert(unescaped(escaped(s)) =~= s);
    } else {
        lemma_escape_round_trip(s.drop_last());
        lemma_escaped_body(s.drop_last());
        lemma_unescaped_concat(escaped(s.drop_last()), escaped_char(s.last()));
        lemma_unescape_escaped_char(s.last());
        assert(unescaped(escaped(s)) =~= s);
    }
}

/// The lower-case hexadecimal digit for `n`.
fn hex_char(n: u32) -> (r: char)
    requires
        n < 16,
    ensures
        r == hex_digit(n as nat),
{
    if n == 0 {
        '0'
    } else if n == 1 {
        '1'
    } else if n == 2 {
        '2'
    } else if n == 3 {
        '3'
    } else if n == 4 {
        '4'
    } else if n == 5 {
        '5'
    } else if n == 6 {
        '6'
    } else if n == 7 {
        '7'
    } else if n == 8 {
        '8'
    } else if n == 9 {
        '9'
    } else if n == 10 {
        'a'
    } else if n == 11 {
        'b'
    } else if n == 12 {
        'c'
    } else if n == 13 {
        'd'
    } else if n == 14 {
        'e'
    } else {
        'f'
    }
}

/// Append the escaped form of the one character `c` to `out`.
fn push_escaped_char(out: &mut String, c: char)
    ensures
        final(out)@ == old(out)@ + escaped_char(c),
{
    if c == '"' {
        crate::chars::push_char(out, '\\');
        crate::chars::push_char(out, '"');
        assert(out@ =~= old(out)@ + escaped_char(c));
    } else if c == '\\' {
        crate::chars::push_char(out, '\\');
        crate::chars::push_char(out, '\\');
        assert(out@ =~= old(out)@ + escaped_char(c));
    } else if c == '\u{8}' {
        crate::chars::push_char(out, '\\');
        crate::chars::push_char(out, 'b');
        assert(out@ =~= old(out)@ + escaped_char(c));
    } else if c == '\t' {
        crate::chars::push_char(out, '\\');
        crate::chars::push_char(out, 't');
        assert(out@ =~= old(out)@ + escaped_char(c));
    } else if c == '\n' {
        crate::chars::push_char(out, '\\');
        crate::chars::push_char(out, 'n');
        assert(out@ =~= old(out)@ + escaped_char(c));
    } else if c == '\u{c}' {
        crate::chars::push_char(out, '\\');
        crate::chars::push_char(out, 'f');
        assert(out@ =~= old(out)@ + escaped_char(c));
    } else if c == '\r' {
        crate::chars::push_char(out, '\\');
        crate::chars::push_char(out, 'r');
        assert(out@ =~= old(out)@ + escaped_char(c));
    } else if (c as u32) < 32 {
        let code: u32 = c as u32;
        crate::chars::push_char(out, '\\');
        crate::chars::push_char(out, 'u');
        crate::chars::push_char(out, '0');
        crate::chars::push_char(out, '0');
        crate::chars::push_char(out, hex_char(code / 16));
        crate::chars::push_char(out, hex_char(code % 16));
        assert(out@ =~= old(out)@ + escaped_char(c));
    } else {
        crate::chars::push_char(out, c);
        assert(out@ =~= old(out)@ + escaped_char(c));
    }
}

/// Append the JSON string literal denoting `s` — opening quote, escaped
/// characters, closing quote — to `out`.
pub fn push_quoted(out: &mut String, s: &str)
    ensures
        final(out)@ == old(out)@ + quoted(s@),
{
    crate::chars::push_char(out, '"');
    proof {
        assert(out@ =~= old(out)@ + seq!['"'] + escaped(s@.subrange(0, 0)));
    }
    let n: usize = s.unicode_len();
    let mut i: usize = 0;
    while i < n
        invariant
            n == s@.len(),
            i <= n,
            out@ == old(out)@ + seq!['"'] + escaped(s@.subrange(0, i as int)),
        decreases n - i,
    {
        let c = s.get_char(i);
        push_escaped_char(out, c);
        i = i + 1;
        proof {
            assert(s@.subrange(0, i as int).drop_last() =~= s@.subrange(0, i - 1));
            assert(s@.subrange(0, i as int).last() == s@[i - 1]);
            assert(out@ =~= old(out)@ + seq!['"'] + escaped(s@.subrange(0, i as int)));
        }
    }
    crate::chars::push_char(out, '"');
    proof {
        assert(s@.subrange(0, n as int) =~= s@);
        assert(out@ =~= old(out)@ + quoted(s@));
    }
}

} // verus!
