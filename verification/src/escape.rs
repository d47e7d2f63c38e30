//! Text between double quotes, on one line.
//!
//! What a program printed stands in the assertion file as one quoted
//! string. A backslash introduces an escape: `\0`, `\t`, `\n`, `\r`, `\\`
//! and `\"` for the characters they name, and `\u{..}` with the hexadecimal
//! code of any character, in lower case. Control characters and all white
//! space but the space must be escaped, and so must the backslash and the
//! double quote; any other character may stand for itself.
//!
//! The quoted string of a text is what `{:?}` writes for it, which escapes
//! more than it must. Nothing is taken on trust of that form: it is read
//! back, and it is used only if it stands for the text. Were it not to, the
//! text would be written with the escapes that it must have and no others.

use crate::text::{chars_of, is_white_space, same_text, slice_of, string_of, white_space};
use vstd::prelude::*;

verus! {

/// Whether `c` must be escaped for what it is: a control character, or
/// white space other than the space.
pub open spec fn coded(c: char) -> bool {
    let u = c as u32;
    u < 0x20 || 0x7F <= u <= 0x9F || (white_space(c) && c != ' ')
}

/// The character that stands for the hexadecimal digit `d`.
pub open spec fn hex_digit(d: int) -> char {
    if d == 0 {
        '0'
    } else if d == 1 {
        '1'
    } else if d == 2 {
        '2'
    } else if d == 3 {
        '3'
    } else if d == 4 {
        '4'
    } else if d == 5 {
        '5'
    } else if d == 6 {
        '6'
    } else if d == 7 {
        '7'
    } else if d == 8 {
        '8'
    } else if d == 9 {
        '9'
    } else if d == 10 {
        'a'
    } else if d == 11 {
        'b'
    } else if d == 12 {
        'c'
    } else if d == 13 {
        'd'
    } else if d == 14 {
        'e'
    } else {
        'f'
    }
}

/// The hexadecimal digits of `n`, the most significant first, with no
/// leading zero but for `0` itself.
pub open spec fn hex_digits(n: nat) -> Seq<char>
    decreases n,
{
    if n < 16 {
        seq![hex_digit(n as int)]
    } else {
        hex_digits(n / 16).push(hex_digit((n % 16) as int))
    }
}

/// How `c` is written inside the quotes.
pub open spec fn escaped_char(c: char) -> Seq<char> {
    if c == '\0' {
        seq!['\\', '0']
    } else if c == '\t' {
        seq!['\\', 't']
    } else if c == '\n' {
        seq!['\\', 'n']
    } else if c == '\r' {
        seq!['\\', 'r']
    } else if c == '\\' {
        seq!['\\', '\\']
    } else if c == '"' {
        seq!['\\', '"']
    } else if coded(c) {
        seq!['\\', 'u', '{'] + hex_digits(c as nat) + seq!['}']
    } else {
        seq![c]
    }
}

/// How `s` is written inside the quotes: each character as `escaped_char`
/// writes it, in order.
pub open spec fn escaped(s: Seq<char>) -> Seq<char>
    decreases s.len(),
{
    if s.len() == 0 {
        Seq::empty()
    } else {
        escaped(s.drop_last()) + escaped_char(s.last())
    }
}

/// `s` as one quoted string, with the escapes that it must have and no
/// others.
pub open spec fn quoted_text(s: Seq<char>) -> Seq<char> {
    seq!['"'] + escaped(s) + seq!['"']
}

/// The value of the hexadecimal digit `c`, where it is one.
pub open spec fn hex_value(c: char) -> Option<nat> {
    if c == '0' {
        Some(0)
    } else if c == '1' {
        Some(1)
    } else if c == '2' {
        Some(2)
    } else if c == '3' {
        Some(3)
    } else if c == '4' {
        Some(4)
    } else if c == '5' {
        Some(5)
    } else if c == '6' {
        Some(6)
    } else if c == '7' {
        Some(7)
    } else if c == '8' {
        Some(8)
    } else if c == '9' {
        Some(9)
    } else if c == 'a' {
        Some(10)
    } else if c == 'b' {
        Some(11)
    } else if c == 'c' {
        Some(12)
    } else if c == 'd' {
        Some(13)
    } else if c == 'e' {
        Some(14)
    } else if c == 'f' {
        Some(15)
    } else {
        None
    }
}

/// Reads hexadecimal digits from `from` up to a closing brace. Gives the
/// number that `value` and the digits say, and the place after the brace;
/// nothing where something else than a digit comes before the brace, or no
/// brace comes.
pub open spec fn read_code(t: Seq<char>, from: int, value: nat) -> Option<(nat, int)>
    decreases t.len() - from,
{
    if from < 0 || from >= t.len() {
        None
    } else if t[from] == '}' {
        Some((value, from + 1))
    } else {
        match hex_value(t[from]) {
            Some(d) => read_code(t, from + 1, value * 16 + d),
            None => None,
        }
    }
}

/// Whether `n` is the code of a character.
pub open spec fn is_char_code(n: nat) -> bool {
    n <= 0xD7FF || 0xE000 <= n <= 0x10FFFF
}

/// `c` before the characters of `rest`, where there is a `rest`.
pub open spec fn preceded(c: char, rest: Option<Seq<char>>) -> Option<Seq<char>> {
    match rest {
        Some(s) => Some(seq![c] + s),
        None => None,
    }
}

/// The place after the escape that begins at `from`, and the character that
/// the escape stands for; nothing where no escape begins there.
pub open spec fn read_escape(t: Seq<char>, from: int) -> Option<(char, int)> {
    if from < 0 || from + 1 >= t.len() || t[from] != '\\' {
        None
    } else if t[from + 1] == '0' {
        Some(('\0', from + 2))
    } else if t[from + 1] == 't' {
        Some(('\t', from + 2))
    } else if t[from + 1] == 'n' {
        Some(('\n', from + 2))
    } else if t[from + 1] == 'r' {
        Some(('\r', from + 2))
    } else if t[from + 1] == '\\' {
        Some(('\\', from + 2))
    } else if t[from + 1] == '"' {
        Some(('"', from + 2))
    } else if t[from + 1] == 'u' && from + 3 < t.len() && t[from + 2] == '{' && t[from + 3] != '}' {
        match read_code(t, from + 3, 0) {
            Some((n, next)) => if is_char_code(n) {
                Some((n as char, next))
            } else {
                None
            },
            None => None,
        }
    } else {
        None
    }
}

/// A code is read to a place after its first digit.
pub proof fn lemma_read_code_advances(t: Seq<char>, from: int, value: nat)
    ensures
        read_code(t, from, value) matches Some((_, next)) ==> from < next <= t.len(),
    decreases t.len() - from,
{
    if 0 <= from < t.len() && t[from] != '}' {
        match hex_value(t[from]) {
            Some(d) => lemma_read_code_advances(t, from + 1, value * 16 + d),
            None => {},
        }
    }
}

#[via_fn]
proof fn unescaped_from_terminates(t: Seq<char>, from: int) {
    if 0 <= from < t.len() && t[from] == '\\' {
        lemma_read_code_advances(t, from + 3, 0);
    }
}

/// What the text from `from` on stands for, read as the inside of a quoted
/// string: nothing where a control character, white space other than the
/// space or a double quote stands unescaped, or a backslash begins no
/// escape.
pub open spec fn unescaped_from(t: Seq<char>, from: int) -> Option<Seq<char>>
    decreases t.len() - from,
    via unescaped_from_terminates
{
    if from < 0 || from >= t.len() {
        Some(Seq::empty())
    } else if t[from] == '\\' {
        match read_escape(t, from) {
            Some((c, next)) => preceded(c, unescaped_from(t, next)),
            None => None,
        }
    } else if t[from] == '"' || coded(t[from]) {
        None
    } else {
        preceded(t[from], unescaped_from(t, from + 1))
    }
}

/// What `t` stands for, read as the inside of a quoted string.
pub open spec fn unescaped(t: Seq<char>) -> Option<Seq<char>> {
    unescaped_from(t, 0)
}

/// Whether `q` is a quoted string that stands for `s`: a double quote, text
/// that reads back as `s`, and a double quote.
pub open spec fn stands_for(q: Seq<char>, s: Seq<char>) -> bool {
    &&& q.len() >= 2
    &&& q[0] == '"'
    &&& q[q.len() - 1] == '"'
    &&& unescaped(q.subrange(1, q.len() - 1)) == Some(s)
}

/// What `{:?}` writes for a string.
pub uninterp spec fn debug_text(s: Seq<char>) -> Seq<char>;

/// `candidate` where it stands for `s`, else `s` with the escapes that it
/// must have.
pub open spec fn checked_form(candidate: Seq<char>, s: Seq<char>) -> Seq<char> {
    if stands_for(candidate, s) {
        candidate
    } else {
        quoted_text(s)
    }
}

/// The quoted string that is written for `s`.
pub open spec fn quoted_form(s: Seq<char>) -> Seq<char> {
    checked_form(debug_text(s), s)
}

/// `rest` after the characters of `out`, where there is a `rest`.
pub open spec fn followed(out: Seq<char>, rest: Option<Seq<char>>) -> Option<Seq<char>> {
    match rest {
        Some(s) => Some(out + s),
        None => None,
    }
}

/// The character that stands for the hexadecimal digit `d`.
fn hex_char(d: u32) -> (c: char)
    requires
        d < 16,
    ensures
        c == hex_digit(d as int),
{
    if d == 0 {
        '0'
    } else if d == 1 {
        '1'
    } else if d == 2 {
        '2'
    } else if d == 3 {
        '3'
    } else if d == 4 {
        '4'
    } else if d == 5 {
        '5'
    } else if d == 6 {
        '6'
    } else if d == 7 {
        '7'
    } else if d == 8 {
        '8'
    } else if d == 9 {
        '9'
    } else if d == 10 {
        'a'
    } else if d == 11 {
        'b'
    } else if d == 12 {
        'c'
    } else if d == 13 {
        'd'
    } else if d == 14 {
        'e'
    } else {
        'f'
    }
}

/// The digits that stand before the last digits of a number, `n` being the
/// number without those last digits.
spec fn leading_hex_digits(n: nat) -> Seq<char> {
    if n == 0 {
        Seq::empty()
    } else {
        hex_digits(n)
    }
}

/// Appends the hexadecimal digits of `n` to `out`.
fn push_code(out: &mut String, n: u32)
    ensures
        final(out)@ == old(out)@ + hex_digits(n as nat),
{
    let mut v: Vec<char> = Vec::new();
    v.push(hex_char(n % 16));
    let mut rest: u32 = n / 16;
    assert(hex_digits(n as nat) =~= leading_hex_digits(rest as nat) + v@);
    while rest > 0
        invariant
            hex_digits(n as nat) == leading_hex_digits(rest as nat) + v@,
        decreases rest,
    {
        let ghost before = v@;
        v.insert(0, hex_char(rest % 16));
        assert(leading_hex_digits(rest as nat) + before =~= leading_hex_digits(
            (rest / 16) as nat,
        ) + v@);
        rest = rest / 16;
    }
    assert(v@ =~= hex_digits(n as nat));
    let mut i: usize = 0;
    while i < v.len()
        invariant
            i <= v.len(),
            out@ == old(out)@ + v@.take(i as int),
        decreases v.len() - i,
    {
        out.push(v[i]);
        assert(v@.take(i as int + 1) =~= v@.take(i as int).push(v@[i as int]));
        i += 1;
    }
    assert(v@.take(v.len() as int) =~= v@);
}

/// Whether `c` must be escaped for what it is.
fn is_coded(c: char) -> (b: bool)
    ensures
        b == coded(c),
{
    let u: u32 = c as u32;
    u < 0x20 || (0x7F <= u && u <= 0x9F) || (is_white_space(c) && c != ' ')
}

/// Appends `c` to `out` as it is written inside the quotes.
fn push_escaped(out: &mut String, c: char)
    ensures
        final(out)@ == old(out)@ + escaped_char(c),
{
    if c == '\0' {
        out.push('\\');
        out.push('0');
    } else if c == '\t' {
        out.push('\\');
        out.push('t');
    } else if c == '\n' {
        out.push('\\');
        out.push('n');
    } else if c == '\r' {
        out.push('\\');
        out.push('r');
    } else if c == '\\' {
        out.push('\\');
        out.push('\\');
    } else if c == '"' {
        out.push('\\');
        out.push('"');
    } else if is_coded(c) {
        out.push('\\');
        out.push('u');
        out.push('{');
        push_code(out, c as u32);
        out.push('}');
    } else {
        out.push(c);
    }
    assert(out@ =~= old(out)@ + escaped_char(c));
}

/// `text` as one quoted string, with the escapes that it must have and no
/// others.
pub fn plain_quote(text: &str) -> (r: String)
    ensures
        r@ == quoted_text(text@),
{
    broadcast use vstd::string::group_string_axioms;

    let mut out = String::new();
    out.push('"');
    let ghost head = out@;
    assert(text@.take(0) =~= Seq::<char>::empty());
    assert(out@ =~= head + escaped(text@.take(0)));
    for c in it: text.chars()
        invariant
            it.seq() == text@,
            head == seq!['"'],
            out@ == head + escaped(it.seq().take(it.index())),
    {
        let ghost sofar = it.seq().take(it.index());
        let ghost next = it.seq().take(it.index() + 1);
        push_escaped(&mut out, c);
        proof {
            assert(next.drop_last() =~= sofar);
            assert(next.last() == c);
            assert(out@ =~= head + escaped(next));
        }
    }
    assert(text@.take(text@.len() as int) =~= text@);
    out.push('"');
    assert(out@ =~= quoted_text(text@));
    out
}

/// `char::from_u32` gives the character with the code `i`, and nothing
/// where no character has that code: above `10FFFF`, or between `D800` and
/// `DFFF`.
pub assume_specification[ char::from_u32 ](i: u32) -> (r: Option<char>)
    ensures
        r == if is_char_code(i as nat) {
            Some(i as char)
        } else {
            None::<char>
        },
;

/// The `Debug` form of `s`, as `format!` writes it for `{:?}`. The contract
/// claims only that the form depends on the characters of `s` alone.
#[verifier::external_body]
fn debug_string(s: &str) -> (r: String)
    ensures
        r@ == debug_text(s@),
{
    format!("{:?}", s)
}

/// The value of the hexadecimal digit `c`, where it is one.
fn hex_value_of(c: char) -> (r: Option<u32>)
    ensures
        match r {
            Some(d) => d < 16 && hex_value(c) == Some(d as nat),
            None => hex_value(c) is None,
        },
{
    if c == '0' {
        Some(0)
    } else if c == '1' {
        Some(1)
    } else if c == '2' {
        Some(2)
    } else if c == '3' {
        Some(3)
    } else if c == '4' {
        Some(4)
    } else if c == '5' {
        Some(5)
    } else if c == '6' {
        Some(6)
    } else if c == '7' {
        Some(7)
    } else if c == '8' {
        Some(8)
    } else if c == '9' {
        Some(9)
    } else if c == 'a' {
        Some(10)
    } else if c == 'b' {
        Some(11)
    } else if c == 'c' {
        Some(12)
    } else if c == 'd' {
        Some(13)
    } else if c == 'e' {
        Some(14)
    } else if c == 'f' {
        Some(15)
    } else {
        None
    }
}

/// A code that is read is no less than the value that reading began with.
pub proof fn lemma_read_code_grows(t: Seq<char>, from: int, value: nat)
    ensures
        read_code(t, from, value) matches Some((n, _)) ==> n >= value,
    decreases t.len() - from,
{
    if 0 <= from < t.len() && t[from] != '}' {
        match hex_value(t[from]) {
            Some(d) => lemma_read_code_grows(t, from + 1, value * 16 + d),
            None => {},
        }
    }
}

/// Reads the escape that begins at `from`: the character that it stands
/// for, and the place after it.
fn read_escape_at(t: &Vec<char>, from: usize) -> (r: Option<(char, usize)>)
    requires
        from < t.len(),
        t[from as int] == '\\',
    ensures
        match r {
            Some((c, next)) => from < next <= t.len() && read_escape(t@, from as int) == Some(
                (c, next as int),
            ),
            None => read_escape(t@, from as int) is None,
        },
{
    if t.len() - from < 2 {
        return None;
    }
    let e = t[from + 1];
    if e == '0' {
        Some(('\0', from + 2))
    } else if e == 't' {
        Some(('\t', from + 2))
    } else if e == 'n' {
        Some(('\n', from + 2))
    } else if e == 'r' {
        Some(('\r', from + 2))
    } else if e == '\\' {
        Some(('\\', from + 2))
    } else if e == '"' {
        Some(('"', from + 2))
    } else if e == 'u' {
        if t.len() - from < 4 || t[from + 2] != '{' || t[from + 3] == '}' {
            return None;
        }
        let mut i: usize = from + 3;
        let mut value: u32 = 0;
        while i < t.len() && t[i] != '}'
            invariant
                from + 3 <= i <= t.len(),
                from + 3 < t.len(),
                t@[from as int] == '\\',
                t@[from + 1] == 'u',
                t@[from + 2] == '{',
                t@[from + 3] != '}',
                value <= 0x10FFFF,
                read_code(t@, from + 3, 0) == read_code(t@, i as int, value as nat),
            decreases t.len() - i,
        {
            match hex_value_of(t[i]) {
                Some(d) => {
                    if value > (0x10FFFF - d) / 16 {
                        proof {
                            lemma_read_code_grows(t@, i as int + 1, (value * 16 + d) as nat);
                        }
                        return None;
                    }
                    value = value * 16 + d;
                    i += 1;
                },
                None => {
                    return None;
                },
            }
        }
        if i >= t.len() {
            return None;
        }
        match char::from_u32(value) {
            Some(c) => Some((c, i + 1)),
            None => None,
        }
    } else {
        None
    }
}

/// What `t` stands for, read as the inside of a quoted string.
pub fn unescape(t: &Vec<char>) -> (r: Option<Vec<char>>)
    ensures
        match r {
            Some(v) => unescaped(t@) == Some(v@),
            None => unescaped(t@) is None,
        },
{
    let mut out: Vec<char> = Vec::new();
    let mut i: usize = 0;
    assert(followed(out@, unescaped_from(t@, 0)) == unescaped(t@)) by {
        if unescaped_from(t@, 0) is Some {
            assert(out@ + unescaped_from(t@, 0)->0 =~= unescaped_from(t@, 0)->0);
        }
    }
    while i < t.len()
        invariant
            i <= t.len(),
            unescaped(t@) == followed(out@, unescaped_from(t@, i as int)),
        decreases t.len() - i,
    {
        let c = t[i];
        let ghost before = out@;
        let ghost here = i as int;
        if c == '\\' {
            match read_escape_at(t, i) {
                Some((e, next)) => {
                    out.push(e);
                    i = next;
                    proof {
                        let rest = unescaped_from(t@, next as int);
                        assert(unescaped_from(t@, here) == preceded(e, rest));
                        if rest is Some {
                            assert(before + (seq![e] + rest->0) =~= out@ + rest->0);
                        }
                    }
                },
                None => {
                    return None;
                },
            }
        } else if c == '"' || is_coded(c) {
            return None;
        } else {
            out.push(c);
            i += 1;
            proof {
                let rest = unescaped_from(t@, here + 1);
                assert(unescaped_from(t@, here) == preceded(c, rest));
                if rest is Some {
                    assert(before + (seq![c] + rest->0) =~= out@ + rest->0);
                }
            }
        }
    }
    proof {
        assert(unescaped_from(t@, i as int) == Some(Seq::<char>::empty()));
        assert(out@ + Seq::<char>::empty() =~= out@);
    }
    Some(out)
}

/// Whether `candidate` is a quoted string that stands for `text`.
pub fn is_quoted_form_of(candidate: &str, text: &str) -> (b: bool)
    ensures
        b == stands_for(candidate@, text@),
{
    let q = chars_of(candidate);
    let n = q.len();
    if n < 2 || q[0] != '"' || q[n - 1] != '"' {
        return false;
    }
    let inner = slice_of(&q, 1, n - 1);
    match unescape(&inner) {
        Some(v) => same_text(&v, &chars_of(text)),
        None => false,
    }
}

/// `candidate` where it is a quoted string that stands for `text`, else
/// `text` as a quoted string with the escapes that it must have.
pub fn checked_quote(candidate: String, text: &str) -> (r: String)
    ensures
        r@ == checked_form(candidate@, text@),
{
    if is_quoted_form_of(candidate.as_str(), text) {
        candidate
    } else {
        plain_quote(text)
    }
}

/// `text` as one quoted string.
pub fn quote(text: &str) -> (r: String)
    ensures
        r@ == quoted_form(text@),
{
    checked_quote(debug_string(text), text)
}

/// The escaped form of a text begins with the escaped form of its first
/// character.
pub proof fn lemma_escaped_front(s: Seq<char>)
    requires
        s.len() > 0,
    ensures
        escaped(s) == escaped_char(s[0]) + escaped(s.drop_first()),
    decreases s.len(),
{
    if s.len() == 1 {
        assert(s.drop_last() =~= Seq::<char>::empty());
        assert(s.drop_first() =~= Seq::<char>::empty());
        assert(escaped(s) =~= escaped_char(s[0]) + escaped(s.drop_first()));
    } else {
        lemma_escaped_front(s.drop_last());
        assert(s.drop_last().drop_first() =~= s.drop_first().drop_last());
        assert(s.drop_last()[0] == s[0]);
        assert(s.drop_first().last() == s.last());
        assert(escaped(s) =~= escaped_char(s[0]) + escaped(s.drop_first()));
    }
}

/// A hexadecimal digit is read back as the digit that it is, and is no
/// closing brace.
pub proof fn lemma_hex_digit(d: int)
    requires
        0 <= d < 16,
    ensures
        hex_value(hex_digit(d)) == Some(d as nat),
        hex_digit(d) != '}',
{
}

/// The digits of a number are read back as that number.
pub proof fn lemma_read_hex_digits(t: Seq<char>, from: int, n: nat)
    requires
        0 <= from,
        from + hex_digits(n).len() <= t.len(),
        t.subrange(from, from + hex_digits(n).len()) == hex_digits(n),
    ensures
        hex_digits(n).len() > 0,
        t[from] != '}',
        read_code(t, from, 0) == read_code(t, from + hex_digits(n).len(), n),
    decreases n,
{
    let digits = hex_digits(n);
    let len = digits.len() as int;
    if n < 16 {
        lemma_hex_digit(n as int);
        assert(t[from] == digits[0]);
    } else {
        let m = n / 16;
        let d = (n % 16) as int;
        lemma_hex_digit(d);
        assert(digits == hex_digits(m).push(hex_digit(d)));
        assert(t.subrange(from, from + len - 1) =~= hex_digits(m));
        lemma_read_hex_digits(t, from, m);
        assert(t[from + len - 1] == digits[len - 1]);
        assert(m * 16 + d == n);
    }
}

/// The escaped form of a character is read back as that character.
pub proof fn lemma_read_escaped_char(t: Seq<char>, from: int, c: char)
    requires
        0 <= from,
        from + escaped_char(c).len() <= t.len(),
        t.subrange(from, from + escaped_char(c).len()) == escaped_char(c),
    ensures
        escaped_char(c).len() > 0,
        escaped_char(c).len() == 1 ==> t[from] == c && c != '\\' && c != '"' && !coded(c),
        escaped_char(c).len() > 1 ==> t[from] == '\\' && read_escape(t, from) == Some(
            (c, from + escaped_char(c).len()),
        ),
{
    let e = escaped_char(c);
    let len = e.len() as int;
    let part = t.subrange(from, from + len);
    assert(forall|i: int| 0 <= i < len ==> t[from + i] == #[trigger] part[i]);
    if c == '\0' || c == '\t' || c == '\n' || c == '\r' || c == '\\' || c == '"' {
        assert(t[from] == e[0]);
        assert(t[from + 1] == e[1]);
    } else if coded(c) {
        let n = c as nat;
        let digits = hex_digits(n);
        let k = digits.len() as int;
        assert(len == k + 4);
        assert(t[from] == e[0]);
        assert(t[from + 1] == e[1]);
        assert(t[from + 2] == e[2]);
        assert(t[from + 3 + k] == e[3 + k]);
        assert(t.subrange(from + 3, from + 3 + k) =~= digits) by {
            assert forall|i: int| 0 <= i < k implies t[from + 3 + i] == digits[i] by {
                assert(t[from + 3 + i] == e[3 + i]);
            }
        }
        lemma_read_hex_digits(t, from + 3, n);
        assert(read_code(t, from + 3 + k, n) == Some((n, from + 4 + k)));
        assert(is_char_code(n));
        assert(n as char == c);
    } else {
        assert(t[from] == e[0]);
    }
}

/// Text that is the escaped form of `s` from `from` on is read back as `s`.
pub proof fn lemma_unescaped_from(t: Seq<char>, from: int, s: Seq<char>)
    requires
        0 <= from <= t.len(),
        t.subrange(from, t.len() as int) == escaped(s),
    ensures
        unescaped_from(t, from) == Some(s),
    decreases s.len(),
{
    if s.len() == 0 {
        assert(t.subrange(from, t.len() as int).len() == 0);
        assert(s =~= Seq::<char>::empty());
    } else {
        let c = s[0];
        let rest = s.drop_first();
        let e = escaped_char(c);
        lemma_escaped_front(s);
        let tail = t.subrange(from, t.len() as int);
        assert(tail.len() == e.len() + escaped(rest).len());
        assert(t.subrange(from, from + e.len()) =~= e) by {
            assert forall|i: int| 0 <= i < e.len() implies t[from + i] == e[i] by {
                assert(t[from + i] == tail[i]);
            }
        }
        assert(t.subrange(from + e.len(), t.len() as int) =~= escaped(rest)) by {
            assert forall|i: int| 0 <= i < escaped(rest).len() implies t[from + e.len() + i]
                == escaped(rest)[i] by {
                assert(t[from + e.len() + i] == tail[e.len() + i]);
            }
        }
        lemma_read_escaped_char(t, from, c);
        lemma_unescaped_from(t, from + e.len(), rest);
        assert(seq![c] + rest =~= s);
    }
}

/// What was escaped is read back as it was: the escaped form of a text
/// stands for that text and for no other.
pub proof fn law_escape_round_trip(s: Seq<char>)
    ensures
        unescaped(escaped(s)) == Some(s),
{
    let t = escaped(s);
    assert(t.subrange(0, t.len() as int) =~= t);
    lemma_unescaped_from(t, 0, s);
}

/// Two texts with the same escaped form are the same text.
pub proof fn law_escape_is_injective(a: Seq<char>, b: Seq<char>)
    requires
        escaped(a) == escaped(b),
    ensures
        a == b,
{
    law_escape_round_trip(a);
    law_escape_round_trip(b);
}

/// Text that is read as a code holds nothing that must be escaped, from
/// the place where reading begins to the closing brace.
pub proof fn lemma_code_is_plain(t: Seq<char>, from: int, value: nat, i: int)
    requires
        read_code(t, from, value) matches Some((_, next)) && from <= i < next,
    ensures
        !coded(t[i]),
        t[i] != '"',
    decreases t.len() - from,
{
    if t[from] != '}' {
        if i > from {
            lemma_code_is_plain(t, from + 1, value * 16 + hex_value(t[from])->0, i);
        }
    }
}

/// Text that reads back holds nothing that must be escaped: no control
/// character and no white space but the space.
pub proof fn lemma_read_text_is_one_line(t: Seq<char>, from: int, i: int)
    requires
        0 <= from <= i < t.len(),
        unescaped_from(t, from) is Some,
    ensures
        !coded(t[i]),
    decreases t.len() - from,
{
    if t[from] == '\\' {
        let (c, next) = read_escape(t, from)->0;
        lemma_read_code_advances(t, from + 3, 0);
        if i >= next {
            lemma_read_text_is_one_line(t, next, i);
        } else if i >= from + 3 {
            lemma_code_is_plain(t, from + 3, 0, i);
        }
    } else if i > from {
        lemma_read_text_is_one_line(t, from + 1, i);
    }
}

/// The quoted string with the escapes that a text must have stands for
/// that text.
pub proof fn law_quoted_text_stands_for(s: Seq<char>)
    ensures
        stands_for(quoted_text(s), s),
{
    let q = quoted_text(s);
    assert(q.subrange(1, q.len() - 1) =~= escaped(s));
    law_escape_round_trip(s);
}

/// The quoted string that is written for a text stands for that text, and
/// for no other: what is written reads back as what was printed.
pub proof fn law_quoted_form_round_trip(s: Seq<char>, other: Seq<char>)
    ensures
        stands_for(quoted_form(s), s),
        stands_for(quoted_form(s), other) ==> other == s,
        quoted_form(s) == quoted_form(other) ==> other == s,
{
    law_quoted_text_stands_for(s);
    law_quoted_text_stands_for(other);
}

/// A quoted string that stands for a text is on one line: it holds no
/// control character, and no white space but the space. So is the quoted
/// string that is written for any text.
pub proof fn law_quoted_is_one_line(q: Seq<char>, s: Seq<char>, i: int)
    requires
        stands_for(q, s),
        0 <= i < q.len(),
    ensures
        !coded(q[i]),
{
    let inner = q.subrange(1, q.len() - 1);
    if 1 <= i < q.len() - 1 {
        lemma_read_text_is_one_line(inner, 0, i - 1);
        assert(inner[i - 1] == q[i]);
    }
}

} // verus!
