//! Text handling for the evaluation driver: whitespace trimming of the URL
//! and hostname inputs, rendering of arbitrary text as a script string
//! literal (the audited escaping step that keeps argument text from being
//! interpolated unescaped), and assembly of the full program: prelude, user
//! script, then the synthesized entry-point invocation.

use vstd::prelude::*;

verus! {

/// A whitespace character, as the trimming of URL and hostname understands
/// it: the Unicode `White_Space` set.
pub open spec fn is_space(c: char) -> bool {
    ||| c == ' '
    ||| c == '\t'
    ||| c == '\n'
    ||| c == '\u{b}'
    ||| c == '\u{c}'
    ||| c == '\r'
    ||| c == '\u{85}'
    ||| c == '\u{a0}'
    ||| c == '\u{1680}'
    ||| ('\u{2000}' <= c && c <= '\u{200a}')
    ||| c == '\u{2028}'
    ||| c == '\u{2029}'
    ||| c == '\u{202f}'
    ||| c == '\u{205f}'
    ||| c == '\u{3000}'
}

/// Runtime test for [`is_space`].
pub fn is_space_char(c: char) -> (r: bool)
    ensures
        r == is_space(c),
{
    c == ' ' || c == '\t' || c == '\n' || c == '\u{b}' || c == '\u{c}' || c == '\r'
        || c == '\u{85}' || c == '\u{a0}' || c == '\u{1680}'
        || ('\u{2000}' <= c && c <= '\u{200a}') || c == '\u{2028}' || c == '\u{2029}'
        || c == '\u{202f}' || c == '\u{205f}' || c == '\u{3000}'
}

/// The text with its leading whitespace removed.
pub open spec fn trim_start_spec(s: Seq<char>) -> Seq<char>
    decreases s.len(),
{
    if s.len() > 0 && is_space(s[0]) {
        trim_start_spec(s.drop_first())
    } else {
        s
    }
}

/// The text with its trailing whitespace removed.
pub open spec fn trim_end_spec(s: Seq<char>) -> Seq<char>
    decreases s.len(),
{
    if s.len() > 0 && is_space(s[s.len() - 1]) {
        trim_end_spec(s.drop_last())
    } else {
        s
    }
}

/// The text with leading and trailing whitespace removed.
pub open spec fn trim_spec(s: Seq<char>) -> Seq<char> {
    trim_end_spec(trim_start_spec(s))
}

proof fn lemma_trim_start_props(s: Seq<char>)
    ensures
        trim_start_spec(s).len() <= s.len(),
        trim_start_spec(s) == s.subrange(
            s.len() - trim_start_spec(s).len(),
            s.len() as int,
        ),
        trim_start_spec(s).len() > 0 ==> !is_space(trim_start_spec(s)[0]),
        forall|k: int|
            0 <= k < s.len() - trim_start_spec(s).len() ==> is_space(s[k]),
    decreases s.len(),
{
    if s.len() > 0 && is_space(s[0]) {
        lemma_trim_start_props(s.drop_first());
        let t = trim_start_spec(s);
        assert(s.drop_first().subrange(
            s.drop_first().len() - t.len(),
            s.drop_first().len() as int,
        ) =~= s.subrange(s.len() - t.len(), s.len() as int));
        assert forall|k: int| 0 <= k < s.len() - t.len() implies is_space(s[k]) by {
            if k > 0 {
                assert(s[k] == s.drop_first()[k - 1]);
            }
        }
    } else {
        assert(trim_start_spec(s) =~= s.subrange(0, s.len() as int));
    }
}

proof fn lemma_trim_end_props(s: Seq<char>)
    ensures
        trim_end_spec(s).len() <= s.len(),
        trim_end_spec(s) == s.subrange(0, trim_end_spec(s).len() as int),
        trim_end_spec(s).len() > 0 ==> !is_space(
            trim_end_spec(s)[trim_end_spec(s).len() - 1],
        ),
        forall|k: int| trim_end_spec(s).len() <= k < s.len() ==> is_space(s[k]),
    decreases s.len(),
{
    if s.len() > 0 && is_space(s[s.len() - 1]) {
        lemma_trim_end_props(s.drop_last());
        let t = trim_end_spec(s);
        assert(s.drop_last().subrange(0, t.len() as int) =~= s.subrange(0, t.len() as int));
        assert forall|k: int| t.len() <= k < s.len() implies is_space(s[k]) by {
            if k < s.len() - 1 {
                assert(s[k] == s.drop_last()[k]);
            }
        }
    } else {
        assert(trim_end_spec(s) =~= s.subrange(0, s.len() as int));
    }
}

/// Trimming leaves no whitespace at either end, and a second trim changes
/// nothing: whitespace is removed exactly once, after which the text is
/// already clean.
pub proof fn lemma_trim_trimmed(s: Seq<char>)
    ensures
        trim_spec(s).len() > 0 ==> !is_space(trim_spec(s)[0]),
        trim_spec(s).len() > 0 ==> !is_space(trim_spec(s)[trim_spec(s).len() - 1]),
        trim_spec(trim_spec(s)) == trim_spec(s),
{
    let a = trim_start_spec(s);
    let t = trim_spec(s);
    lemma_trim_start_props(s);
    lemma_trim_end_props(a);
    if t.len() > 0 {
        assert(t[0] == a[0]);
    }
    // a second pass: the first element is not whitespace, so trim_start_spec
    // is the identity, and the last element is not whitespace, so
    // trim_end_spec is the identity as well
    assert(trim_start_spec(t) == t);
    assert(trim_end_spec(t) == t);
}

/// Where the trimmed text starts in the original.
pub open spec fn trim_lo(s: Seq<char>) -> int {
    s.len() - trim_start_spec(s).len()
}

/// Where the trimmed text ends in the original.
pub open spec fn trim_hi(s: Seq<char>) -> int {
    trim_lo(s) + trim_spec(s).len()
}

/// Trimming removes characters only at the two edges, and only whitespace:
/// the result is a contiguous piece of the original, and everything dropped
/// on either side of it is whitespace.
pub proof fn lemma_trim_exact(s: Seq<char>)
    ensures
        0 <= trim_lo(s) <= trim_hi(s) <= s.len(),
        trim_spec(s) == s.subrange(trim_lo(s), trim_hi(s)),
        forall|k: int| 0 <= k < trim_lo(s) ==> is_space(s[k]),
        forall|k: int| trim_hi(s) <= k < s.len() ==> is_space(s[k]),
{
    let a = trim_start_spec(s);
    let t = trim_spec(s);
    let lo = trim_lo(s);
    lemma_trim_start_props(s);
    lemma_trim_end_props(a);
    assert(s.subrange(lo, s.len() as int).subrange(0, t.len() as int) =~= s.subrange(
        lo,
        lo + t.len(),
    ));
    assert forall|k: int| trim_hi(s) <= k < s.len() implies is_space(s[k]) by {
        if k < s.len() {
            assert(s[k] == a[k - lo] || k >= lo + a.len() || k < lo);
            if lo <= k < lo + a.len() {
                assert(is_space(a[k - lo]));
            }
        }
    }
}

proof fn lemma_trim_start_step(s: Seq<char>, i: int)
    requires
        0 <= i < s.len(),
        is_space(s[i]),
    ensures
        trim_start_spec(s.subrange(i, s.len() as int)) == trim_start_spec(
            s.subrange(i + 1, s.len() as int),
        ),
{
    let sub = s.subrange(i, s.len() as int);
    assert(sub.drop_first() =~= s.subrange(i + 1, s.len() as int));
}

proof fn lemma_trim_end_step(s: Seq<char>, i: int, j: int)
    requires
        0 <= i < j <= s.len(),
        is_space(s[j - 1]),
    ensures
        trim_end_spec(s.subrange(i, j)) == trim_end_spec(s.subrange(i, j - 1)),
{
    let sub = s.subrange(i, j);
    assert(sub.drop_last() =~= s.subrange(i, j - 1));
}

/// Removes leading and trailing whitespace, exactly once.
pub fn trim_text(s: &str) -> (r: String)
    ensures
        r@ == trim_spec(s@),
{
    let len = s.unicode_len();
    proof {
        assert(s@.subrange(0, len as int) =~= s@);
    }
    let mut i: usize = 0;
    while i < len && is_space_char(s.get_char(i))
        invariant
            0 <= i <= len,
            len == s@.len(),
            trim_start_spec(s@) == trim_start_spec(s@.subrange(i as int, len as int)),
        decreases len - i,
    {
        proof {
            lemma_trim_start_step(s@, i as int);
        }
        i = i + 1;
    }
    proof {
        assert(s@.subrange(0, len as int) =~= s@);
        let sub = s@.subrange(i as int, len as int);
        if i < len {
            assert(sub.len() > 0 && !is_space(sub[0]));
        }
        assert(trim_start_spec(sub) == sub);
    }
    let mut j: usize = len;
    while j > i && is_space_char(s.get_char(j - 1))
        invariant
            i <= j <= len,
            len == s@.len(),
            trim_start_spec(s@) == s@.subrange(i as int, len as int),
            trim_end_spec(s@.subrange(i as int, len as int)) == trim_end_spec(
                s@.subrange(i as int, j as int),
            ),
        decreases j,
    {
        proof {
            lemma_trim_end_step(s@, i as int, j as int);
        }
        j = j - 1;
    }
    proof {
        let sub = s@.subrange(i as int, j as int);
        if j > i {
            assert(sub.len() > 0 && !is_space(sub[sub.len() - 1]));
        }
        assert(trim_end_spec(sub) == sub);
    }
    s.substring_char(i, j).to_owned()
}

/// The hexadecimal digit for a value below sixteen.
pub open spec fn hex_digit(n: int) -> char {
    seq!['0', '1', '2', '3', '4', '5', '6', '7', '8', '9', 'a', 'b', 'c', 'd', 'e', 'f'][n]
}

/// How one character of argument text is rendered inside a script string
/// literal.  Quotes, backslashes and the common control characters take
/// their short escapes; the remaining control characters and the two
/// line-separator characters (which end a line in script source) take a
/// `\u` escape; everything else stands for itself.
pub open spec fn escape_char_spec(c: char) -> Seq<char> {
    if c == '"' {
        seq!['\\', '"']
    } else if c == '\\' {
        seq!['\\', '\\']
    } else if c == '\n' {
        seq!['\\', 'n']
    } else if c == '\r' {
        seq!['\\', 'r']
    } else if c == '\t' {
        seq!['\\', 't']
    } else if (c as u32) < 0x20 {
        seq!['\\', 'u', '0', '0', hex_digit((c as u32) as int / 16), hex_digit(
            (c as u32) as int % 16,
        )]
    } else if c == '\u{2028}' {
        seq!['\\', 'u', '2', '0', '2', '8']
    } else if c == '\u{2029}' {
        seq!['\\', 'u', '2', '0', '2', '9']
    } else {
        seq![c]
    }
}

/// The rendering of a whole text between the quotes of a string literal.
pub open spec fn escape_body_spec(s: Seq<char>) -> Seq<char>
    decreases s.len(),
{
    if s.len() == 0 {
        Seq::empty()
    } else {
        escape_char_spec(s[0]) + escape_body_spec(s.drop_first())
    }
}

/// A complete script string literal denoting exactly the given text.
pub open spec fn js_literal_spec(s: Seq<char>) -> Seq<char> {
    seq!['"'] + escape_body_spec(s) + seq!['"']
}

/// A literal body a scanner can never fall out of: reading left to right,
/// a backslash always has a character to consume after it, and every
/// character outside an escape is neither the closing quote nor a line
/// terminator.
pub open spec fn literal_body_closed(b: Seq<char>) -> bool
    decreases b.len(),
{
    if b.len() == 0 {
        true
    } else if b[0] == '\\' {
        b.len() >= 2 && literal_body_closed(b.skip(2))
    } else {
        b[0] != '"' && b[0] != '\n' && b[0] != '\r' && b[0] != '\u{2028}' && b[0] != '\u{2029}'
            && literal_body_closed(b.skip(1))
    }
}

/// A character outside an escape unit that the scanner of
/// [`literal_body_closed`] accepts and steps over.
pub open spec fn plain_char(c: char) -> bool {
    c != '\\' && c != '"' && c != '\n' && c != '\r' && c != '\u{2028}' && c != '\u{2029}'
}

proof fn lemma_hex_digit_plain(n: int)
    requires
        0 <= n < 16,
    ensures
        plain_char(hex_digit(n)),
{
    if n == 0 {
    } else if n == 1 {
    } else if n == 2 {
    } else if n == 3 {
    } else if n == 4 {
    } else if n == 5 {
    } else if n == 6 {
    } else if n == 7 {
    } else if n == 8 {
    } else if n == 9 {
    } else if n == 10 {
    } else if n == 11 {
    } else if n == 12 {
    } else if n == 13 {
    } else if n == 14 {
    } else {
    }
}

proof fn lemma_closed_prepend_escape(c: char, b: Seq<char>)
    requires
        literal_body_closed(b),
    ensures
        literal_body_closed(escape_char_spec(c) + b),
{
    let e = escape_char_spec(c);
    if e.len() == 2 {
        assert((e + b)[0] == '\\');
        assert((e + b).skip(2) =~= b);
    } else if e.len() == 6 {
        if (c as u32) < 0x20 && c != '\n' && c != '\r' && c != '\t' {
            lemma_hex_digit_plain((c as u32) as int / 16);
            lemma_hex_digit_plain((c as u32) as int % 16);
        }
        assert(plain_char(e[2]) && plain_char(e[3]) && plain_char(e[4]) && plain_char(e[5]));
        assert((e + b)[0] == '\\');
        assert((e + b).skip(2) =~= e.skip(2) + b);
        assert((e.skip(2) + b)[0] == e[2]);
        assert((e.skip(2) + b).skip(1) =~= e.skip(3) + b);
        assert((e.skip(3) + b)[0] == e[3]);
        assert((e.skip(3) + b).skip(1) =~= e.skip(4) + b);
        assert((e.skip(4) + b)[0] == e[4]);
        assert((e.skip(4) + b).skip(1) =~= e.skip(5) + b);
        assert((e.skip(5) + b)[0] == e[5]);
        assert((e.skip(5) + b).skip(1) =~= b);
        assert(literal_body_closed(e.skip(5) + b));
        assert(literal_body_closed(e.skip(4) + b));
        assert(literal_body_closed(e.skip(3) + b));
        assert(literal_body_closed(e.skip(2) + b));
        assert(literal_body_closed(e + b));
    } else {
        assert(e =~= seq![c]);
        assert((e + b)[0] == c);
        assert((e + b).skip(1) =~= b);
    }
}

/// The escaper is injection-safe: however hostile the argument text, the
/// rendered literal body never contains a stray closing quote, a dangling
/// backslash, or a line terminator, so the synthesized call parses as one
/// string literal on one line.
pub proof fn lemma_escape_body_closed(s: Seq<char>)
    ensures
        literal_body_closed(escape_body_spec(s)),
    decreases s.len(),
{
    if s.len() == 0 {
    } else {
        lemma_escape_body_closed(s.drop_first());
        lemma_closed_prepend_escape(s[0], escape_body_spec(s.drop_first()));
    }
}

/// The numeric value of a hexadecimal digit character; anything else reads
/// as sixteen.
pub open spec fn hex_val(c: char) -> int {
    if c == '0' {
        0
    } else if c == '1' {
        1
    } else if c == '2' {
        2
    } else if c == '3' {
        3
    } else if c == '4' {
        4
    } else if c == '5' {
        5
    } else if c == '6' {
        6
    } else if c == '7' {
        7
    } else if c == '8' {
        8
    } else if c == '9' {
        9
    } else if c == 'a' {
        10
    } else if c == 'b' {
        11
    } else if c == 'c' {
        12
    } else if c == 'd' {
        13
    } else if c == 'e' {
        14
    } else if c == 'f' {
        15
    } else {
        16
    }
}

/// What a short escape denotes.
pub open spec fn unescape_one(c: char) -> char {
    if c == 'n' {
        '\n'
    } else if c == 'r' {
        '\r'
    } else if c == 't' {
        '\t'
    } else {
        c
    }
}

/// The text a literal body denotes, read as a script scanner reads it: a
/// backslash starts an escape — `\u` followed by four hexadecimal digits
/// denotes the character with that code, any other escaped character
/// denotes itself or its short-escape meaning — and every other character
/// denotes itself.
pub open spec fn unescape_body(b: Seq<char>) -> Seq<char>
    decreases b.len(),
{
    if b.len() == 0 {
        Seq::empty()
    } else if b[0] == '\\' {
        if b.len() >= 6 && b[1] == 'u' {
            seq![
                ((4096 * hex_val(b[2]) + 256 * hex_val(b[3]) + 16 * hex_val(b[4]) + hex_val(
                    b[5],
                )) as u32) as char,
            ] + unescape_body(b.skip(6))
        } else if b.len() >= 2 {
            seq![unescape_one(b[1])] + unescape_body(b.skip(2))
        } else {
            Seq::empty()
        }
    } else {
        seq![b[0]] + unescape_body(b.skip(1))
    }
}

proof fn lemma_hex_val_of_digit(n: int)
    requires
        0 <= n < 16,
    ensures
        hex_val(hex_digit(n)) == n,
{
    if n == 0 {
    } else if n == 1 {
    } else if n == 2 {
    } else if n == 3 {
    } else if n == 4 {
    } else if n == 5 {
    } else if n == 6 {
    } else if n == 7 {
    } else if n == 8 {
    } else if n == 9 {
    } else if n == 10 {
    } else if n == 11 {
    } else if n == 12 {
    } else if n == 13 {
    } else if n == 14 {
    } else {
    }
}

proof fn lemma_unescape_prepend_escape(c: char, b: Seq<char>)
    ensures
        unescape_body(escape_char_spec(c) + b) == seq![c] + unescape_body(b),
{
    let e = escape_char_spec(c);
    let w = e + b;
    assert(w.len() >= 1 && w[0] == e[0]);
    if e.len() == 2 {
        assert(w[1] == e[1]);
        assert(w.skip(2) =~= b);
        assert(e[1] != 'u');
        assert(unescape_body(w) =~= seq![c] + unescape_body(b));
    } else if e.len() == 6 {
        assert(w[1] == e[1] && w[2] == e[2] && w[3] == e[3] && w[4] == e[4] && w[5] == e[5]);
        assert(w.skip(6) =~= b);
        if (c as u32) < 0x20 && c != '\n' && c != '\r' && c != '\t' {
            lemma_hex_val_of_digit((c as u32) as int / 16);
            lemma_hex_val_of_digit((c as u32) as int % 16);
            assert(4096 * hex_val(e[2]) + 256 * hex_val(e[3]) + 16 * hex_val(e[4]) + hex_val(
                e[5],
            ) == c as u32);
        } else {
            assert(c == '\u{2028}' || c == '\u{2029}');
            assert(4096 * hex_val(e[2]) + 256 * hex_val(e[3]) + 16 * hex_val(e[4]) + hex_val(
                e[5],
            ) == c as u32);
        }
        vstd::utf8::char_u32_cast(c, c as u32);
        assert(unescape_body(w) =~= seq![c] + unescape_body(b));
    } else {
        assert(e =~= seq![c]);
        assert(w[0] == c && c != '\\');
        assert(w.skip(1) =~= b);
        assert(unescape_body(w) =~= seq![c] + unescape_body(b));
    }
}

/// The escaper denotes exactly the text it was given: reading the rendered
/// literal body back, escape by escape, yields the original text.  In
/// particular no two texts render to the same literal.
pub proof fn lemma_unescape_escape(s: Seq<char>)
    ensures
        unescape_body(escape_body_spec(s)) == s,
    decreases s.len(),
{
    if s.len() == 0 {
        assert(unescape_body(escape_body_spec(s)) =~= s);
    } else {
        lemma_unescape_escape(s.drop_first());
        lemma_unescape_prepend_escape(s[0], escape_body_spec(s.drop_first()));
        assert(unescape_body(escape_body_spec(s)) =~= seq![s[0]] + s.drop_first());
        assert(seq![s[0]] + s.drop_first() =~= s);
    }
}

proof fn lemma_escape_body_snoc(s: Seq<char>, c: char)
    ensures
        escape_body_spec(s.push(c)) == escape_body_spec(s) + escape_char_spec(c),
    decreases s.len(),
{
    if s.len() == 0 {
        assert(s.push(c)[0] == c);
        assert(s.push(c).drop_first() =~= Seq::<char>::empty());
        assert(escape_body_spec(Seq::<char>::empty()) == Seq::<char>::empty());
        assert(escape_body_spec(s.push(c)) == escape_char_spec(c) + Seq::<char>::empty());
        assert(escape_char_spec(c) + Seq::<char>::empty() =~= Seq::<char>::empty()
            + escape_char_spec(c));
        assert(s =~= Seq::<char>::empty());
    } else {
        assert(s.push(c)[0] == s[0]);
        assert(s.push(c).drop_first() =~= s.drop_first().push(c));
        lemma_escape_body_snoc(s.drop_first(), c);
        assert(escape_body_spec(s.push(c)) == escape_char_spec(s[0]) + (escape_body_spec(
            s.drop_first(),
        ) + escape_char_spec(c)));
        assert(escape_char_spec(s[0]) + (escape_body_spec(s.drop_first()) + escape_char_spec(c))
            =~= (escape_char_spec(s[0]) + escape_body_spec(s.drop_first())) + escape_char_spec(c));
    }
}

/// Relies on `String::push`: appends exactly the given character to the end
/// of the string.
#[verifier::external_body]
fn push_char(out: &mut String, c: char)
    ensures
        final(out)@ == old(out)@.push(c),
{
    out.push(c);
}

/// Runtime form of [`hex_digit`].
fn hex_digit_char(n: u32) -> (c: char)
    requires
        n < 16,
    ensures
        c == hex_digit(n as int),
{
    match n {
        0 => '0',
        1 => '1',
        2 => '2',
        3 => '3',
        4 => '4',
        5 => '5',
        6 => '6',
        7 => '7',
        8 => '8',
        9 => '9',
        10 => 'a',
        11 => 'b',
        12 => 'c',
        13 => 'd',
        14 => 'e',
        _ => 'f',
    }
}

fn push_escaped(out: &mut String, c: char)
    ensures
        final(out)@ == old(out)@ + escape_char_spec(c),
{
    let ghost pre = out@;
    if c == '"' {
        push_char(out, '\\');
        push_char(out, '"');
        assert(out@ =~= pre + escape_char_spec(c));
    } else if c == '\\' {
        push_char(out, '\\');
        push_char(out, '\\');
        assert(out@ =~= pre + escape_char_spec(c));
    } else if c == '\n' {
        push_char(out, '\\');
        push_char(out, 'n');
        assert(out@ =~= pre + escape_char_spec(c));
    } else if c == '\r' {
        push_char(out, '\\');
        push_char(out, 'r');
        assert(out@ =~= pre + escape_char_spec(c));
    } else if c == '\t' {
        push_char(out, '\\');
        push_char(out, 't');
        assert(out@ =~= pre + escape_char_spec(c));
    } else if (c as u32) < 0x20 {
        push_char(out, '\\');
        push_char(out, 'u');
        push_char(out, '0');
        push_char(out, '0');
        push_char(out, hex_digit_char((c as u32) / 16));
        push_char(out, hex_digit_char((c as u32) % 16));
        assert(out@ =~= pre + escape_char_spec(c));
    } else if c == '\u{2028}' {
        push_char(out, '\\');
        push_char(out, 'u');
        push_char(out, '2');
        push_char(out, '0');
        push_char(out, '2');
        push_char(out, '8');
        assert(out@ =~= pre + escape_char_spec(c));
    } else if c == '\u{2029}' {
        push_char(out, '\\');
        push_char(out, 'u');
        push_char(out, '2');
        push_char(out, '0');
        push_char(out, '2');
        push_char(out, '9');
        assert(out@ =~= pre + escape_char_spec(c));
    } else {
        push_char(out, c);
        assert(out@ =~= pre + escape_char_spec(c));
    }
}

/// Renders text as a quoted, escaped script string literal.
pub fn js_literal(s: &str) -> (r: String)
    ensures
        r@ == js_literal_spec(s@),
{
    let mut out = String::new();
    push_char(&mut out, '"');
    let len = s.unicode_len();
    let mut i: usize = 0;
    proof {
        assert(s@.subrange(0, 0) =~= Seq::<char>::empty());
        assert(out@ =~= seq!['"'] + escape_body_spec(s@.subrange(0, 0)));
    }
    while i < len
        invariant
            0 <= i <= len,
            len == s@.len(),
            out@ == seq!['"'] + escape_body_spec(s@.subrange(0, i as int)),
        decreases len - i,
    {
        let c = s.get_char(i);
        push_escaped(&mut out, c);
        proof {
            assert(s@.subrange(0, i + 1) =~= s@.subrange(0, i as int).push(c));
            lemma_escape_body_snoc(s@.subrange(0, i as int), c);
        }
        i = i + 1;
    }
    proof {
        assert(s@.subrange(0, len as int) =~= s@);
    }
    push_char(&mut out, '"');
    proof {
        assert(out@ =~= js_literal_spec(s@));
    }
    out
}

/// The full program handed to the script engine: the standard prelude, the
/// user script, and a closing invocation of the well-known entry point with
/// the trimmed URL and hostname rendered as string literals.
pub open spec fn program_spec(
    prelude: Seq<char>,
    script: Seq<char>,
    url: Seq<char>,
    host: Seq<char>,
) -> Seq<char> {
    prelude + "\n"@ + script + "\n"@ + "FindProxyForURL("@ + js_literal_spec(trim_spec(url))
        + ","@ + js_literal_spec(trim_spec(host)) + ")"@
}

/// Builds the program text, trimming the URL and hostname and escaping them
/// into string-literal arguments.
pub fn assemble_program(prelude: &str, script: &str, url: &str, host: &str) -> (r: String)
    ensures
        r@ == program_spec(prelude@, script@, url@, host@),
{
    let mut p = String::from_str(prelude);
    p.append("\n");
    p.append(script);
    p.append("\n");
    p.append("FindProxyForURL(");
    let u = trim_text(url);
    let ul = js_literal(u.as_str());
    p.append(ul.as_str());
    p.append(",");
    let h = trim_text(host);
    let hl = js_literal(h.as_str());
    p.append(hl.as_str());
    p.append(")");
    p
}

} // verus!
