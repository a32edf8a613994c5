//! Measuring text in terminal columns.

use vstd::prelude::*;
use vstd::utf8::{encode_utf8, encode_scalar, char_is_scalar};
use crate::text::chars_of;

verus! {

broadcast use vstd::string::group_string_axioms;

/// The display width of a character as `unicode-width` gives it; `None` for
/// control characters.
pub uninterp spec fn unicode_char_width(c: char) -> Option<usize>;

/// The display width of a string as `unicode-width` gives it.
pub uninterp spec fn unicode_str_width(s: Seq<char>) -> usize;

/// Calls `UnicodeWidthChar::width` of `unicode-width`. Trusted: the result is
/// the crate's width table, named `unicode_char_width`; the crate's source
/// gives printable ASCII width 1 and control characters (below U+0020 and
/// from U+007F to U+009F) no width.
#[verifier::external_body]
pub(crate) fn char_width(c: char) -> (r: Option<usize>)
    ensures
        r == unicode_char_width(c),
        (0x20 <= (c as u32) < 0x7f) ==> r == Some(1usize),
        ((c as u32) < 0x20 || (0x7f <= (c as u32) < 0xa0)) ==> r is None,
{
    unicode_width::UnicodeWidthChar::width(c)
}

/// Calls `UnicodeWidthStr::width` of `unicode-width`. Trusted: the result is
/// the crate's, a function of the string alone, named `unicode_str_width`.
#[verifier::external_body]
pub(crate) fn str_width(s: &str) -> (r: usize)
    ensures
        r == unicode_str_width(s@),
{
    unicode_width::UnicodeWidthStr::width(s)
}

/// The columns a character takes; control characters take none.
pub open spec fn char_cols(c: char) -> int {
    match unicode_char_width(c) {
        Some(w) => w as int,
        None => 0,
    }
}

/// How many leading characters of `s` fit into `width` columns, taken one at
/// a time until the next one does not fit, and the columns left over.
pub open spec fn spec_fit(s: Seq<char>, width: int) -> (int, int)
    decreases s.len(),
{
    if s.len() == 0 {
        (0, width)
    } else if char_cols(s[0]) > width {
        (0, width)
    } else {
        let r = spec_fit(s.drop_first(), width - char_cols(s[0]));
        (r.0 + 1, r.1)
    }
}

/// The columns `s` takes, character by character.
pub open spec fn cols(s: Seq<char>) -> int
    decreases s.len(),
{
    if s.len() == 0 {
        0
    } else {
        char_cols(s[0]) + cols(s.drop_first())
    }
}

/// The characters that fit into `width` columns take the columns that are
/// not left over: fitting splits `width` into what the prefix takes and what
/// remains.
pub proof fn lemma_fit_cols(s: Seq<char>, width: int)
    requires
        width >= 0,
    ensures
        cols(s.take(spec_fit(s, width).0)) + spec_fit(s, width).1 == width,
    decreases s.len(),
{
    if s.len() == 0 {
        assert(s.take(0) =~= Seq::<char>::empty());
    } else if char_cols(s[0]) > width {
        assert(s.take(0) =~= Seq::<char>::empty());
    } else {
        let c = char_cols(s[0]);
        let r = spec_fit(s.drop_first(), width - c);
        lemma_fit_cols(s.drop_first(), width - c);
        lemma_fit_bounds(s.drop_first(), width - c);
        let t = s.take(r.0 + 1);
        assert(t.drop_first() =~= s.drop_first().take(r.0));
        assert(t[0] == s[0]);
    }
}

/// The number of bytes of the UTF-8 encoding of `s`.
pub open spec fn utf8_len(s: Seq<char>) -> int {
    encode_utf8(s).len() as int
}

pub proof fn lemma_fit_bounds(s: Seq<char>, width: int)
    requires
        width >= 0,
    ensures
        0 <= spec_fit(s, width).0 <= s.len(),
        0 <= spec_fit(s, width).1 <= width,
    decreases s.len(),
{
    if s.len() > 0 && char_cols(s[0]) <= width {
        assert(char_cols(s[0]) >= 0);
        lemma_fit_bounds(s.drop_first(), width - char_cols(s[0]));
    }
}

/// Fitting from position `i` with `left` columns is fitting the whole string
/// once the first `i` characters have taken their columns.
proof fn lemma_fit_step(s: Seq<char>, i: int, left: int)
    requires
        0 <= i < s.len(),
        char_cols(s[i]) <= left,
    ensures
        spec_fit(s.skip(i), left) == ({
            let r = spec_fit(s.skip(i + 1), left - char_cols(s[i]));
            (r.0 + 1, r.1)
        }),
{
    assert(s.skip(i).drop_first() =~= s.skip(i + 1));
}

proof fn lemma_encode_utf8_append(a: Seq<char>, b: Seq<char>)
    ensures
        encode_utf8(a + b) == encode_utf8(a) + encode_utf8(b),
    decreases a.len(),
{
    if a.len() == 0 {
        assert(a + b =~= b);
        assert(encode_utf8(a) =~= Seq::<u8>::empty());
        assert(encode_utf8(a) + encode_utf8(b) =~= encode_utf8(b));
    } else {
        assert((a + b).drop_first() =~= a.drop_first() + b);
        lemma_encode_utf8_append(a.drop_first(), b);
        assert(encode_utf8(a + b) =~= encode_scalar(a[0] as u32) + encode_utf8(a.drop_first() + b));
    }
}

proof fn lemma_utf8_len_push(s: Seq<char>, c: char)
    ensures
        utf8_len(s.push(c)) == utf8_len(s) + encode_scalar(c as u32).len(),
{
    lemma_encode_utf8_append(s, seq![c]);
    assert(s + seq![c] =~= s.push(c));
    assert(seq![c].drop_first() =~= Seq::<char>::empty());
    assert(encode_utf8(seq![c]) =~= encode_scalar(c as u32) + encode_utf8(Seq::<char>::empty()));
}

proof fn lemma_utf8_len_prefix(s: Seq<char>, k: int)
    requires
        0 <= k <= s.len(),
    ensures
        utf8_len(s.take(k)) <= utf8_len(s),
{
    lemma_encode_utf8_append(s.take(k), s.skip(k));
    assert(s.take(k) + s.skip(k) =~= s);
}

/// The number of bytes that UTF-8 takes for `c`.
fn char_utf8_len(c: char) -> (r: usize)
    ensures
        r == encode_scalar(c as u32).len(),
{
    proof {
        char_is_scalar(c);
    }
    let u = c as u32;
    if u < 0x80 {
        1
    } else if u < 0x800 {
        2
    } else if u < 0x10000 {
        3
    } else {
        4
    }
}

/// How many leading characters of `text` fit into `width` columns, and the
/// columns left over.
fn fit_chars(text: &Vec<char>, width: usize) -> (r: (usize, usize))
    ensures
        r.0 == spec_fit(text@, width as int).0,
        r.1 == spec_fit(text@, width as int).1,
        r.0 <= text@.len(),
{
    let n = text.len();
    let mut i: usize = 0;
    let mut left: usize = width;
    proof {
        assert(text@.skip(0) =~= text@);
    }
    while i < n
        invariant
            n == text@.len(),
            i <= n,
            left <= width,
            spec_fit(text@, width as int) == ({
                let r = spec_fit(text@.skip(i as int), left as int);
                (r.0 + i, r.1)
            }),
        decreases n - i,
    {
        let c = text[i];
        let w = match char_width(c) {
            Some(w) => w,
            None => 0,
        };
        if w > left {
            proof {
                assert(text@.skip(i as int)[0] == c);
            }
            return (i, left);
        }
        proof {
            lemma_fit_step(text@, i as int, left as int);
        }
        left = left - w;
        i = i + 1;
    }
    proof {
        assert(text@.skip(n as int) =~= Seq::<char>::empty());
    }
    (i, left)
}

/// The byte position in `text` where the characters that fit into `width`
/// columns end, and the columns left over.
pub fn find_str_width_pos(text: &str, width: usize) -> (r: (usize, usize))
    ensures
        r.0 == utf8_len(text@.take(spec_fit(text@, width as int).0)),
        r.1 == spec_fit(text@, width as int).1,
{
    let v = chars_of(text);
    let (k, left) = fit_chars(&v, width);
    let total = text.as_bytes().len();
    let mut bytes: usize = 0;
    let mut i: usize = 0;
    proof {
        assert(text@.take(0) =~= Seq::<char>::empty());
        assert(encode_utf8(Seq::<char>::empty()) =~= Seq::<u8>::empty());
        lemma_utf8_len_prefix(text@, k as int);
    }
    while i < k
        invariant
            k <= v@.len(),
            v@ == text@,
            i <= k,
            total == utf8_len(text@),
            utf8_len(text@.take(k as int)) <= total,
            bytes == utf8_len(text@.take(i as int)),
        decreases k - i,
    {
        let cl = char_utf8_len(v[i]);
        proof {
            lemma_utf8_len_push(text@.take(i as int), text@[i as int]);
            assert(text@.take(i as int).push(text@[i as int]) =~= text@.take(i + 1));
            lemma_utf8_len_prefix(text@.take(k as int), i + 1);
            assert(text@.take(k as int).take(i + 1) =~= text@.take(i + 1));
        }
        bytes = bytes + cl;
        i = i + 1;
    }
    (bytes, left)
}

/// Cuts `text` where the characters that fit into `width` columns end:
/// the part that fits, the rest, and the columns left over.
pub fn slice_str_with_width(text: &str, width: usize) -> (r: (&str, &str, usize))
    ensures
        r.0@ == text@.take(spec_fit(text@, width as int).0),
        r.1@ == text@.skip(spec_fit(text@, width as int).0),
        r.2 == spec_fit(text@, width as int).1,
{
    let v = chars_of(text);
    let n = v.len();
    let (k, left) = fit_chars(&v, width);
    let head = text.substring_char(0, k);
    let tail = text.substring_char(k, n);
    proof {
        assert(head@ =~= text@.take(k as int));
        assert(tail@ =~= text@.skip(k as int));
    }
    (head, tail, left)
}

} // verus!
