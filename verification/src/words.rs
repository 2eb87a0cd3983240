//! Words within a line: character classes, runs of one class, the word under
//! the cursor, and the byte offset of a character.
use vstd::prelude::*;
use vstd::utf8::{encode_scalar, encode_utf8};
use crate::text::{char_is_alphanumeric, char_is_whitespace, is_alphanumeric, is_whitespace};

verus! {

/// A word character: alphanumeric or underscore.
pub open spec fn word_char(c: char) -> bool {
    char_is_alphanumeric(c) || c == '_'
}

/// Whitespace in the Unicode sense.
pub open spec fn space_char(c: char) -> bool {
    char_is_whitespace(c)
}

/// The three classes the word motions tell apart.
#[derive(Debug, Clone, Copy, PartialEq, Eq, Structural)]
pub enum CharClass {
    Word,
    Space,
    Punct,
}

/// Whether `c` belongs to class `k`; punctuation is whatever is neither a
/// word character nor whitespace.
pub open spec fn in_class(c: char, k: CharClass) -> bool {
    match k {
        CharClass::Word => word_char(c),
        CharClass::Space => space_char(c),
        CharClass::Punct => !space_char(c) && !word_char(c),
    }
}

/// The class the motions give a character: word first, then punctuation,
/// else whitespace.
pub open spec fn class_of(c: char) -> CharClass {
    if word_char(c) {
        CharClass::Word
    } else if !space_char(c) {
        CharClass::Punct
    } else {
        CharClass::Space
    }
}

/// The end of the run of class `k` that starts at `p`: the first position at
/// or after `p` that is past the line or holds a character of another class.
pub open spec fn run_end(l: Seq<char>, p: int, k: CharClass) -> int
    decreases l.len() - p,
{
    if 0 <= p < l.len() && in_class(l[p], k) {
        run_end(l, p + 1, k)
    } else {
        p
    }
}

/// The start of the run of class `k` that ends just before `p`: the smallest
/// position `q <= p` such that every character from `q` up to `p` is of class `k`.
pub open spec fn run_start(l: Seq<char>, p: int, k: CharClass) -> int
    decreases p,
{
    if 0 < p <= l.len() && in_class(l[p - 1], k) {
        run_start(l, p - 1, k)
    } else {
        p
    }
}

/// A run from `p` stays in `l`, holds only characters of its class, and
/// stops before one outside it.
pub proof fn lemma_run_end_bounds(l: Seq<char>, p: int, k: CharClass)
    requires
        0 <= p <= l.len(),
    ensures
        p <= run_end(l, p, k) <= l.len(),
        forall|j: int| p <= j < run_end(l, p, k) ==> in_class(#[trigger] l[j], k),
        run_end(l, p, k) < l.len() ==> !in_class(l[run_end(l, p, k)], k),
    decreases l.len() - p,
{
    if p < l.len() && in_class(l[p], k) {
        lemma_run_end_bounds(l, p + 1, k);
    }
}

/// A run back from `p` stays in `l`, holds only characters of its class,
/// and stops after one outside it.
pub proof fn lemma_run_start_bounds(l: Seq<char>, p: int, k: CharClass)
    requires
        0 <= p <= l.len(),
    ensures
        0 <= run_start(l, p, k) <= p,
        forall|j: int| run_start(l, p, k) <= j < p ==> in_class(#[trigger] l[j], k),
        run_start(l, p, k) > 0 ==> !in_class(l[run_start(l, p, k) - 1], k),
    decreases p,
{
    if p > 0 && in_class(l[p - 1], k) {
        lemma_run_start_bounds(l, p - 1, k);
    }
}

/// Whether `c` is part of a word (alphanumeric or `_`).
pub fn is_word_char(c: char) -> (r: bool)
    ensures
        r == word_char(c),
{
    is_alphanumeric(c) || c == '_'
}

/// Whether `c` belongs to class `k`.
pub fn class_has(c: char, k: CharClass) -> (r: bool)
    ensures
        r == in_class(c, k),
{
    match k {
        CharClass::Word => is_word_char(c),
        CharClass::Space => is_whitespace(c),
        CharClass::Punct => !is_whitespace(c) && !is_word_char(c),
    }
}

/// The class of `c` as the motions see it.
pub fn class_of_char(c: char) -> (k: CharClass)
    ensures
        k == class_of(c),
        in_class(c, k),
{
    if is_word_char(c) {
        CharClass::Word
    } else if !is_whitespace(c) {
        CharClass::Punct
    } else {
        CharClass::Space
    }
}

/// Walks forward from `p` over characters of class `k`.
pub fn scan_forward(chars: &[char], p: usize, k: CharClass) -> (q: usize)
    requires
        p <= chars@.len(),
    ensures
        q == run_end(chars@, p as int, k),
        p <= q <= chars@.len(),
{
    proof {
        lemma_run_end_bounds(chars@, p as int, k);
    }
    let mut pos = p;
    while pos < chars.len() && class_has(chars[pos], k)
        invariant
            p <= pos <= chars@.len(),
            run_end(chars@, pos as int, k) == run_end(chars@, p as int, k),
        decreases chars@.len() - pos,
    {
        pos = pos + 1;
    }
    pos
}

/// Walks backward from `p` over characters of class `k`.
pub fn scan_backward(chars: &[char], p: usize, k: CharClass) -> (q: usize)
    requires
        p <= chars@.len(),
    ensures
        q == run_start(chars@, p as int, k),
        q <= p,
{
    proof {
        lemma_run_start_bounds(chars@, p as int, k);
    }
    let mut pos = p;
    while pos > 0 && class_has(chars[pos - 1], k)
        invariant
            pos <= p <= chars@.len(),
            run_start(chars@, pos as int, k) == run_start(chars@, p as int, k),
        decreases pos,
    {
        pos = pos - 1;
    }
    pos
}

/// The word under character `cx`, as a half-open range: the run of the class
/// of the character at `cx` (the last character when `cx` is past the end)
/// that contains it; `(0, 0)` for an empty line.
pub open spec fn inner_word(l: Seq<char>, cx: int) -> (int, int) {
    if l.len() == 0 {
        (0, 0)
    } else {
        let pos = if cx < l.len() - 1 {
            cx
        } else {
            l.len() - 1
        };
        let k = class_of(l[pos]);
        (run_start(l, pos, k), run_end(l, pos + 1, k))
    }
}

/// The word around a column lies within the line, and is not empty when the
/// line is not.
pub proof fn lemma_inner_word_bounds(l: Seq<char>, cx: int)
    requires
        0 <= cx,
    ensures
        0 <= inner_word(l, cx).0 <= inner_word(l, cx).1 <= l.len(),
        l.len() > 0 ==> inner_word(l, cx).0 < inner_word(l, cx).1,
{
    if l.len() > 0 {
        let pos = if cx < l.len() - 1 {
            cx
        } else {
            l.len() - 1
        };
        lemma_run_start_bounds(l, pos, class_of(l[pos]));
        lemma_run_end_bounds(l, pos + 1, class_of(l[pos]));
    }
}

/// The start and end (character indices, end exclusive) of the word under
/// the cursor.
pub fn find_inner_word(chars: &[char], cx: usize) -> (r: (usize, usize))
    ensures
        r.0 == inner_word(chars@, cx as int).0,
        r.1 == inner_word(chars@, cx as int).1,
        r.0 <= r.1 <= chars@.len(),
{
    proof {
        lemma_inner_word_bounds(chars@, cx as int);
    }
    let len = chars.len();
    if len == 0 {
        return (0, 0);
    }
    let pos = if cx < len - 1 {
        cx
    } else {
        len - 1
    };
    let k = class_of_char(chars[pos]);
    let start = scan_backward(chars, pos, k);
    let end = scan_forward(chars, pos + 1, k);
    (start, end)
}

/// Public entry to `find_inner_word`.
pub fn find_inner_word_pub(chars: &[char], cx: usize) -> (r: (usize, usize))
    ensures
        r.0 == inner_word(chars@, cx as int).0,
        r.1 == inner_word(chars@, cx as int).1,
        r.0 <= r.1 <= chars@.len(),
{
    find_inner_word(chars, cx)
}

/// The byte offset of character `char_pos` of `s` in its UTF-8 encoding, or
/// the byte length of `s` when there is no such character.
pub open spec fn byte_pos(s: Seq<char>, char_pos: int) -> nat {
    if char_pos < s.len() {
        encode_utf8(s.take(char_pos)).len()
    } else {
        encode_utf8(s).len()
    }
}

proof fn lemma_encode_push(s: Seq<char>, c: char)
    ensures
        encode_utf8(s.push(c)).len() == encode_utf8(s).len() + encode_scalar(c as u32).len(),
    decreases s.len(),
{
    if s.len() == 0 {
        assert(s.push(c).drop_first() =~= Seq::<char>::empty());
        assert(encode_utf8(Seq::<char>::empty()) =~= Seq::<u8>::empty());
    } else {
        lemma_encode_push(s.drop_first(), c);
        assert(s.push(c).drop_first() =~= s.drop_first().push(c));
    }
}

fn char_width(c: char) -> (w: usize)
    ensures
        w == encode_scalar(c as u32).len(),
{
    proof {
        vstd::utf8::char_is_scalar(c);
    }
    let u = c as u32;
    if u < 0x80 {
        1
    } else if u < 0x800 {
        2
    } else if u < 0x10000 {
        3
    } else {
        4
    }
}

/// The byte offset of character `char_pos` in `s` (the length of `s` in bytes
/// when `char_pos` is past its last character).
pub fn char_to_byte_pos(s: &str, char_pos: usize) -> (r: usize)
    ensures
        r == byte_pos(s@, char_pos as int),
{
    let n = s.unicode_len();
    let stop = if char_pos < n {
        char_pos
    } else {
        n
    };
    let bytes = s.as_bytes().len();
    assert(s@.take(n as int) =~= s@);
    let mut i: usize = 0;
    let mut acc: usize = 0;
    assert(encode_utf8(s@.take(0)) =~= Seq::<u8>::empty());
    while i < stop
        invariant
            stop <= n,
            n == s@.len(),
            i <= stop,
            acc == encode_utf8(s@.take(i as int)).len(),
            bytes == encode_utf8(s@).len(),
        decreases stop - i,
    {
        let c = s.get_char(i);
        assert(s@.take(i + 1) =~= s@.take(i as int).push(c));
        proof {
            lemma_encode_push(s@.take(i as int), c);
            lemma_encode_take_le(s@, i + 1);
        }
        acc = acc + char_width(c);
        i = i + 1;
    }
    acc
}

proof fn lemma_encode_take_le(s: Seq<char>, i: int)
    requires
        0 <= i <= s.len(),
    ensures
        encode_utf8(s.take(i)).len() <= encode_utf8(s).len(),
    decreases s.len() - i,
{
    if i < s.len() {
        lemma_encode_take_le(s, i + 1);
        assert(s.take(i + 1) =~= s.take(i).push(s[i]));
        lemma_encode_push(s.take(i), s[i]);
    } else {
        assert(s.take(i) =~= s);
    }
}

/// Whitespace is never a word character.
pub proof fn lemma_space_not_word(c: char)
    ensures
        space_char(c) ==> !word_char(c),
{
}

/// The word under the cursor is a maximal run of one class: for a non-empty
/// line, with `p` the cursor's column (the last column when past the end),
/// it contains `p`, all its characters have the class of the one at `p`, and
/// the characters just before and after it (where there are any) do not.
pub proof fn law_inner_word_is_a_run(l: Seq<char>, cx: int)
    requires
        0 <= cx,
    ensures
        l.len() == 0 ==> inner_word(l, cx) == (0int, 0int),
        l.len() > 0 ==> ({
            let p = if cx < l.len() - 1 {
                cx
            } else {
                l.len() - 1
            };
            let (s, e) = inner_word(l, cx);
            let k = class_of(l[p]);
            &&& 0 <= s <= p < e <= l.len()
            &&& forall|i: int| s <= i < e ==> class_of(#[trigger] l[i]) == k
            &&& (s == 0 || class_of(l[s - 1]) != k)
            &&& (e == l.len() || class_of(l[e]) != k)
        }),
{
    if l.len() > 0 {
        let p = if cx < l.len() - 1 {
            cx
        } else {
            l.len() - 1
        };
        let k = class_of(l[p]);
        lemma_run_start_bounds(l, p, k);
        lemma_run_end_bounds(l, p + 1, k);
        let (s, e) = inner_word(l, cx);
        assert forall|i: int| s <= i < e implies class_of(#[trigger] l[i]) == k by {
            lemma_space_not_word(l[i]);
            lemma_space_not_word(l[p]);
            if i != p {
                assert(in_class(l[i], k));
            }
        }
        if s > 0 {
            lemma_space_not_word(l[s - 1]);
        }
        if e < l.len() {
            lemma_space_not_word(l[e]);
        }
    }
}

} // verus!
