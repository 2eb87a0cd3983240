//! Character classes, decimal rendering and string building used across the crate.
use vstd::prelude::*;

verus! {

/// What `char::is_alphanumeric` answers for a character beyond ASCII that
/// is not whitespace (Unicode Alphabetic or Numeric).
pub uninterp spec fn unicode_alphanumeric(c: char) -> bool;

/// What `char::is_alphabetic` answers for a character beyond ASCII that is
/// not whitespace (Unicode Alphabetic property).
pub uninterp spec fn unicode_alphabetic(c: char) -> bool;

/// The Unicode White_Space property (what `char::is_whitespace` answers):
/// tab, line feed, vertical tab, form feed, carriage return, space, next
/// line, no-break space, Ogham space mark, the spaces U+2000 to U+200A, line
/// and paragraph separators, narrow no-break space, medium mathematical
/// space and ideographic space.
pub open spec fn char_is_whitespace(c: char) -> bool {
    let v: u32 = c as u32;
    ||| 0x9 <= v <= 0xD
    ||| v == 0x20
    ||| v == 0x85
    ||| v == 0xA0
    ||| v == 0x1680
    ||| 0x2000 <= v <= 0x200A
    ||| v == 0x2028
    ||| v == 0x2029
    ||| v == 0x202F
    ||| v == 0x205F
    ||| v == 0x3000
}

/// What `char::is_alphanumeric` answers (Unicode Alphabetic or Numeric): on
/// ASCII exactly the letters and digits; never for whitespace, which is
/// neither alphabetic nor numeric.
pub open spec fn char_is_alphanumeric(c: char) -> bool {
    if (c as u32) < 128 {
        is_ascii_letter(c) || is_ascii_digit_spec(c)
    } else if char_is_whitespace(c) {
        false
    } else {
        unicode_alphanumeric(c)
    }
}

/// What `char::is_alphabetic` answers (Unicode Alphabetic): on ASCII exactly
/// the letters; never for whitespace.
pub open spec fn char_is_alphabetic(c: char) -> bool {
    if (c as u32) < 128 {
        is_ascii_letter(c)
    } else if char_is_whitespace(c) {
        false
    } else {
        unicode_alphabetic(c)
    }
}

/// What `str::to_lowercase` produces for a string with contents `s`.
pub uninterp spec fn str_lowercase(s: Seq<char>) -> Seq<char>;

/// What `format!("{:?}", c)` produces for a `char`.
pub uninterp spec fn char_debug_text(c: char) -> Seq<char>;

/// What `format!("{:?}", s)` produces for a string slice with contents `s`.
pub uninterp spec fn str_debug_text(s: Seq<char>) -> Seq<char>;

/// ASCII letters `a-z`, `A-Z`.
pub open spec fn is_ascii_letter(c: char) -> bool {
    ('a' <= c && c <= 'z') || ('A' <= c && c <= 'Z')
}

/// ASCII decimal digits `0-9` (the behaviour of `char::is_ascii_digit`).
pub open spec fn is_ascii_digit_spec(c: char) -> bool {
    '0' <= c && c <= '9'
}

/// ASCII hexadecimal digits (the behaviour of `char::is_ascii_hexdigit`).
pub open spec fn is_ascii_hexdigit_spec(c: char) -> bool {
    is_ascii_digit_spec(c) || ('a' <= c && c <= 'f') || ('A' <= c && c <= 'F')
}

/// `char::is_alphanumeric`: true when `c` is Alphabetic or Numeric. On ASCII
/// it holds exactly of letters and digits, and never of whitespace; beyond
/// that the answer is named, not spelled out.
#[verifier::external_body]
pub(crate) fn is_alphanumeric(c: char) -> (r: bool)
    ensures
        r == char_is_alphanumeric(c),
        (c as u32) >= 128 && !char_is_whitespace(c) ==> r == unicode_alphanumeric(c),
{
    c.is_alphanumeric()
}

/// `char::is_alphabetic`: the Unicode Alphabetic property. On ASCII it holds
/// exactly of the letters, and never of whitespace; beyond that the answer
/// is named, not spelled out.
#[verifier::external_body]
pub(crate) fn is_alphabetic(c: char) -> (r: bool)
    ensures
        r == char_is_alphabetic(c),
        (c as u32) >= 128 && !char_is_whitespace(c) ==> r == unicode_alphabetic(c),
{
    c.is_alphabetic()
}

/// `char::is_whitespace`: the Unicode White_Space property.
pub fn is_whitespace(c: char) -> (r: bool)
    ensures
        r == char_is_whitespace(c),
{
    let v: u32 = c as u32;
    (0x9 <= v && v <= 0xD) || v == 0x20 || v == 0x85 || v == 0xA0 || v == 0x1680 || (0x2000 <= v
        && v <= 0x200A) || v == 0x2028 || v == 0x2029 || v == 0x202F || v == 0x205F || v == 0x3000
}

/// A printable ASCII character other than the quote `q` and the backslash:
/// one that `Debug` renders as itself.
pub open spec fn plain_ascii(c: char, q: char) -> bool {
    0x20 <= (c as u32) <= 0x7E && c != q && c != '\\'
}

/// How `Debug` shows a character: a printable ASCII character other than
/// `'` and `\` as itself between single quotes, any other as std escapes it.
pub open spec fn char_shown(c: char) -> Seq<char> {
    if plain_ascii(c, '\'') {
        seq!['\'', c, '\'']
    } else {
        char_debug_text(c)
    }
}

/// Every character of `s` is printable ASCII other than `"` and `\`.
pub open spec fn all_plain_ascii(s: Seq<char>) -> bool {
    forall|i: int| 0 <= i < s.len() ==> plain_ascii(#[trigger] s[i], '"')
}

/// How `Debug` shows a string: text of printable ASCII characters other
/// than `"` and `\` as itself between double quotes, any other as std
/// escapes it.
pub open spec fn str_shown(s: Seq<char>) -> Seq<char> {
    if all_plain_ascii(s) {
        seq!['"'] + s + seq!['"']
    } else {
        str_debug_text(s)
    }
}

/// `<char as Debug>::fmt`: the quoted, escaped rendering of `c`; a printable
/// ASCII character other than `'` and `\` is shown as itself between single
/// quotes.
#[verifier::external_body]
pub(crate) fn char_debug(c: char) -> (r: String)
    ensures
        r@ == char_shown(c),
        !plain_ascii(c, '\'') ==> r@ == char_debug_text(c),
{
    format!("{:?}", c)
}

/// `<str as Debug>::fmt`: the quoted, escaped rendering of `s`; text of
/// printable ASCII characters other than `"` and `\` is shown as itself
/// between double quotes.
#[verifier::external_body]
pub(crate) fn str_debug(s: &str) -> (r: String)
    ensures
        r@ == str_shown(s@),
        !all_plain_ascii(s@) ==> r@ == str_debug_text(s@),
{
    format!("{:?}", s)
}

/// `str::to_lowercase`: the Unicode lowercase mapping of `s`, a function of
/// `s` alone; what it maps each character to is left to that name.
#[verifier::external_body]
pub(crate) fn to_lowercase(s: &str) -> (r: String)
    ensures
        r@ == str_lowercase(s@),
{
    s.to_lowercase()
}

/// `String::push`: appends one character.
#[verifier::external_body]
pub(crate) fn push_char(s: &mut String, c: char)
    ensures
        final(s)@ == old(s)@.push(c),
{
    s.push(c);
}

/// `char::is_ascii_digit`.
pub fn is_ascii_digit(c: char) -> (r: bool)
    ensures
        r == is_ascii_digit_spec(c),
{
    '0' <= c && c <= '9'
}

/// `char::is_ascii_hexdigit`.
pub fn is_ascii_hexdigit(c: char) -> (r: bool)
    ensures
        r == is_ascii_hexdigit_spec(c),
{
    ('0' <= c && c <= '9') || ('a' <= c && c <= 'f') || ('A' <= c && c <= 'F')
}

/// The character of the decimal digit `d`.
pub open spec fn digit_char(d: nat) -> char {
    (48 + d) as char
}

/// Decimal rendering of `n`, most significant digit first, without leading zeros.
pub open spec fn decimal_text(n: nat) -> Seq<char>
    decreases n,
{
    if n < 10 {
        seq![digit_char(n)]
    } else {
        decimal_text(n / 10).push(digit_char(n % 10))
    }
}

fn digit_to_char(d: usize) -> (c: char)
    requires
        d < 10,
    ensures
        c == digit_char(d as nat),
{
    let b: u8 = 48u8 + (d as u8);
    b as char
}

/// Renders `n` in decimal (what `format!("{}", n)` gives for a `usize`).
pub fn decimal_string(n: usize) -> (s: String)
    ensures
        s@ == decimal_text(n as nat),
    decreases n,
{
    if n < 10 {
        let mut s = String::new();
        push_char(&mut s, digit_to_char(n));
        s
    } else {
        let mut s = decimal_string(n / 10);
        push_char(&mut s, digit_to_char(n % 10));
        s
    }
}

/// Builds a `String` holding exactly the characters of `chars`.
pub fn string_from_chars(chars: &[char]) -> (s: String)
    ensures
        s@ == chars@,
{
    let mut s = String::new();
    let mut i: usize = 0;
    while i < chars.len()
        invariant
            i <= chars.len(),
            s@ == chars@.take(i as int),
        decreases chars.len() - i,
    {
        push_char(&mut s, chars[i]);
        assert(chars@.take(i + 1) == chars@.take(i as int).push(chars@[i as int]));
        i = i + 1;
    }
    assert(chars@.take(chars.len() as int) == chars@);
    s
}

/// The characters of `s`, one `Vec` element per `char`.
pub fn chars_of(s: &str) -> (v: Vec<char>)
    ensures
        v@ == s@,
{
    let n = s.unicode_len();
    let mut v: Vec<char> = Vec::new();
    let mut i: usize = 0;
    while i < n
        invariant
            n == s@.len(),
            i <= n,
            v@ == s@.take(i as int),
        decreases n - i,
    {
        v.push(s.get_char(i));
        assert(s@.take(i + 1) == s@.take(i as int).push(s@[i as int]));
        i = i + 1;
    }
    assert(s@.take(n as int) == s@);
    v
}

/// A new `String` holding `t` followed by `u`.
pub fn concat_str(t: &str, u: &str) -> (s: String)
    ensures
        s@ == t@ + u@,
{
    let mut s = String::from_str(t);
    s.append(u);
    s
}

/// Character-by-character equality of two string slices.
pub fn str_eq(a: &str, b: &str) -> (r: bool)
    ensures
        r == (a@ == b@),
{
    let n = a.unicode_len();
    let m = b.unicode_len();
    if n != m {
        return false;
    }
    let mut i: usize = 0;
    while i < n
        invariant
            n == a@.len(),
            m == b@.len(),
            n == m,
            i <= n,
            forall|j: int| 0 <= j < i ==> a@[j] == b@[j],
        decreases n - i,
    {
        if a.get_char(i) != b.get_char(i) {
            return false;
        }
        i = i + 1;
    }
    assert(a@ =~= b@);
    true
}


/// `s` without its leading Unicode whitespace.
pub open spec fn trim_start_spec(s: Seq<char>) -> Seq<char>
    decreases s.len(),
{
    if s.len() > 0 && char_is_whitespace(s[0]) {
        trim_start_spec(s.drop_first())
    } else {
        s
    }
}

/// `s` without its trailing Unicode whitespace.
pub open spec fn trim_end_spec(s: Seq<char>) -> Seq<char>
    decreases s.len(),
{
    if s.len() > 0 && char_is_whitespace(s.last()) {
        trim_end_spec(s.drop_last())
    } else {
        s
    }
}

/// `s` without leading and trailing whitespace (what `str::trim` gives).
pub open spec fn trim_spec(s: Seq<char>) -> Seq<char> {
    trim_end_spec(trim_start_spec(s))
}

proof fn lemma_trim_start_skip(s: Seq<char>, i: int)
    requires
        0 <= i <= s.len(),
        forall|j: int| 0 <= j < i ==> char_is_whitespace(#[trigger] s[j]),
    ensures
        trim_start_spec(s) == trim_start_spec(s.skip(i)),
    decreases i,
{
    if i > 0 {
        assert(s.skip(1) =~= s.drop_first());
        lemma_trim_start_skip(s.drop_first(), i - 1);
        assert(s.drop_first().skip(i - 1) =~= s.skip(i));
    } else {
        assert(s.skip(0) =~= s);
    }
}

proof fn lemma_trim_end_take(s: Seq<char>, i: int)
    requires
        0 <= i <= s.len(),
        forall|j: int| i <= j < s.len() ==> char_is_whitespace(#[trigger] s[j]),
    ensures
        trim_end_spec(s) == trim_end_spec(s.take(i)),
    decreases s.len() - i,
{
    if i < s.len() {
        assert(s.take(s.len() - 1) =~= s.drop_last());
        lemma_trim_end_take(s.drop_last(), i);
        assert(s.drop_last().take(i) =~= s.take(i));
    } else {
        assert(s.take(i) =~= s);
    }
}

/// `str::trim`: the text without leading and trailing Unicode whitespace.
pub fn trim_string(s: &str) -> (r: String)
    ensures
        r@ == trim_spec(s@),
{
    let v = chars_of(s);
    let n = v.len();
    let mut a: usize = 0;
    while a < n && is_whitespace(v[a])
        invariant
            a <= n,
            n == v@.len(),
            forall|j: int| 0 <= j < a ==> char_is_whitespace(#[trigger] v@[j]),
        decreases n - a,
    {
        a = a + 1;
    }
    proof {
        lemma_trim_start_skip(v@, a as int);
    }
    let ghost t = v@.skip(a as int);
    let mut b: usize = n;
    while b > a && is_whitespace(v[b - 1])
        invariant
            a <= b <= n,
            n == v@.len(),
            t == v@.skip(a as int),
            forall|j: int| b - a <= j < t.len() ==> char_is_whitespace(#[trigger] t[j]),
        decreases b,
    {
        b = b - 1;
    }
    proof {
        lemma_trim_end_take(t, b - a);
        if a < n {
            assert(!char_is_whitespace(v@[a as int]));
        }
        assert(trim_start_spec(t) == t) by {
            if t.len() > 0 {
                assert(t[0] == v@[a as int]);
            }
        }
        if b > a {
            assert(t.take(b - a).last() == v@[b - 1]);
        }
        assert(t.take(b - a) =~= v@.subrange(a as int, b as int));
    }
    let mut out: Vec<char> = Vec::new();
    let mut i: usize = a;
    while i < b
        invariant
            a <= i <= b <= n,
            n == v@.len(),
            out@ == v@.subrange(a as int, i as int),
        decreases b - i,
    {
        out.push(v[i]);
        assert(v@.subrange(a as int, i + 1) =~= v@.subrange(a as int, i as int).push(v@[i as int]));
        i = i + 1;
    }
    string_from_chars(out.as_slice())
}

/// The pieces of `s` between occurrences of `c` (one piece when `c` does not
/// occur; empty pieces where occurrences touch or sit at an end).
pub open spec fn split_spec(s: Seq<char>, c: char) -> Seq<Seq<char>>
    decreases s.len(),
{
    if s.len() == 0 {
        seq![Seq::<char>::empty()]
    } else {
        let p = split_spec(s.drop_last(), c);
        if s.last() == c {
            p.push(Seq::<char>::empty())
        } else {
            p.update(p.len() - 1, p.last().push(s.last()))
        }
    }
}

/// `str::split` on one character, collected.
pub fn split_on(s: &str, c: char) -> (r: Vec<String>)
    ensures
        r@.len() >= 1,
        r@.map_values(|x: String| x@) == split_spec(s@, c),
{
    let v = chars_of(s);
    let n = v.len();
    let mut parts: Vec<String> = Vec::new();
    parts.push(String::new());
    let mut i: usize = 0;
    assert(v@.take(0) =~= Seq::<char>::empty());
    assert(parts@.map_values(|x: String| x@) =~= split_spec(v@.take(0), c));
    while i < n
        invariant
            i <= n,
            n == v@.len(),
            v@ == s@,
            parts@.len() >= 1,
            parts@.map_values(|x: String| x@) == split_spec(v@.take(i as int), c),
        decreases n - i,
    {
        let ghost p0 = parts@;
        assert(v@.take(i + 1).drop_last() =~= v@.take(i as int));
        if v[i] == c {
            parts.push(String::new());
            assert(parts@.map_values(|x: String| x@) =~= p0.map_values(|x: String| x@).push(
                Seq::<char>::empty(),
            ));
        } else {
            let last = parts.len() - 1;
            let mut cur = parts[last].clone();
            push_char(&mut cur, v[i]);
            parts.set(last, cur);
            assert(parts@.map_values(|x: String| x@) =~= p0.map_values(|x: String| x@).update(
                last as int,
                p0[last as int]@.push(v@[i as int]),
            ));
        }
        i = i + 1;
    }
    assert(v@.take(n as int) =~= v@);
    parts
}

/// A piece that ended in a line feed, without its trailing carriage return.
pub open spec fn strip_cr(l: Seq<char>) -> Seq<char> {
    if l.len() > 0 && l.last() == '\r' {
        l.drop_last()
    } else {
        l
    }
}

/// The lines of a text as `str::lines` yields them: split at line feeds, a
/// carriage return before a line feed dropped, and no line after a final
/// line feed.
pub open spec fn text_lines_spec(s: Seq<char>) -> Seq<Seq<char>> {
    let p = split_spec(s, '\n');
    let body = p.drop_last().map_values(|l: Seq<char>| strip_cr(l));
    if p.last().len() == 0 {
        body
    } else {
        body.push(p.last())
    }
}

/// `str::lines`, collected into owned strings.
pub fn text_lines(s: &str) -> (r: Vec<String>)
    ensures
        r@.map_values(|x: String| x@) == text_lines_spec(s@),
{
    let parts = split_on(s, '\n');
    let ghost p = parts@.map_values(|x: String| x@);
    let k = parts.len();
    let mut out: Vec<String> = Vec::new();
    let mut j: usize = 0;
    while j + 1 < k
        invariant
            k == parts@.len(),
            k >= 1,
            j < k,
            p == parts@.map_values(|x: String| x@),
            out@.map_values(|x: String| x@) == p.take(j as int).map_values(|l: Seq<char>| strip_cr(l)),
        decreases k - j,
    {
        let piece = parts[j].as_str();
        let cv = chars_of(piece);
        let m = cv.len();
        let line = if m > 0 && cv[m - 1] == '\r' {
            let mut t: Vec<char> = Vec::new();
            let mut q: usize = 0;
            while q + 1 < m
                invariant
                    m == cv@.len(),
                    m > 0,
                    q < m,
                    t@ == cv@.take(q as int),
                decreases m - q,
            {
                t.push(cv[q]);
                assert(cv@.take(q + 1) =~= cv@.take(q as int).push(cv@[q as int]));
                q = q + 1;
            }
            assert(cv@.take(m - 1) =~= cv@.drop_last());
            string_from_chars(t.as_slice())
        } else {
            string_from_chars(cv.as_slice())
        };
        let ghost o0 = out@;
        out.push(line);
        assert(p.take(j + 1) =~= p.take(j as int).push(p[j as int]));
        assert(out@.map_values(|x: String| x@) =~= o0.map_values(|x: String| x@).push(strip_cr(p[j as int])));
        assert(p.take(j + 1).map_values(|l: Seq<char>| strip_cr(l)) =~= p.take(j as int).map_values(
            |l: Seq<char>| strip_cr(l),
        ).push(strip_cr(p[j as int])));
        j = j + 1;
    }
    assert(p.take(j as int) =~= p.drop_last());
    let last_len = parts[k - 1].as_str().unicode_len();
    if last_len > 0 {
        let ghost o0 = out@;
        out.push(parts[k - 1].clone());
        assert(out@.map_values(|x: String| x@) =~= o0.map_values(|x: String| x@).push(p.last()));
    }
    out
}

/// The part of a path after its last `/` (all of it when there is none).
pub open spec fn last_segment(s: Seq<char>) -> Seq<char>
    decreases s.len(),
{
    if s.len() == 0 {
        s
    } else if s.last() == '/' {
        Seq::<char>::empty()
    } else {
        last_segment(s.drop_last()).push(s.last())
    }
}

/// The part of `s` after its last `/` (what `rsplit('/').next()` gives).
pub fn after_last_slash(s: &str) -> (r: String)
    ensures
        r@ == last_segment(s@),
{
    let v = chars_of(s);
    let n = v.len();
    let mut r = String::new();
    let mut i: usize = 0;
    assert(v@.take(0) =~= Seq::<char>::empty());
    while i < n
        invariant
            i <= n,
            n == v@.len(),
            r@ == last_segment(v@.take(i as int)),
        decreases n - i,
    {
        assert(v@.take(i + 1).drop_last() =~= v@.take(i as int));
        if v[i] == '/' {
            r = String::new();
        } else {
            push_char(&mut r, v[i]);
        }
        i = i + 1;
    }
    assert(v@.take(n as int) =~= s@);
    r
}

/// The file name at the end of `path` (after its last `/`) has an extension:
/// a `.` somewhere after its first character.
pub open spec fn has_extension(path: Seq<char>) -> bool {
    let name = last_segment(path);
    name.len() > 0 && name.drop_first().contains('.')
}

/// Whether the file name at the end of `path` has an extension.
pub fn path_has_extension(path: &str) -> (r: bool)
    ensures
        r == has_extension(path@),
{
    let name = after_last_slash(path);
    let n = name.as_str().unicode_len();
    let mut i: usize = 1;
    while i < n
        invariant
            1 <= i,
            n == name@.len(),
            name@ == last_segment(path@),
            forall|j: int| 1 <= j < i && j < n ==> name@[j] != '.',
        decreases n - i,
    {
        let c = name.as_str().get_char(i);
        if c == '.' {
            let ghost rest = name@.drop_first();
            assert(name@[i as int] == '.');
            assert(rest[i - 1] == '.');
            assert(rest.contains('.'));
            assert(name@ == last_segment(path@));
            return true;
        }
        i = i + 1;
    }
    if n > 0 {
        let ghost rest = name@.drop_first();
        assert forall|j: int| 0 <= j < rest.len() implies rest[j] != '.' by {
            assert(rest[j] == name@[j + 1]);
        }
    }
    false
}

/// Whether `c` occurs in `s`.
pub fn contains_char(s: &str, c: char) -> (r: bool)
    ensures
        r == s@.contains(c),
{
    let n = s.unicode_len();
    let mut i: usize = 0;
    while i < n
        invariant
            i <= n,
            n == s@.len(),
            forall|j: int| 0 <= j < i ==> s@[j] != c,
        decreases n - i,
    {
        if s.get_char(i) == c {
            return true;
        }
        i = i + 1;
    }
    false
}

/// The value of a string of decimal digits.
pub open spec fn digits_value(s: Seq<char>) -> nat
    decreases s.len(),
{
    if s.len() == 0 {
        0
    } else {
        digits_value(s.drop_last()) * 10 + ((s.last() as u32) - 48) as nat
    }
}

proof fn lemma_digits_value_grows(s: Seq<char>, i: int)
    requires
        0 <= i <= s.len(),
        forall|j: int| 0 <= j < s.len() ==> is_ascii_digit_spec(#[trigger] s[j]),
    ensures
        digits_value(s.take(i)) <= digits_value(s),
    decreases s.len() - i,
{
    if i < s.len() {
        lemma_digits_value_grows(s, i + 1);
        assert(s.take(i + 1).drop_last() =~= s.take(i));
    } else {
        assert(s.take(i) =~= s);
    }
}

/// The value of a string of ASCII digits, or `None` when it does not fit in
/// a `usize` (what `str::parse::<usize>` gives when the string is not empty;
/// the empty string reads as 0).
pub fn parse_digits(s: &str) -> (r: Option<usize>)
    requires
        forall|j: int| 0 <= j < s@.len() ==> is_ascii_digit_spec(#[trigger] s@[j]),
    ensures
        match r {
            Some(v) => v == digits_value(s@),
            None => digits_value(s@) > usize::MAX,
        },
{
    let n = s.unicode_len();
    let mut acc: usize = 0;
    let mut i: usize = 0;
    assert(s@.take(0) =~= Seq::<char>::empty());
    while i < n
        invariant
            i <= n,
            n == s@.len(),
            acc == digits_value(s@.take(i as int)),
            forall|j: int| 0 <= j < s@.len() ==> is_ascii_digit_spec(#[trigger] s@[j]),
        decreases n - i,
    {
        let c = s.get_char(i);
        let d = (c as u32 - 48) as usize;
        assert(s@.take(i + 1).drop_last() =~= s@.take(i as int));
        assert(s@.take(i + 1).last() == c);
        match acc.checked_mul(10) {
            Some(m) => match m.checked_add(d) {
                Some(v) => {
                    acc = v;
                },
                None => {
                    proof {
                        lemma_digits_value_grows(s@, i + 1);
                    }
                    return None;
                },
            },
            None => {
                proof {
                    lemma_digits_value_grows(s@, i + 1);
                }
                return None;
            },
        }
        i = i + 1;
    }
    assert(s@.take(n as int) =~= s@);
    Some(acc)
}

/// `String::pop`: removes the last character; `false` when there was none.
pub fn pop_char(s: &mut String) -> (popped: bool)
    ensures
        popped == (old(s)@.len() > 0),
        final(s)@ == (if old(s)@.len() > 0 {
            old(s)@.drop_last()
        } else {
            old(s)@
        }),
{
    let v = chars_of(s.as_str());
    let n = v.len();
    if n == 0 {
        return false;
    }
    let mut out: Vec<char> = Vec::new();
    let mut i: usize = 0;
    while i + 1 < n
        invariant
            n == v@.len(),
            n > 0,
            i < n,
            out@ == v@.take(i as int),
        decreases n - i,
    {
        out.push(v[i]);
        assert(v@.take(i + 1) =~= v@.take(i as int).push(v@[i as int]));
        i = i + 1;
    }
    assert(v@.take(n - 1) =~= v@.drop_last());
    *s = string_from_chars(out.as_slice());
    true
}

} // verus!
