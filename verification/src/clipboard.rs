//! What goes to and comes from the system clipboard: the OSC 52 escape that
//! carries copied text, its base64 encoding, and the cleanup of pasted text.
use vstd::prelude::*;
use crate::text::{chars_of, push_char, string_from_chars};

verus! {

/// The base64 digit for the 6-bit value `v`.
pub open spec fn b64_digit(v: int) -> char {
    if v < 26 {
        (65 + v) as char
    } else if v < 52 {
        (97 + v - 26) as char
    } else if v < 62 {
        (48 + v - 52) as char
    } else if v == 62 {
        '+'
    } else {
        '/'
    }
}

/// Standard base64 (with `=` padding) of the bytes `s`, three bytes to four
/// digits.
pub open spec fn base64_spec(s: Seq<u8>) -> Seq<char>
    decreases s.len(),
{
    if s.len() == 0 {
        Seq::empty()
    } else {
        let b0 = s[0] as int;
        let b1 = if s.len() > 1 {
            s[1] as int
        } else {
            0
        };
        let b2 = if s.len() > 2 {
            s[2] as int
        } else {
            0
        };
        let c0 = b64_digit(b0 / 4);
        let c1 = b64_digit((b0 % 4) * 16 + b1 / 16);
        let c2 = if s.len() > 1 {
            b64_digit((b1 % 16) * 4 + b2 / 64)
        } else {
            '='
        };
        let c3 = if s.len() > 2 {
            b64_digit(b2 % 64)
        } else {
            '='
        };
        let rest = if s.len() > 3 {
            base64_spec(s.skip(3))
        } else {
            Seq::empty()
        };
        seq![c0, c1, c2, c3] + rest
    }
}

fn b64_digit_exec(v: u32) -> (c: char)
    requires
        v < 64,
    ensures
        c == b64_digit(v as int),
{
    if v < 26 {
        ((65 + v) as u8) as char
    } else if v < 52 {
        ((97 + v - 26) as u8) as char
    } else if v < 62 {
        ((48 + v - 52) as u8) as char
    } else if v == 62 {
        '+'
    } else {
        '/'
    }
}

/// Encodes `input` in base64.
pub fn base64_encode(input: &[u8]) -> (r: String)
    ensures
        r@ == base64_spec(input@),
{
    let mut result = String::new();
    let n = input.len();
    let mut i: usize = 0;
    assert(input@.skip(0) =~= input@);
    while i < n
        invariant
            n == input@.len(),
            i <= n,
            base64_spec(input@) == result@ + base64_spec(input@.skip(i as int)),
        decreases n - i,
    {
        let rest = n - i;
        let b0 = input[i] as u32;
        let b1 = if rest > 1 {
            input[i + 1] as u32
        } else {
            0
        };
        let b2 = if rest > 2 {
            input[i + 2] as u32
        } else {
            0
        };
        let ghost t = input@.skip(i as int);
        let ghost r0 = result@;
        push_char(&mut result, b64_digit_exec(b0 / 4));
        push_char(&mut result, b64_digit_exec((b0 % 4) * 16 + b1 / 16));
        if rest > 1 {
            push_char(&mut result, b64_digit_exec((b1 % 16) * 4 + b2 / 64));
        } else {
            push_char(&mut result, '=');
        }
        if rest > 2 {
            push_char(&mut result, b64_digit_exec(b2 % 64));
        } else {
            push_char(&mut result, '=');
        }
        let step: usize = if rest >= 3 {
            3
        } else {
            rest
        };
        proof {
            if rest > 3 {
                assert(t.skip(3) =~= input@.skip(i + step));
            } else {
                assert(input@.skip(i + step) =~= Seq::<u8>::empty());
            }
            assert(t[0] == input@[i as int]);
            if rest > 1 {
                assert(t[1] == input@[i + 1]);
            }
            if rest > 2 {
                assert(t[2] == input@[i + 2]);
            }
            assert(result@ =~= r0 + base64_spec(t).take(4));
            assert(base64_spec(t) =~= base64_spec(t).take(4) + base64_spec(input@.skip(i + step)));
        }
        i = i + step;
    }
    assert(input@.skip(n as int) =~= Seq::<u8>::empty());
    result
}

/// The escape sequence that asks the terminal to put `text` on the clipboard
/// (OSC 52): `ESC ] 52 ; c ; <base64 of the UTF-8 bytes> BEL`.
pub fn osc52_sequence(text: &str) -> (r: String)
    ensures
        r@ == seq!['\x1b', ']', '5', '2', ';', 'c', ';'] + base64_spec(vstd::utf8::encode_utf8(text@))
            + seq!['\x07'],
{
    let mut r = String::new();
    push_char(&mut r, '\x1b');
    push_char(&mut r, ']');
    push_char(&mut r, '5');
    push_char(&mut r, '2');
    push_char(&mut r, ';');
    push_char(&mut r, 'c');
    push_char(&mut r, ';');
    let enc = base64_encode(text.as_bytes());
    r.append(enc.as_str());
    push_char(&mut r, '\x07');
    r
}

/// `s` without trailing `"\r\n"` pairs.
pub open spec fn strip_crlf_pairs(s: Seq<char>) -> Seq<char>
    decreases s.len(),
{
    if s.len() >= 2 && s[s.len() - 2] == '\r' && s[s.len() - 1] == '\n' {
        strip_crlf_pairs(s.take(s.len() - 2))
    } else {
        s
    }
}

/// `s` without trailing line feeds.
pub open spec fn strip_lfs(s: Seq<char>) -> Seq<char>
    decreases s.len(),
{
    if s.len() >= 1 && s.last() == '\n' {
        strip_lfs(s.drop_last())
    } else {
        s
    }
}

/// Pasted text cleaned of the line endings clipboard tools append: trailing
/// `"\r\n"` pairs, then trailing line feeds.
pub fn clean_pasted(raw: &str) -> (r: String)
    ensures
        r@ == strip_lfs(strip_crlf_pairs(raw@)),
{
    let v = chars_of(raw);
    let mut n = v.len();
    assert(v@.take(n as int) =~= v@);
    while n >= 2 && v[n - 2] == '\r' && v[n - 1] == '\n'
        invariant
            n <= v@.len(),
            strip_crlf_pairs(v@) == strip_crlf_pairs(v@.take(n as int)),
        decreases n,
    {
        assert(v@.take(n as int).take(n - 2) =~= v@.take(n - 2));
        n = n - 2;
    }
    let ghost m0 = n;
    assert(strip_crlf_pairs(v@.take(n as int)) == v@.take(n as int));
    while n >= 1 && v[n - 1] == '\n'
        invariant
            n <= m0 <= v@.len(),
            strip_lfs(strip_crlf_pairs(v@)) == strip_lfs(v@.take(n as int)),
        decreases n,
    {
        assert(v@.take(n as int).drop_last() =~= v@.take(n - 1));
        n = n - 1;
    }
    assert(strip_lfs(v@.take(n as int)) == v@.take(n as int));
    let mut out: Vec<char> = Vec::new();
    let mut k: usize = 0;
    while k < n
        invariant
            n <= v@.len(),
            k <= n,
            out@ == v@.take(k as int),
        decreases n - k,
    {
        out.push(v[k]);
        assert(v@.take(k + 1) =~= v@.take(k as int).push(v@[k as int]));
        k = k + 1;
    }
    string_from_chars(out.as_slice())
}

/// The base64 alphabet of RFC 4648: the digit for value `v` is the
/// character at place `v`.
pub open spec fn rfc4648_alphabet() -> Seq<char> {
    "ABCDEFGHIJKLMNOPQRSTUVWXYZabcdefghijklmnopqrstuvwxyz0123456789+/"@
}

/// Each 6-bit value is encoded by the standard base64 alphabet, so the
/// digits of different values differ and standard decoders read them back.
pub proof fn law_base64_alphabet(v: int)
    requires
        0 <= v < 64,
    ensures
        b64_digit(v) == rfc4648_alphabet()[v],
{
    reveal_strlit("ABCDEFGHIJKLMNOPQRSTUVWXYZabcdefghijklmnopqrstuvwxyz0123456789+/");
    assert(rfc4648_alphabet().len() == 64);
    if v == 0 {
        assert(rfc4648_alphabet()[0] == 'A');
    } else if v == 1 {
        assert(rfc4648_alphabet()[1] == 'B');
    } else if v == 2 {
        assert(rfc4648_alphabet()[2] == 'C');
    } else if v == 3 {
        assert(rfc4648_alphabet()[3] == 'D');
    } else if v == 4 {
        assert(rfc4648_alphabet()[4] == 'E');
    } else if v == 5 {
        assert(rfc4648_alphabet()[5] == 'F');
    } else if v == 6 {
        assert(rfc4648_alphabet()[6] == 'G');
    } else if v == 7 {
        assert(rfc4648_alphabet()[7] == 'H');
    } else if v == 8 {
        assert(rfc4648_alphabet()[8] == 'I');
    } else if v == 9 {
        assert(rfc4648_alphabet()[9] == 'J');
    } else if v == 10 {
        assert(rfc4648_alphabet()[10] == 'K');
    } else if v == 11 {
        assert(rfc4648_alphabet()[11] == 'L');
    } else if v == 12 {
        assert(rfc4648_alphabet()[12] == 'M');
    } else if v == 13 {
        assert(rfc4648_alphabet()[13] == 'N');
    } else if v == 14 {
        assert(rfc4648_alphabet()[14] == 'O');
    } else if v == 15 {
        assert(rfc4648_alphabet()[15] == 'P');
    } else if v == 16 {
        assert(rfc4648_alphabet()[16] == 'Q');
    } else if v == 17 {
        assert(rfc4648_alphabet()[17] == 'R');
    } else if v == 18 {
        assert(rfc4648_alphabet()[18] == 'S');
    } else if v == 19 {
        assert(rfc4648_alphabet()[19] == 'T');
    } else if v == 20 {
        assert(rfc4648_alphabet()[20] == 'U');
    } else if v == 21 {
        assert(rfc4648_alphabet()[21] == 'V');
    } else if v == 22 {
        assert(rfc4648_alphabet()[22] == 'W');
    } else if v == 23 {
        assert(rfc4648_alphabet()[23] == 'X');
    } else if v == 24 {
        assert(rfc4648_alphabet()[24] == 'Y');
    } else if v == 25 {
        assert(rfc4648_alphabet()[25] == 'Z');
    } else if v == 26 {
        assert(rfc4648_alphabet()[26] == 'a');
    } else if v == 27 {
        assert(rfc4648_alphabet()[27] == 'b');
    } else if v == 28 {
        assert(rfc4648_alphabet()[28] == 'c');
    } else if v == 29 {
        assert(rfc4648_alphabet()[29] == 'd');
    } else if v == 30 {
        assert(rfc4648_alphabet()[30] == 'e');
    } else if v == 31 {
        assert(rfc4648_alphabet()[31] == 'f');
    } else if v == 32 {
        assert(rfc4648_alphabet()[32] == 'g');
    } else if v == 33 {
        assert(rfc4648_alphabet()[33] == 'h');
    } else if v == 34 {
        assert(rfc4648_alphabet()[34] == 'i');
    } else if v == 35 {
        assert(rfc4648_alphabet()[35] == 'j');
    } else if v == 36 {
        assert(rfc4648_alphabet()[36] == 'k');
    } else if v == 37 {
        assert(rfc4648_alphabet()[37] == 'l');
    } else if v == 38 {
        assert(rfc4648_alphabet()[38] == 'm');
    } else if v == 39 {
        assert(rfc4648_alphabet()[39] == 'n');
    } else if v == 40 {
        assert(rfc4648_alphabet()[40] == 'o');
    } else if v == 41 {
        assert(rfc4648_alphabet()[41] == 'p');
    } else if v == 42 {
        assert(rfc4648_alphabet()[42] == 'q');
    } else if v == 43 {
        assert(rfc4648_alphabet()[43] == 'r');
    } else if v == 44 {
        assert(rfc4648_alphabet()[44] == 's');
    } else if v == 45 {
        assert(rfc4648_alphabet()[45] == 't');
    } else if v == 46 {
        assert(rfc4648_alphabet()[46] == 'u');
    } else if v == 47 {
        assert(rfc4648_alphabet()[47] == 'v');
    } else if v == 48 {
        assert(rfc4648_alphabet()[48] == 'w');
    } else if v == 49 {
        assert(rfc4648_alphabet()[49] == 'x');
    } else if v == 50 {
        assert(rfc4648_alphabet()[50] == 'y');
    } else if v == 51 {
        assert(rfc4648_alphabet()[51] == 'z');
    } else if v == 52 {
        assert(rfc4648_alphabet()[52] == '0');
    } else if v == 53 {
        assert(rfc4648_alphabet()[53] == '1');
    } else if v == 54 {
        assert(rfc4648_alphabet()[54] == '2');
    } else if v == 55 {
        assert(rfc4648_alphabet()[55] == '3');
    } else if v == 56 {
        assert(rfc4648_alphabet()[56] == '4');
    } else if v == 57 {
        assert(rfc4648_alphabet()[57] == '5');
    } else if v == 58 {
        assert(rfc4648_alphabet()[58] == '6');
    } else if v == 59 {
        assert(rfc4648_alphabet()[59] == '7');
    } else if v == 60 {
        assert(rfc4648_alphabet()[60] == '8');
    } else if v == 61 {
        assert(rfc4648_alphabet()[61] == '9');
    } else if v == 62 {
        assert(rfc4648_alphabet()[62] == '+');
    } else if v == 63 {
        assert(rfc4648_alphabet()[63] == '/');
    }
}

/// The first four digits of a base64 text encode its first three bytes (the
/// bytes read as one 24-bit number, the digits as four 6-bit places of the
/// alphabet), with `=` for the places of missing bytes, and the rest of the
/// text encodes the rest of the bytes; so the text is four digits per three
/// bytes, rounded up, and standard decoders give the bytes back.
pub proof fn law_base64_groups(s: Seq<u8>)
    requires
        s.len() > 0,
    ensures
        ({
            let o = base64_spec(s);
            let b0 = s[0] as int;
            let b1 = if s.len() > 1 { s[1] as int } else { 0 };
            let b2 = if s.len() > 2 { s[2] as int } else { 0 };
            &&& o.len() >= 4
            &&& exists|d0: int, d1: int, d2: int, d3: int|
                #![trigger rfc4648_alphabet()[d0], rfc4648_alphabet()[d1], rfc4648_alphabet()[d2], rfc4648_alphabet()[d3]]
                0 <= d0 < 64 && 0 <= d1 < 64 && 0 <= d2 < 64 && 0 <= d3 < 64
                && d0 * 262144 + d1 * 4096 + d2 * 64 + d3 == b0 * 65536 + b1 * 256 + b2
                && o[0] == rfc4648_alphabet()[d0] && o[1] == rfc4648_alphabet()[d1]
                && o[2] == (if s.len() > 1 { rfc4648_alphabet()[d2] } else { '=' })
                && o[3] == (if s.len() > 2 { rfc4648_alphabet()[d3] } else { '=' })
            &&& o.skip(4) == (if s.len() > 3 { base64_spec(s.skip(3)) } else { Seq::empty() })
        }),
{
    let b0 = s[0] as int;
    let b1 = if s.len() > 1 { s[1] as int } else { 0 };
    let b2 = if s.len() > 2 { s[2] as int } else { 0 };
    let d0 = b0 / 4;
    let d1 = (b0 % 4) * 16 + b1 / 16;
    let d2 = (b1 % 16) * 4 + b2 / 64;
    let d3 = b2 % 64;
    assert(0 <= d0 < 64 && 0 <= d1 < 64 && 0 <= d2 < 64 && 0 <= d3 < 64
        && d0 * 262144 + d1 * 4096 + d2 * 64 + d3 == b0 * 65536 + b1 * 256 + b2) by (nonlinear_arith)
        requires
            0 <= b0 < 256,
            0 <= b1 < 256,
            0 <= b2 < 256,
            d0 == b0 / 4,
            d1 == (b0 % 4) * 16 + b1 / 16,
            d2 == (b1 % 16) * 4 + b2 / 64,
            d3 == b2 % 64,
    ;
    law_base64_alphabet(d0);
    law_base64_alphabet(d1);
    law_base64_alphabet(d2);
    law_base64_alphabet(d3);
    let o = base64_spec(s);
    let rest = if s.len() > 3 { base64_spec(s.skip(3)) } else { Seq::empty() };
    assert(o == seq![o[0], o[1], o[2], o[3]] + rest);
    assert(o.skip(4) =~= rest);
}

} // verus!
