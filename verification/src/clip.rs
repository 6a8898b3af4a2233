//! The clipboard, through the terminal escape sequence OSC 52.
//!
//! OSC 52 is a sequence of characters that the viewer writes to the terminal.
//! The terminal then puts the text on the clipboard. The clipboard therefore
//! works when the viewer runs on another machine through SSH: the text goes to
//! the clipboard of the machine of the user.
//!
//! This module builds the sequence. The program writes it to the terminal.

use vstd::prelude::*;

use crate::chars::{char_from_code, decimal, decimal_text, push_char};
use vstd::string::StringSliceAdditionalSpecFns;

verus! {

broadcast use vstd::string::group_string_axioms;

/// The largest number of bytes that the viewer sends to the terminal.
///
/// A terminal discards a very long OSC 52 sequence. An error message is better
/// for the user than one half of a value on the clipboard.
pub const MAX_BYTES: usize = 96 * 1024;

/// The character of the base64 alphabet of RFC 4648 for a value of six bits.
pub open spec fn sextet(v: int) -> char {
    if v < 26 {
        (v + 0x41) as char
    } else if v < 52 {
        (v - 26 + 0x61) as char
    } else if v < 62 {
        (v - 52 + 0x30) as char
    } else if v == 62 {
        '+'
    } else {
        '/'
    }
}

/// The base64 form of RFC 4648: each group of three bytes gives four
/// characters of six bits each, and a last group of one or two bytes is
/// padded with `=`.
pub open spec fn b64(d: Seq<u8>) -> Seq<char>
    decreases d.len(),
{
    if d.len() == 0 {
        Seq::empty()
    } else if d.len() == 1 {
        seq![sextet((d[0] / 4) as int), sextet((d[0] % 4) * 16), '=', '=']
    } else if d.len() == 2 {
        seq![sextet((d[0] / 4) as int), sextet((d[0] % 4) * 16 + d[1] / 16), sextet((d[1] % 16) * 4), '=']
    } else {
        seq![
            sextet((d[0] / 4) as int),
            sextet((d[0] % 4) * 16 + d[1] / 16),
            sextet((d[1] % 16) * 4 + d[2] / 64),
            sextet((d[2] % 64) as int),
        ] + b64(d.skip(3))
    }
}

/// Gives the character of the base64 alphabet for a value of six bits.
fn sextet_char(v: u8) -> (r: char)
    requires
        v < 64,
    ensures
        r == sextet(v as int),
{
    if v < 26 {
        char_from_code(v as u32 + 0x41)
    } else if v < 52 {
        char_from_code(v as u32 - 26 + 0x61)
    } else if v < 62 {
        char_from_code(v as u32 - 52 + 0x30)
    } else if v == 62 {
        '+'
    } else {
        '/'
    }
}

/// The base64 form of the bytes from `i` on is the form of the groups before
/// the next one and the form of the rest.
proof fn lemma_b64_step(d: Seq<u8>, i: int)
    requires
        0 <= i,
        i + 3 <= d.len(),
    ensures
        b64(d.skip(i)) == seq![
            sextet((d[i] / 4) as int),
            sextet((d[i] % 4) * 16 + d[i + 1] / 16),
            sextet((d[i + 1] % 16) * 4 + d[i + 2] / 64),
            sextet((d[i + 2] % 64) as int),
        ] + b64(d.skip(i + 3)),
{
    assert(d.skip(i).skip(3) =~= d.skip(i + 3));
}

/// Writes bytes in the base64 form of the standard RFC 4648.
///
/// The form has four characters for each group of three bytes, the last group
/// counted in full. It uses the characters of the alphabet, with `=` at its
/// end for each byte that the last group lacks, and a reading of it gives
/// the bytes back.
pub fn base64(data: &[u8]) -> (r: String)
    ensures
        r@ == b64(data@),
        r@.len() == 4 * ((data@.len() + 2) / 3),
        forall|i: int| 0 <= i < r@.len() - padding(data@.len()) ==> b64_char(#[trigger] r@[i]),
        forall|i: int| r@.len() - padding(data@.len()) <= i < r@.len() ==> #[trigger] r@[i] == '=',
        from_b64(r@) == data@,
{
    let mut out = String::new();
    let n = data.len();
    let mut i: usize = 0;
    assert(data@.skip(0) =~= data@);
    while n - i >= 3
        invariant
            i <= n == data@.len(),
            i % 3 == 0,
            out@ + b64(data@.skip(i as int)) == b64(data@),
            out@.len() == 4 * (i / 3),
        decreases n - i,
    {
        let b0 = data[i];
        let b1 = data[i + 1];
        let b2 = data[i + 2];
        proof {
            lemma_b64_step(data@, i as int);
        }
        let ghost before = out@;
        push_char(&mut out, sextet_char(b0 / 4));
        push_char(&mut out, sextet_char((b0 % 4) * 16 + b1 / 16));
        push_char(&mut out, sextet_char((b1 % 16) * 4 + b2 / 64));
        push_char(&mut out, sextet_char(b2 % 64));
        proof {
            let g = seq![
                sextet((b0 / 4) as int),
                sextet((b0 % 4) * 16 + b1 / 16),
                sextet((b1 % 16) * 4 + b2 / 64),
                sextet((b2 % 64) as int),
            ];
            assert(out@ =~= before + g);
            vstd::seq_lib::lemma_concat_associative(before, g, b64(data@.skip(i + 3)));
        }
        i += 3;
    }
    let rest = n - i;
    let ghost before = out@;
    let ghost tail = data@.skip(i as int);
    if rest == 1 {
        let b0 = data[i];
        push_char(&mut out, sextet_char(b0 / 4));
        push_char(&mut out, sextet_char((b0 % 4) * 16));
        push_char(&mut out, '=');
        push_char(&mut out, '=');
        assert(tail[0] == b0);
        assert(out@ =~= before + b64(tail));
    } else if rest == 2 {
        let b0 = data[i];
        let b1 = data[i + 1];
        push_char(&mut out, sextet_char(b0 / 4));
        push_char(&mut out, sextet_char((b0 % 4) * 16 + b1 / 16));
        push_char(&mut out, sextet_char((b1 % 16) * 4));
        push_char(&mut out, '=');
        assert(tail[0] == b0 && tail[1] == b1);
        assert(out@ =~= before + b64(tail));
    } else {
        assert(tail.len() == 0);
        assert(out@ =~= before + b64(tail));
    }
    proof {
        base64_reads_back(data@);
    }
    out
}

/// A text that is too large for the clipboard of the terminal.
#[derive(Clone, Copy, Debug, PartialEq, Eq, Structural)]
pub struct TooLarge {
    /// The number of bytes of the text.
    pub bytes: usize,
}

impl TooLarge {
    /// Gives the message for the status line.
    pub fn message(&self) -> (r: String)
        ensures
            r@ == "value is "@ + decimal((self.bytes / 1024) as nat)
                + " KB — too large for the terminal clipboard"@,
    {
        let mut out = String::from_str("value is ");
        let kb = decimal_text((self.bytes / 1024) as u64);
        out.append(kb.as_str());
        out.append(" KB — too large for the terminal clipboard");
        out
    }
}

/// Builds the escape sequence that puts a text on the clipboard of the
/// terminal: `ESC ] 52 ; c ;`, the base64 form of the bytes of the text, and
/// `BEL`. A text of more than [`MAX_BYTES`] bytes gives an error, and never a
/// part of the text.
pub fn clipboard_sequence(text: &str) -> (r: Result<String, TooLarge>)
    ensures
        text.spec_bytes().len() > MAX_BYTES ==> r == Err::<String, TooLarge>(
            TooLarge { bytes: text.spec_bytes().len() as usize },
        ),
        text.spec_bytes().len() <= MAX_BYTES ==> (r matches Ok(s) && s@ == "\x1b]52;c;"@ + b64(
            text.spec_bytes(),
        ) + "\x07"@),
{
    let bytes = text.as_bytes();
    if bytes.len() > MAX_BYTES {
        return Err(TooLarge { bytes: bytes.len() });
    }
    let mut out = String::from_str("\x1b]52;c;");
    let enc = base64(bytes);
    out.append(enc.as_str());
    out.append("\x07");
    Ok(out)
}

} // verus!

verus! {

/// Gives `true` for a character of the base64 alphabet of RFC 4648: `A` to
/// `Z`, `a` to `z`, `0` to `9`, `+` and `/`.
pub open spec fn b64_char(c: char) -> bool {
    ||| 'A' <= c <= 'Z'
    ||| 'a' <= c <= 'z'
    ||| '0' <= c <= '9'
    ||| c == '+'
    ||| c == '/'
}

/// The value of six bits that a character of the base64 alphabet stands for.
pub open spec fn unsextet(c: char) -> int {
    let u = c as int;
    if 0x41 <= u <= 0x5A {
        u - 0x41
    } else if 0x61 <= u <= 0x7A {
        u - 0x61 + 26
    } else if 0x30 <= u <= 0x39 {
        u - 0x30 + 52
    } else if c == '+' {
        62
    } else {
        63
    }
}

/// The bytes of a text in the base64 form of RFC 4648, read four
/// characters at a time; a group that ends with `=` holds fewer bytes.
pub open spec fn from_b64(s: Seq<char>) -> Seq<u8>
    decreases s.len(),
{
    if s.len() < 4 {
        Seq::empty()
    } else {
        let a = unsextet(s[0]);
        let b = unsextet(s[1]);
        let c = unsextet(s[2]);
        let d = unsextet(s[3]);
        let b0 = (a * 4 + b / 16) as u8;
        let b1 = ((b % 16) * 16 + c / 4) as u8;
        let b2 = ((c % 4) * 64 + d) as u8;
        let group = if s[2] == '=' {
            seq![b0]
        } else if s[3] == '=' {
            seq![b0, b1]
        } else {
            seq![b0, b1, b2]
        };
        group + from_b64(s.skip(4))
    }
}

/// The number of `=` at the end of the base64 form of `n` bytes.
pub open spec fn padding(n: nat) -> nat {
    if n % 3 == 1 {
        2
    } else if n % 3 == 2 {
        1
    } else {
        0
    }
}

/// A value of six bits gives a character of the alphabet, which stands for
/// that value again.
pub proof fn lemma_sextet(v: int)
    requires
        0 <= v < 64,
    ensures
        b64_char(sextet(v)),
        unsextet(sextet(v)) == v,
        sextet(v) != '=',
{
}

/// The characters of the base64 form of one group of bytes stand for those
/// bytes again.
pub proof fn lemma_group(b0: u8, b1: u8, b2: u8)
    ensures
        ({
            let a = b0 / 4;
            let b = (b0 % 4) * 16 + b1 / 16;
            let c = (b1 % 16) * 4 + b2 / 64;
            let d = b2 % 64;
            &&& 0 <= a < 64 && 0 <= b < 64 && 0 <= c < 64 && 0 <= d < 64
            &&& a * 4 + b / 16 == b0
            &&& (b % 16) * 16 + c / 4 == b1
            &&& (c % 4) * 64 + d == b2
            &&& ((b0 % 4) * 16) / 16 == b0 % 4
            &&& ((b1 % 16) * 4) / 4 == b1 % 16
        }),
{
    assert(b0 / 4 * 4 + b0 % 4 == b0) by (nonlinear_arith);
    assert(((b0 % 4) * 16 + b1 / 16) / 16 == b0 % 4 && ((b0 % 4) * 16 + b1 / 16) % 16 == b1 / 16)
        by (nonlinear_arith)
        requires
            b1 / 16 < 16,
    ;
    assert(((b1 % 16) * 4 + b2 / 64) / 4 == b1 % 16 && ((b1 % 16) * 4 + b2 / 64) % 4 == b2 / 64)
        by (nonlinear_arith)
        requires
            b2 / 64 < 4,
    ;
    assert(b1 / 16 * 16 + b1 % 16 == b1) by (nonlinear_arith);
    assert(b2 / 64 * 64 + b2 % 64 == b2) by (nonlinear_arith);
}

/// The base64 form uses the alphabet and `=` at its end only, as many `=` as
/// the last group lacks bytes, and a reading of it gives the bytes back.
pub proof fn base64_reads_back(d: Seq<u8>)
    ensures
        b64(d).len() == 4 * ((d.len() + 2) / 3),
        forall|i: int| 0 <= i < b64(d).len() - padding(d.len()) ==> b64_char(#[trigger] b64(d)[i]),
        forall|i: int| b64(d).len() - padding(d.len()) <= i < b64(d).len() ==> #[trigger] b64(d)[i] == '=',
        from_b64(b64(d)) == d,
    decreases d.len(),
{
    let r = b64(d);
    if d.len() == 0 {
        assert(from_b64(r) =~= d);
    } else if d.len() == 1 {
        lemma_group(d[0], 0, 0);
        lemma_sextet((d[0] / 4) as int);
        lemma_sextet((d[0] % 4) * 16);
        assert(r.skip(4) =~= Seq::<char>::empty());
        assert(from_b64(r.skip(4)) == Seq::<u8>::empty());
        assert(r[2] == '=');
        let b0 = (unsextet(r[0]) * 4 + unsextet(r[1]) / 16) as u8;
        assert(unsextet(r[0]) == d[0] / 4);
        assert(unsextet(r[1]) == (d[0] % 4) * 16);
        assert(b0 == d[0]);
        assert(from_b64(r) == seq![b0] + from_b64(r.skip(4)));
        assert(from_b64(r) =~= d);
    } else if d.len() == 2 {
        lemma_group(d[0], d[1], 0);
        lemma_sextet((d[0] / 4) as int);
        lemma_sextet((d[0] % 4) * 16 + d[1] / 16);
        lemma_sextet((d[1] % 16) * 4);
        assert(r.skip(4) =~= Seq::<char>::empty());
        assert(from_b64(r.skip(4)) == Seq::<u8>::empty());
        assert(r[2] != '=' && r[3] == '=');
        let b0 = (unsextet(r[0]) * 4 + unsextet(r[1]) / 16) as u8;
        let b1 = ((unsextet(r[1]) % 16) * 16 + unsextet(r[2]) / 4) as u8;
        assert(unsextet(r[0]) == d[0] / 4);
        assert(unsextet(r[1]) == (d[0] % 4) * 16 + d[1] / 16);
        assert(unsextet(r[2]) == (d[1] % 16) * 4);
        assert(b0 == d[0]);
        assert(b1 == d[1]);
        assert(from_b64(r) == seq![b0, b1] + from_b64(r.skip(4)));
        assert(from_b64(r) =~= d);
    } else {
        let rest = d.skip(3);
        base64_reads_back(rest);
        lemma_group(d[0], d[1], d[2]);
        lemma_sextet((d[0] / 4) as int);
        lemma_sextet((d[0] % 4) * 16 + d[1] / 16);
        lemma_sextet((d[1] % 16) * 4 + d[2] / 64);
        lemma_sextet((d[2] % 64) as int);
        let g = seq![
            sextet((d[0] / 4) as int),
            sextet((d[0] % 4) * 16 + d[1] / 16),
            sextet((d[1] % 16) * 4 + d[2] / 64),
            sextet((d[2] % 64) as int),
        ];
        assert(r == g + b64(rest));
        assert(r.skip(4) =~= b64(rest));
        assert(padding(d.len()) == padding(rest.len()));
        assert forall|i: int| 0 <= i < r.len() - padding(d.len()) implies b64_char(#[trigger] r[i]) by {
            if i >= 4 {
                assert(r[i] == b64(rest)[i - 4]);
            }
        }
        assert forall|i: int| r.len() - padding(d.len()) <= i < r.len() implies #[trigger] r[i] == '=' by {
            assert(r[i] == b64(rest)[i - 4]);
        }
        assert(seq![d[0], d[1], d[2]] + rest =~= d);
    }
}

} // verus!
