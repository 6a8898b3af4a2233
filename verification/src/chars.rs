//! Characters and texts: the std functions and the `unicode-width` functions
//! that the logic calls on them, and the measures of a text in bytes and in
//! screen columns.
//!
//! A function of a Unicode table (the width of a character, its small letters,
//! whether it is a letter) takes pages to state, so its result has a name
//! here, and the function that calls it says that it gives that named value.
//! A property that the Unicode standard fixes in a few lines (the control
//! characters, the white space, the ASCII digits) is stated and proved here.

use vstd::prelude::*;
use vstd::utf8::encode_utf8;
use unicode_width::{UnicodeWidthChar, UnicodeWidthStr};

verus! {

broadcast use vstd::string::group_string_axioms;

/// The width on the screen of one character, as `unicode-width` gives it:
/// `None` for a control character.
pub uninterp spec fn char_width(c: char) -> Option<usize>;

/// The width on the screen of a text, as `unicode-width` gives it.
pub uninterp spec fn text_width(s: Seq<char>) -> usize;

/// The small letters of one character, as `char::to_lowercase` gives them.
pub uninterp spec fn lower_char(c: char) -> Seq<char>;

/// The small letters of a text, as `str::to_lowercase` gives them.
pub uninterp spec fn lower_text(s: Seq<char>) -> Seq<char>;

/// Whether a character is a letter, as `char::is_alphabetic` says.
pub uninterp spec fn alphabetic(c: char) -> bool;

/// Whether a character is a letter or a number, as `char::is_alphanumeric`
/// says.
pub uninterp spec fn alphanumeric(c: char) -> bool;

/// Gives `true` when each character of a text is printable ASCII, from the
/// space to `~`.
pub open spec fn printable_ascii(s: Seq<char>) -> bool {
    forall|i: int| 0 <= i < s.len() ==> 0x20 <= (#[trigger] s[i] as u32) && (s[i] as u32) < 0x7F
}

/// Gives `true` when each character of a text is an ASCII character.
pub open spec fn all_ascii(s: Seq<char>) -> bool {
    forall|i: int| 0 <= i < s.len() ==> (#[trigger] s[i] as u32) < 0x80
}

/// Whether a character is an ASCII letter: `A` to `Z` or `a` to `z`.
pub open spec fn ascii_letter(c: char) -> bool {
    ('A' <= c && c <= 'Z') || ('a' <= c && c <= 'z')
}

/// Whether a character is a control character: the Unicode category `Cc`,
/// which holds U+0000 to U+001F and U+007F to U+009F.
pub open spec fn control(c: char) -> bool {
    (c as u32) <= 0x1F || (0x7F <= (c as u32) && (c as u32) <= 0x9F)
}

/// Whether a character has the Unicode property `White_Space`.
pub open spec fn white_space(c: char) -> bool {
    let u = c as u32;
    ||| 0x09 <= u <= 0x0D
    ||| u == 0x20
    ||| u == 0x85
    ||| u == 0xA0
    ||| u == 0x1680
    ||| 0x2000 <= u <= 0x200A
    ||| u == 0x2028
    ||| u == 0x2029
    ||| u == 0x202F
    ||| u == 0x205F
    ||| u == 0x3000
}

/// Whether a character is one of the ASCII digits `0` to `9`.
pub open spec fn ascii_digit(c: char) -> bool {
    '0' <= c <= '9'
}

/// Whether a character is an ASCII letter or an ASCII digit.
pub open spec fn ascii_alphanumeric(c: char) -> bool {
    ||| 'a' <= c <= 'z'
    ||| 'A' <= c <= 'Z'
    ||| '0' <= c <= '9'
}

/// The columns that one character takes in a row of text: a control
/// character takes none.
pub open spec fn columns(c: char) -> nat {
    match char_width(c) {
        Some(w) => w as nat,
        None => 0,
    }
}

/// The sum of the columns of the characters of a text.
pub open spec fn sum_columns(s: Seq<char>) -> nat
    decreases s.len(),
{
    if s.len() == 0 {
        0
    } else {
        columns(s[0]) + sum_columns(s.drop_first())
    }
}

/// The number of bytes of the UTF-8 form of one character.
pub open spec fn utf8_len(c: char) -> nat {
    let u = c as u32;
    if u < 0x80 {
        1
    } else if u < 0x800 {
        2
    } else if u < 0x10000 {
        3
    } else {
        4
    }
}

/// The number of bytes of the UTF-8 form of a text.
pub open spec fn byte_len(s: Seq<char>) -> nat
    decreases s.len(),
{
    if s.len() == 0 {
        0
    } else {
        utf8_len(s[0]) + byte_len(s.drop_first())
    }
}

/// All the small letters of a text, one character after the other.
pub open spec fn lower_each(s: Seq<char>) -> Seq<char>
    decreases s.len(),
{
    if s.len() == 0 {
        Seq::empty()
    } else {
        lower_char(s[0]) + lower_each(s.drop_first())
    }
}

/// The width of a text that is the sum of the widths of its characters.
pub proof fn lemma_sum_columns_append(a: Seq<char>, b: Seq<char>)
    ensures
        sum_columns(a + b) == sum_columns(a) + sum_columns(b),
    decreases a.len(),
{
    if a.len() == 0 {
        assert(a + b =~= b);
    } else {
        assert((a + b).drop_first() =~= a.drop_first() + b);
        lemma_sum_columns_append(a.drop_first(), b);
    }
}

/// The columns of a text with one more character.
pub proof fn lemma_sum_columns_push(a: Seq<char>, c: char)
    ensures
        sum_columns(a.push(c)) == sum_columns(a) + columns(c),
{
    assert(a.push(c) =~= a + seq![c]);
    lemma_sum_columns_append(a, seq![c]);
    assert(seq![c].drop_first() =~= Seq::<char>::empty());
    assert(sum_columns(seq![c].drop_first()) == 0);
    assert(sum_columns(seq![c]) == columns(c));
}

/// The bytes of a text are the bytes of its two parts.
pub proof fn lemma_byte_len_append(a: Seq<char>, b: Seq<char>)
    ensures
        byte_len(a + b) == byte_len(a) + byte_len(b),
    decreases a.len(),
{
    if a.len() == 0 {
        assert(a + b =~= b);
    } else {
        assert((a + b).drop_first() =~= a.drop_first() + b);
        lemma_byte_len_append(a.drop_first(), b);
    }
}

/// The bytes of a text with one more character.
pub proof fn lemma_byte_len_push(a: Seq<char>, c: char)
    ensures
        byte_len(a.push(c)) == byte_len(a) + utf8_len(c),
{
    assert(a.push(c) =~= a + seq![c]);
    lemma_byte_len_append(a, seq![c]);
    assert(seq![c].drop_first() =~= Seq::<char>::empty());
    assert(byte_len(seq![c].drop_first()) == 0);
    assert(byte_len(seq![c]) == utf8_len(c));
}

/// The small letters of a text are the small letters of its two parts.
pub proof fn lemma_lower_each_append(a: Seq<char>, b: Seq<char>)
    ensures
        lower_each(a + b) == lower_each(a) + lower_each(b),
    decreases a.len(),
{
    if a.len() == 0 {
        assert(a + b =~= b);
        assert(lower_each(a) + lower_each(b) =~= lower_each(b));
    } else {
        assert((a + b).drop_first() =~= a.drop_first() + b);
        lemma_lower_each_append(a.drop_first(), b);
        assert(lower_char(a[0]) + (lower_each(a.drop_first()) + lower_each(b))
            =~= (lower_char(a[0]) + lower_each(a.drop_first())) + lower_each(b));
    }
}

/// The number of bytes of a text is the length of its UTF-8 form.
pub proof fn lemma_byte_len_is_encoding(s: Seq<char>)
    ensures
        byte_len(s) == encode_utf8(s).len(),
    decreases s.len(),
{
    if s.len() > 0 {
        lemma_byte_len_is_encoding(s.drop_first());
        vstd::utf8::char_is_scalar(s[0]);
    }
}

/// A prefix of a text holds no more bytes than the text.
pub proof fn lemma_byte_len_take(s: Seq<char>, k: int)
    requires
        0 <= k <= s.len(),
    ensures
        byte_len(s.take(k)) <= byte_len(s),
{
    assert(s =~= s.take(k) + s.skip(k));
    lemma_byte_len_append(s.take(k), s.skip(k));
}

/// Moves back from `i` while the character before the position has the
/// property `p`.
pub open spec fn scan_back(s: Seq<char>, i: int, p: spec_fn(char) -> bool) -> int
    decreases i,
{
    if i <= 0 {
        0
    } else if p(s[i - 1]) {
        scan_back(s, i - 1, p)
    } else {
        i
    }
}

/// Moves forward from `i` while the character at the position has the
/// property `p`.
pub open spec fn scan_fwd(s: Seq<char>, i: int, p: spec_fn(char) -> bool) -> int
    decreases s.len() - i,
{
    if i >= s.len() {
        s.len() as int
    } else if p(s[i]) {
        scan_fwd(s, i + 1, p)
    } else {
        i
    }
}

/// A text without the white space at its start and at its end, as
/// `str::trim` gives it.
pub open spec fn trimmed(s: Seq<char>) -> Seq<char> {
    let a = scan_fwd(s, 0, |c: char| white_space(c));
    let b = scan_back(s, s.len() as int, |c: char| white_space(c));
    if a < b {
        s.subrange(a, b)
    } else {
        Seq::empty()
    }
}

/// One character with an ASCII capital letter made small, as
/// `char::to_ascii_lowercase` gives it.
pub open spec fn ascii_lower(c: char) -> char {
    if 'A' <= c <= 'Z' {
        ((c as u32) + 0x20) as char
    } else {
        c
    }
}

/// A text with each ASCII capital letter made small, as
/// `str::to_ascii_lowercase` gives it.
pub open spec fn ascii_lowered(s: Seq<char>) -> Seq<char> {
    s.map_values(|c: char| ascii_lower(c))
}

/// A position that a move back stops at is never past the start of the move.
pub proof fn lemma_scan_back_bounds(s: Seq<char>, i: int, p: spec_fn(char) -> bool)
    requires
        0 <= i <= s.len(),
    ensures
        0 <= scan_back(s, i, p) <= i,
    decreases i,
{
    if i > 0 && p(s[i - 1]) {
        lemma_scan_back_bounds(s, i - 1, p);
    }
}

/// A move forward never goes back, and never leaves the text.
pub proof fn lemma_scan_fwd_bounds(s: Seq<char>, i: int, p: spec_fn(char) -> bool)
    requires
        0 <= i <= s.len(),
    ensures
        i <= scan_fwd(s, i, p) <= s.len(),
        scan_fwd(s, i, p) < s.len() ==> !p(s[scan_fwd(s, i, p)]),
    decreases s.len() - i,
{
    if i < s.len() && p(s[i]) {
        lemma_scan_fwd_bounds(s, i + 1, p);
    }
}

/// A move back stops after the first character, from the end, that lacks the
/// property.
pub proof fn lemma_scan_back_stops(s: Seq<char>, i: int, k: int, p: spec_fn(char) -> bool)
    requires
        0 <= k < i <= s.len(),
        !p(s[k]),
    ensures
        scan_back(s, i, p) > k,
    decreases i,
{
    if p(s[i - 1]) {
        lemma_scan_back_stops(s, i - 1, k, p);
    }
}

/// Gives the characters of a text without the white space at its ends, as
/// `str::trim` gives them.
pub fn trimmed_chars(s: &str) -> (r: Vec<char>)
    ensures
        r@ == trimmed(s@),
{
    let cs = chars_of(s);
    let n = cs.len();
    let mut a: usize = 0;
    while a < n && is_whitespace(cs[a])
        invariant
            a <= n == cs@.len(),
            cs@ == s@,
            scan_fwd(cs@, a as int, |c: char| white_space(c)) == scan_fwd(
                cs@,
                0,
                |c: char| white_space(c),
            ),
        decreases n - a,
    {
        a += 1;
    }
    proof {
        lemma_scan_back_bounds(cs@, n as int, |c: char| white_space(c));
    }
    let mut b: usize = n;
    while b > a && is_whitespace(cs[b - 1])
        invariant
            a <= b <= n == cs@.len(),
            cs@ == s@,
            a < n ==> !white_space(cs@[a as int]),
            a < n ==> a < b,
            scan_back(cs@, b as int, |c: char| white_space(c)) == scan_back(
                cs@,
                n as int,
                |c: char| white_space(c),
            ),
        decreases b,
    {
        b -= 1;
    }
    if a < b {
        slice_of(&cs, a, b)
    } else {
        Vec::new()
    }
}

/// Gives the characters of a text without the white space at its ends, each
/// ASCII capital letter made small.
pub fn trimmed_ascii_lower(s: &str) -> (r: Vec<char>)
    ensures
        r@ == ascii_lowered(trimmed(s@)),
{
    let t = trimmed_chars(s);
    let mut out: Vec<char> = Vec::new();
    let mut i: usize = 0;
    while i < t.len()
        invariant
            i <= t@.len(),
            out@ == ascii_lowered(t@.take(i as int)),
        decreases t@.len() - i,
    {
        let c = t[i];
        let l = if 'A' <= c && c <= 'Z' {
            char_from_code((c as u32) + 0x20)
        } else {
            c
        };
        out.push(l);
        i += 1;
        assert(ascii_lowered(t@.take(i as int)) =~= ascii_lowered(t@.take(i - 1)).push(
            ascii_lower(c),
        ));
    }
    assert(t@.take(i as int) =~= t@);
    out
}

/// Gives `true` when two texts hold the same characters.
pub fn same_str(a: &str, b: &str) -> (r: bool)
    ensures
        r == (a@ == b@),
{
    let ac = chars_of(a);
    same_text(&ac, b)
}

/// Gives the character with a code that lies in the ASCII range.
pub(crate) fn char_from_code(u: u32) -> (r: char)
    requires
        u < 0x80,
    ensures
        r == u as char,
{
    let b: u8 = u as u8;
    b as char
}

/// Gives `true` when a list of characters holds the characters of a text.
pub fn same_text(a: &Vec<char>, b: &str) -> (r: bool)
    ensures
        r == (a@ == b@),
{
    let bs = chars_of(b);
    if a.len() != bs.len() {
        return false;
    }
    let mut i: usize = 0;
    while i < a.len()
        invariant
            i <= a@.len() == bs@.len(),
            bs@ == b@,
            forall|k: int| 0 <= k < i ==> a@[k] == bs@[k],
        decreases a@.len() - i,
    {
        if a[i] != bs[i] {
            return false;
        }
        i += 1;
    }
    assert(a@ =~= bs@);
    true
}

/// Gives the number of bytes of a text, and proves that it is the number of
/// bytes of the UTF-8 form, which always fits in `usize`.
pub fn text_bytes(s: &str) -> (r: usize)
    ensures
        r == byte_len(s@),
{
    let b = s.as_bytes();
    proof {
        lemma_byte_len_is_encoding(s@);
    }
    b.len()
}

/// Gives the characters of a text, one entry for each character.
pub fn chars_of(s: &str) -> (r: Vec<char>)
    ensures
        r@ == s@,
{
    let mut out: Vec<char> = Vec::new();
    for c in it: s.chars()
        invariant
            out@ == it.seq().take(it.index() as int),
            it.seq() == s@,
    {
        out.push(c);
    }
    assert(out@ =~= s@);
    out
}

/// Gives a part of a list of characters.
pub fn slice_of(cs: &Vec<char>, from: usize, to: usize) -> (r: Vec<char>)
    requires
        from <= to <= cs@.len(),
    ensures
        r@ == cs@.subrange(from as int, to as int),
{
    let mut out: Vec<char> = Vec::new();
    let mut i = from;
    while i < to
        invariant
            from <= i <= to <= cs@.len(),
            out@ == cs@.subrange(from as int, i as int),
        decreases to - i,
    {
        out.push(cs[i]);
        i += 1;
        assert(out@ =~= cs@.subrange(from as int, i as int));
    }
    out
}

/// Adds one character at the end of a text (`String::push`).
#[verifier::external_body]
pub(crate) fn push_char(s: &mut String, c: char)
    ensures
        final(s)@ == old(s)@.push(c),
{
    s.push(c);
}

/// Makes a text from a list of characters.
pub fn text_of(cs: &[char]) -> (r: String)
    ensures
        r@ == cs@,
{
    let mut out = String::new();
    let mut i: usize = 0;
    while i < cs.len()
        invariant
            i <= cs@.len(),
            out@ == cs@.take(i as int),
        decreases cs@.len() - i,
    {
        push_char(&mut out, cs[i]);
        i += 1;
        assert(out@ =~= cs@.take(i as int));
    }
    assert(cs@.take(i as int) =~= cs@);
    out
}

/// Makes a text from a part of a list of characters.
pub fn text_of_range(cs: &[char], from: usize, to: usize) -> (r: String)
    requires
        from <= to <= cs@.len(),
    ensures
        r@ == cs@.subrange(from as int, to as int),
{
    let mut out = String::new();
    let mut i: usize = from;
    while i < to
        invariant
            from <= i <= to <= cs@.len(),
            out@ == cs@.subrange(from as int, i as int),
        decreases to - i,
    {
        push_char(&mut out, cs[i]);
        i += 1;
        assert(out@ =~= cs@.subrange(from as int, i as int));
    }
    out
}

/// A text as the format `{:?}` writes it: between double quotation marks,
/// with the escapes of `str::escape_debug`.
pub uninterp spec fn quoted(s: Seq<char>) -> Seq<char>;

/// Writes a text as the format `{:?}` writes it. The result is the one that
/// [`quoted`] names; nothing more is stated of it.
#[verifier::external_body]
pub(crate) fn quote(s: &str) -> (r: String)
    ensures
        r@ == quoted(s@),
{
    format!("{s:?}")
}

/// Gives the width of one character on the screen
/// (`UnicodeWidthChar::width` of `unicode-width`).
///
/// The crate gives `None` for a control character, that is U+0000 to U+001F
/// and U+007F to U+009F, and one column for each other ASCII character. Its
/// rules give no character more than three columns.
#[verifier::external_body]
pub(crate) fn char_columns(c: char) -> (r: Option<usize>)
    ensures
        r == char_width(c),
        r is None <==> control(c),
        (0x20 <= (c as u32) && (c as u32) < 0x7F) ==> r == Some(1usize),
        r matches Some(w) ==> w <= 3,
{
    UnicodeWidthChar::width(c)
}

/// Gives the width of a text on the screen (`UnicodeWidthStr::width` of
/// `unicode-width`).
///
/// The crate gives the sum of the widths of the characters, except for the
/// sequences that its rules join into one ligature, so no short fact covers
/// every text. A text of printable ASCII characters takes one column for
/// each character.
#[verifier::external_body]
pub(crate) fn text_columns(s: &str) -> (r: usize)
    ensures
        r == text_width(s@),
        printable_ascii(s@) ==> r == s@.len(),
{
    UnicodeWidthStr::width(s)
}

/// Gives the small letters of one character (`char::to_lowercase`). The
/// documentation says that it yields one character or more; an ASCII
/// capital gives its small letter, and each other ASCII character stays.
#[verifier::external_body]
pub(crate) fn lowercase_of(c: char) -> (r: Vec<char>)
    ensures
        r@ == lower_char(c),
        r@.len() >= 1,
        (c as u32) < 0x80 ==> r@ == seq![ascii_lower(c)],
{
    c.to_lowercase().collect()
}

/// Gives the small letters of a text (`str::to_lowercase`). The empty text
/// has no small letters, and a text of ASCII characters changes as
/// `str::to_ascii_lowercase` changes it: each capital becomes its small
/// letter.
#[verifier::external_body]
pub(crate) fn lowercase_text(s: &str) -> (r: String)
    ensures
        r@ == lower_text(s@),
        s@.len() == 0 ==> r@.len() == 0,
        all_ascii(s@) ==> r@ == ascii_lowered(s@),
{
    s.to_lowercase()
}

/// Tells whether a character is a letter (`char::is_alphabetic`). Among the
/// ASCII characters, the letters are `A` to `Z` and `a` to `z`.
#[verifier::external_body]
pub(crate) fn is_alphabetic(c: char) -> (r: bool)
    ensures
        r == alphabetic(c),
        (c as u32) < 0x80 ==> r == ascii_letter(c),
{
    c.is_alphabetic()
}

/// Tells whether a character is a letter or a number
/// (`char::is_alphanumeric`). Among the ASCII characters, these are the
/// letters and the digits `0` to `9`.
#[verifier::external_body]
pub(crate) fn is_alphanumeric(c: char) -> (r: bool)
    ensures
        r == alphanumeric(c),
        (c as u32) < 0x80 ==> r == ascii_alphanumeric(c),
{
    c.is_alphanumeric()
}

/// Tells whether a character is a control character.
pub fn is_control(c: char) -> (r: bool)
    ensures
        r == control(c),
{
    let u = c as u32;
    u <= 0x1F || (0x7F <= u && u <= 0x9F)
}

/// Tells whether a character has the Unicode property `White_Space`, as
/// `char::is_whitespace` does.
pub fn is_whitespace(c: char) -> (r: bool)
    ensures
        r == white_space(c),
{
    let u = c as u32;
    (0x09 <= u && u <= 0x0D) || u == 0x20 || u == 0x85 || u == 0xA0 || u == 0x1680 || (0x2000
        <= u && u <= 0x200A) || u == 0x2028 || u == 0x2029 || u == 0x202F || u == 0x205F || u
        == 0x3000
}

/// Tells whether a character is an ASCII digit.
pub fn is_ascii_digit(c: char) -> (r: bool)
    ensures
        r == ascii_digit(c),
{
    '0' <= c && c <= '9'
}

/// Tells whether a character is an ASCII letter or an ASCII digit.
pub fn is_ascii_alphanumeric(c: char) -> (r: bool)
    ensures
        r == ascii_alphanumeric(c),
{
    ('a' <= c && c <= 'z') || ('A' <= c && c <= 'Z') || ('0' <= c && c <= '9')
}

/// Gives the number of bytes of the UTF-8 form of a character.
pub fn char_bytes(c: char) -> (r: usize)
    ensures
        r == utf8_len(c),
{
    let u = c as u32;
    if u < 0x80 {
        1
    } else if u < 0x800 {
        2
    } else if u < 0x10000 {
        3
    } else {
        4
    }
}

/// The decimal digits of a number, as `u64::to_string` writes them.
pub open spec fn decimal(n: nat) -> Seq<char>
    decreases n,
{
    if n < 10 {
        seq![(n + 0x30) as char]
    } else {
        decimal(n / 10).push(((n % 10) + 0x30) as char)
    }
}

/// Gives the decimal digits of a number.
pub fn decimal_text(n: u64) -> (r: String)
    ensures
        r@ == decimal(n as nat),
{
    let mut digits: Vec<char> = Vec::new();
    let mut m: u64 = n;
    // The digits come from the last one to the first one.
    while m >= 10
        invariant
            decimal(n as nat) == decimal(m as nat) + digits@.reverse(),
        decreases m,
    {
        let d = char_from_code((m % 10) as u32 + 0x30);
        proof {
            assert(decimal(m as nat) == decimal((m / 10) as nat).push(((m % 10) + 0x30) as char));
            assert(digits@.push(d).reverse() =~= seq![d] + digits@.reverse());
            assert(decimal(m as nat) + digits@.reverse() =~= decimal((m / 10) as nat) + digits@.push(
                d,
            ).reverse());
        }
        digits.push(d);
        m = m / 10;
    }
    let d = char_from_code(m as u32 + 0x30);
    proof {
        assert(digits@.push(d).reverse() =~= seq![d] + digits@.reverse());
        assert(decimal(m as nat) =~= seq![d]);
    }
    digits.push(d);
    let mut out = String::new();
    let mut i: usize = digits.len();
    assert(digits@.reverse().take(0) =~= Seq::<char>::empty());
    while i > 0
        invariant
            i <= digits@.len(),
            decimal(n as nat) == digits@.reverse(),
            out@ == digits@.reverse().take(digits@.len() - i),
        decreases i,
    {
        i -= 1;
        push_char(&mut out, digits[i]);
        assert(digits@.reverse().take(digits@.len() - i) =~= digits@.reverse().take(
            digits@.len() - i - 1,
        ).push(digits@[i as int]));
    }
    assert(digits@.reverse().take(digits@.len() as int) =~= digits@.reverse());
    out
}

/// Gives `true` when a text holds another one, as `str::contains` says.
pub open spec fn holds_text(hay: Seq<char>, needle: Seq<char>) -> bool {
    exists|i: int| 0 <= i && i + needle.len() <= hay.len() && #[trigger] hay.subrange(i, i + needle.len()) == needle
}

/// Gives `true` when the characters from the position `i` on start with the
/// characters of `needle`.
fn chars_at(hay: &Vec<char>, needle: &Vec<char>, i: usize) -> (r: bool)
    requires
        i + needle@.len() <= hay@.len(),
    ensures
        r == (hay@.subrange(i as int, i + needle@.len()) == needle@),
{
    let hl = hay.len();
    let mut j: usize = 0;
    while j < needle.len()
        invariant
            i + needle@.len() <= hay@.len() == hl,
            j <= needle@.len(),
            forall|k: int| 0 <= k < j ==> hay@[i + k] == needle@[k],
        decreases needle@.len() - j,
    {
        if hay[i + j] != needle[j] {
            assert(hay@.subrange(i as int, i + needle@.len())[j as int] != needle@[j as int]);
            return false;
        }
        j += 1;
    }
    assert(hay@.subrange(i as int, i + needle@.len()) =~= needle@);
    true
}

/// Gives `true` when the characters of a text hold those of another text.
pub fn contains_chars(hay: &Vec<char>, needle: &Vec<char>) -> (r: bool)
    ensures
        r == holds_text(hay@, needle@),
{
    if needle.len() > hay.len() {
        return false;
    }
    let hl = hay.len();
    let nl = needle.len();
    if nl == 0 {
        assert(hay@.subrange(0, 0 + needle@.len() as int) =~= needle@);
        return true;
    }
    let mut i: usize = 0;
    while i <= hl - nl
        invariant
            1 <= nl == needle@.len() <= hay@.len() == hl,
            i <= hay@.len() - needle@.len() + 1,
            forall|k: int| 0 <= k < i ==> #[trigger] hay@.subrange(k, k + needle@.len()) != needle@,
        decreases hay@.len() - i,
    {
        if chars_at(hay, needle, i) {
            return true;
        }
        i += 1;
    }
    false
}

/// Gives the characters of a text, each ASCII capital letter made small.
pub fn ascii_lower_chars(s: &str) -> (r: Vec<char>)
    ensures
        r@ == ascii_lowered(s@),
{
    let cs = chars_of(s);
    let mut out: Vec<char> = Vec::new();
    let mut i: usize = 0;
    while i < cs.len()
        invariant
            i <= cs@.len(),
            cs@ == s@,
            out@ == ascii_lowered(cs@.take(i as int)),
        decreases cs@.len() - i,
    {
        let c = cs[i];
        let l = if 'A' <= c && c <= 'Z' {
            char_from_code((c as u32) + 0x20)
        } else {
            c
        };
        out.push(l);
        i += 1;
        assert(ascii_lowered(cs@.take(i as int)) =~= ascii_lowered(cs@.take(i - 1)).push(
            ascii_lower(c),
        ));
    }
    assert(cs@.take(i as int) =~= cs@);
    out
}

} // verus!

verus! {

/// The value of a run of ASCII digits, read in base ten.
pub open spec fn digits_value(s: Seq<char>) -> nat
    decreases s.len(),
{
    if s.len() == 0 {
        0
    } else {
        digits_value(s.drop_last()) * 10 + ((s.last() as u32) - ('0' as u32)) as nat
    }
}

/// Gives `true` for one ASCII digit or more, and nothing else.
pub open spec fn all_digits(s: Seq<char>) -> bool {
    s.len() >= 1 && forall|i: int| 0 <= i < s.len() ==> ascii_digit(#[trigger] s[i])
}

/// The digits of a number without the sign `+` in front of them.
pub open spec fn unsigned_digits(s: Seq<char>) -> Seq<char> {
    if s.len() > 0 && s[0] == '+' {
        s.drop_first()
    } else {
        s
    }
}

/// The number that `str::parse` reads from a text for an unsigned type whose
/// largest value is `max`: an optional sign `+`, then one ASCII digit or
/// more, with a value no larger than `max`; `None` for each other text.
pub open spec fn unsigned_read(s: Seq<char>, max: nat) -> Option<nat> {
    let d = unsigned_digits(s);
    if all_digits(d) && digits_value(d) <= max {
        Some(digits_value(d))
    } else {
        None
    }
}

/// The number that `str::parse` reads from a text for a signed type from
/// `-(max + 1)` to `max`: as for an unsigned type, and also a sign `-` in
/// front of the digits.
pub open spec fn signed_read(s: Seq<char>, max: nat) -> Option<int> {
    if s.len() > 0 && s[0] == '-' {
        let d = s.drop_first();
        if all_digits(d) && digits_value(d) <= max + 1 {
            Some(-(digits_value(d) as int))
        } else {
            None
        }
    } else {
        match unsigned_read(s, max) {
            Some(v) => Some(v as int),
            None => None,
        }
    }
}

/// A longer run of digits is worth no less than its start.
pub proof fn lemma_digits_grow(s: Seq<char>, k: int)
    requires
        0 <= k <= s.len(),
    ensures
        digits_value(s.take(k)) <= digits_value(s),
    decreases s.len() - k,
{
    if k < s.len() {
        lemma_digits_grow(s, k + 1);
        assert(s.take(k + 1).drop_last() =~= s.take(k));
    } else {
        assert(s.take(k) =~= s);
    }
}

/// Reads the digits of `cs` from the position `from`, as long as their
/// value stays no larger than `max`: the value, or `None` when a character
/// is no digit, when there is no digit, or when the value passes `max`.
fn digits_from(cs: &Vec<char>, from: usize, max: u64) -> (r: Option<u64>)
    requires
        from <= cs@.len(),
    ensures
        ({
            let d = cs@.skip(from as int);
            r == if all_digits(d) && digits_value(d) <= max { Some(digits_value(d) as u64) } else { None::<u64> }
        }),
{
    let ghost d = cs@.skip(from as int);
    if from >= cs.len() {
        return None;
    }
    let mut v: u64 = 0;
    let mut i: usize = from;
    while i < cs.len()
        invariant
            from <= i <= cs@.len(),
            d == cs@.skip(from as int),
            forall|k: int| 0 <= k < i - from ==> ascii_digit(#[trigger] d[k]),
            v == digits_value(d.take(i - from)),
            v <= max,
        decreases cs@.len() - i,
    {
        let c = cs[i];
        proof {
            assert(d[i - from] == c);
            assert(d.take(i - from + 1).drop_last() =~= d.take(i - from));
        }
        if c < '0' || c > '9' {
            return None;
        }
        let dig = (c as u32 - '0' as u32) as u64;
        if dig > max || v > (max - dig) / 10 {
            proof {
                assert(v * 10 + dig > max) by (nonlinear_arith)
                    requires
                        dig > max || v > (max - dig) / 10,
                        dig <= 9,
                ;
                lemma_digits_grow(d, i - from + 1);
            }
            return None;
        }
        proof {
            assert(v * 10 + dig <= max) by (nonlinear_arith)
                requires
                    v <= (max - dig) / 10,
                    dig <= max,
            ;
        }
        v = v * 10 + dig;
        i += 1;
    }
    proof {
        assert(d.take(i - from) =~= d);
    }
    Some(v)
}

/// Reads an unsigned number from a text, as `str::parse` reads it for a type
/// whose largest value is `max`: refer to [`unsigned_read`].
pub fn read_unsigned(s: &str, max: u64) -> (r: Option<u64>)
    ensures
        r == match unsigned_read(s@, max as nat) {
            Some(v) => Some(v as u64),
            None => None::<u64>,
        },
{
    let cs = chars_of(s);
    let from: usize = if cs.len() > 0 && cs[0] == '+' { 1 } else { 0 };
    proof {
        assert(cs@.skip(from as int) =~= unsigned_digits(s@));
    }
    digits_from(&cs, from, max)
}

/// Reads a signed number from a text, as `str::parse` reads it for a type
/// from `-(max + 1)` to `max`: refer to [`signed_read`].
pub fn read_signed(s: &str, max: u64) -> (r: Option<i128>)
    requires
        max < u64::MAX,
    ensures
        r == match signed_read(s@, max as nat) {
            Some(v) => Some(v as i128),
            None => None::<i128>,
        },
{
    let cs = chars_of(s);
    if cs.len() > 0 && cs[0] == '-' {
        proof {
            assert(cs@.skip(1) =~= s@.drop_first());
        }
        match digits_from(&cs, 1, max + 1) {
            Some(v) => Some(-(v as i128)),
            None => None,
        }
    } else {
        let from: usize = if cs.len() > 0 && cs[0] == '+' { 1 } else { 0 };
        proof {
            assert(cs@.skip(from as int) =~= unsigned_digits(s@));
        }
        match digits_from(&cs, from, max) {
            Some(v) => Some(v as i128),
            None => None,
        }
    }
}

} // verus!
