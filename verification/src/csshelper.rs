//! A parser for the CSS `font` shorthand, as far as the canvas protocol
//! consumes it: an optional style/variant keyword pair, a size in `px`
//! or `em`, and a family given as a quoted string, an identifier, or a
//! generic family keyword.
//!
//! The input is scanned into CSS-like tokens (numbers with optional
//! units, quoted strings, identifiers, single delimiters); tokens the
//! grammar does not use are skipped. Sizes are read in thousandths and
//! rounded to whole pixels; identifiers are lowered to ASCII lowercase.

use vstd::prelude::*;
use vstd::string::StrSliceExecFns;
use vstd::string::StringExecFns;

use crate::paintstate::{Font, FontStyle, FontVariant};
use crate::strutil::{push_char, str_eq};

verus! {

/// Upper clamp for the integer part of a parsed number.
pub const DIGITS_CAP: i64 = 100_000_000;

/// The platform default sans-serif family.
pub fn sans_serif_font_family() -> (r: &'static str)
    ensures
        r@ == "DejaVu Sans"@,
{
    "DejaVu Sans"
}

/// The platform default serif family.
pub fn serif_font_family() -> (r: &'static str)
    ensures
        r@ == "Times New Roman"@,
{
    "Times New Roman"
}

/// The platform default cursive family.
pub fn cursive_font_family() -> (r: &'static str)
    ensures
        r@ == "Apple Chancery"@,
{
    "Apple Chancery"
}

/// The platform default fantasy family.
pub fn fantasy_font_family() -> (r: &'static str)
    ensures
        r@ == "Papyrus"@,
{
    "Papyrus"
}

/// The platform default monospace family.
pub fn monospace_font_family() -> (r: &'static str)
    ensures
        r@ == "Menlo"@,
{
    "Menlo"
}

pub open spec fn is_space(c: char) -> bool {
    c == ' ' || c == '\t' || c == '\n' || c == '\r' || c == '\u{c}'
}

pub open spec fn is_digit(c: char) -> bool {
    '0' <= c && c <= '9'
}

pub open spec fn is_ident_start(c: char) -> bool {
    ('a' <= c && c <= 'z') || ('A' <= c && c <= 'Z') || c == '_' || c > '\u{7f}'
}

pub open spec fn is_ident_char(c: char) -> bool {
    is_ident_start(c) || is_digit(c) || c == '-'
}

pub open spec fn is_quote(c: char) -> bool {
    c == '"' || c == '\''
}

/// ASCII lowercase of one character.
pub open spec fn lower_char(c: char) -> char {
    match c {
        'A' => 'a',
        'B' => 'b',
        'C' => 'c',
        'D' => 'd',
        'E' => 'e',
        'F' => 'f',
        'G' => 'g',
        'H' => 'h',
        'I' => 'i',
        'J' => 'j',
        'K' => 'k',
        'L' => 'l',
        'M' => 'm',
        'N' => 'n',
        'O' => 'o',
        'P' => 'p',
        'Q' => 'q',
        'R' => 'r',
        'S' => 's',
        'T' => 't',
        'U' => 'u',
        'V' => 'v',
        'W' => 'w',
        'X' => 'x',
        'Y' => 'y',
        'Z' => 'z',
        _ => c,
    }
}

pub fn to_lower_char(c: char) -> (r: char)
    ensures
        r == lower_char(c),
{
    match c {
        'A' => 'a',
        'B' => 'b',
        'C' => 'c',
        'D' => 'd',
        'E' => 'e',
        'F' => 'f',
        'G' => 'g',
        'H' => 'h',
        'I' => 'i',
        'J' => 'j',
        'K' => 'k',
        'L' => 'l',
        'M' => 'm',
        'N' => 'n',
        'O' => 'o',
        'P' => 'p',
        'Q' => 'q',
        'R' => 'r',
        'S' => 's',
        'T' => 't',
        'U' => 'u',
        'V' => 'v',
        'W' => 'w',
        'X' => 'x',
        'Y' => 'y',
        'Z' => 'z',
        _ => c,
    }
}

/// ASCII lowercase of a character sequence.
pub open spec fn lower_seq(s: Seq<char>) -> Seq<char> {
    s.map(|_k: int, c: char| lower_char(c))
}

/// End of the run of decimal digits starting at `i`.
pub open spec fn digits_end(s: Seq<char>, i: int) -> int
    decreases s.len() - i when i <= s.len()
{
    if 0 <= i < s.len() && is_digit(s[i]) {
        digits_end(s, i + 1)
    } else {
        i
    }
}

/// End of the run of identifier characters starting at `i`.
pub open spec fn ident_end(s: Seq<char>, i: int) -> int
    decreases s.len() - i when i <= s.len()
{
    if 0 <= i < s.len() && is_ident_char(s[i]) {
        ident_end(s, i + 1)
    } else {
        i
    }
}

/// Position of the closing quote `q` at or after `i` (the input length
/// when the string is unterminated).
pub open spec fn quote_end(s: Seq<char>, i: int, q: char) -> int
    decreases s.len() - i when i <= s.len()
{
    if 0 <= i < s.len() {
        if s[i] == q {
            i
        } else {
            quote_end(s, i + 1, q)
        }
    } else {
        s.len() as int
    }
}

/// One clamped step of reading a decimal number left to right.
pub open spec fn digit_step(acc: int, c: char) -> int {
    if acc >= DIGITS_CAP {
        acc
    } else {
        acc * 10 + (c as int - '0' as int)
    }
}

/// Clamped value of the digits `s[i .. j)`.
pub open spec fn digits_val(s: Seq<char>, i: int, j: int, acc: int) -> int
    decreases j - i when i <= j
{
    if 0 <= i < j <= s.len() {
        digits_val(s, i + 1, j, digit_step(acc, s[i]))
    } else {
        acc
    }
}

/// Thousandths carried by up to three fraction digits `s[i .. j)`.
pub open spec fn frac_milli(s: Seq<char>, i: int, j: int) -> int {
    (if 0 <= i < j <= s.len() {
        100 * (s[i] as int - '0' as int)
    } else {
        0
    }) + (if 0 <= i && i + 1 < j <= s.len() {
        10 * (s[i + 1] as int - '0' as int)
    } else {
        0
    }) + (if 0 <= i && i + 2 < j <= s.len() {
        (s[i + 2] as int - '0' as int)
    } else {
        0
    })
}

/// Whether a number token starts at `i`.
pub open spec fn number_start(s: Seq<char>, i: int) -> bool {
    is_digit(s[i]) || ((s[i] == '+' || s[i] == '-') && i + 1 < s.len() && (is_digit(s[i + 1]) || (
    s[i + 1] == '.' && i + 2 < s.len() && is_digit(s[i + 2])))) || (s[i] == '.' && i + 1 < s.len()
        && is_digit(s[i + 1]))
}

/// Whether an identifier token starts at `i`.
pub open spec fn ident_start_at(s: Seq<char>, i: int) -> bool {
    is_ident_start(s[i]) || (s[i] == '-' && i + 1 < s.len() && is_ident_start(s[i + 1]))
}

/// Start of a number's digits (past an explicit sign).
pub open spec fn num_p(s: Seq<char>, i: int) -> int {
    if s[i] == '+' || s[i] == '-' {
        i + 1
    } else {
        i
    }
}

/// End of a number's integer digits.
pub open spec fn num_p1(s: Seq<char>, i: int) -> int {
    digits_end(s, num_p(s, i))
}

/// Whether the number carries a fraction part.
pub open spec fn num_has_frac(s: Seq<char>, i: int) -> bool {
    let p1 = num_p1(s, i);
    p1 < s.len() && s[p1] == '.' && p1 + 1 < s.len() && is_digit(s[p1 + 1])
}

/// End of the number's digits, fraction included.
pub open spec fn num_p2(s: Seq<char>, i: int) -> int {
    if num_has_frac(s, i) {
        digits_end(s, num_p1(s, i) + 1)
    } else {
        num_p1(s, i)
    }
}

/// The number's value in signed thousandths.
pub open spec fn num_milli(s: Seq<char>, i: int) -> int {
    let p = num_p(s, i);
    let p1 = num_p1(s, i);
    let mag = digits_val(s, p, p1, 0) * 1000 + (if num_has_frac(s, i) {
        frac_milli(s, p1 + 1, num_p2(s, i))
    } else {
        0
    });
    if s[i] == '-' {
        -mag
    } else {
        mag
    }
}

/// Whether a unit identifier follows the number's digits.
pub open spec fn num_has_unit(s: Seq<char>, i: int) -> bool {
    num_p2(s, i) < s.len() && is_ident_start(s[num_p2(s, i)])
}

/// End of the number token, unit included.
pub open spec fn num_end(s: Seq<char>, i: int) -> int {
    if num_has_unit(s, i) {
        ident_end(s, num_p2(s, i))
    } else {
        num_p2(s, i)
    }
}

/// End of the token starting at the non-space position `i`.
pub open spec fn token_end(s: Seq<char>, i: int) -> int {
    if is_quote(s[i]) {
        let qe = quote_end(s, i + 1, s[i]);
        if qe < s.len() {
            qe + 1
        } else {
            s.len() as int
        }
    } else if number_start(s, i) {
        num_end(s, i)
    } else if ident_start_at(s, i) {
        ident_end(s, i)
    } else {
        i + 1
    }
}

/// The running parse state: the defaults plus everything the tokens
/// seen so far have established.
pub ghost struct FontAcc {
    pub size: int,
    pub family: Seq<char>,
    pub style: FontStyle,
    pub variant: FontVariant,
    pub font: Option<Seq<char>>,
    pub index: int,
}

/// The parse state before any token.
pub open spec fn init_acc() -> FontAcc {
    FontAcc {
        size: 10,
        family: "san-serif"@,
        style: FontStyle::Normal,
        variant: FontVariant::Normal,
        font: None,
        index: 0,
    }
}

/// A signed value in thousandths rounded to the nearest whole unit
/// (half away from zero).
pub open spec fn round_px(m: int) -> int {
    if m >= 0 {
        (m + 500) / 1000
    } else {
        -((-m + 500) / 1000)
    }
}

/// The parse state after consuming the token that starts at `i`.
pub open spec fn apply_at(s: Seq<char>, i: int, acc: FontAcc) -> FontAcc {
    let next = FontAcc { index: acc.index + 1, ..acc };
    if is_quote(s[i]) {
        let qe = quote_end(s, i + 1, s[i]);
        FontAcc { family: s.subrange(i + 1, qe), ..next }
    } else if number_start(s, i) {
        if num_has_unit(s, i) {
            let unit = lower_seq(s.subrange(num_p2(s, i), num_end(s, i)));
            if unit == "px"@ {
                FontAcc { size: round_px(num_milli(s, i)), ..next }
            } else if unit == "em"@ {
                FontAcc { size: round_px(num_milli(s, i) * 16), ..next }
            } else {
                next
            }
        } else {
            next
        }
    } else if ident_start_at(s, i) {
        let val = lower_seq(s.subrange(i, ident_end(s, i)));
        if acc.index == 0 || acc.index == 1 {
            let with_variant = if val == "small-caps"@ {
                FontAcc { variant: FontVariant::SmallCaps, ..next }
            } else {
                next
            };
            if acc.index == 0 {
                if val == "italic"@ {
                    FontAcc { style: FontStyle::Italic, ..with_variant }
                } else if val == "oblique"@ {
                    FontAcc { style: FontStyle::Oblique, ..with_variant }
                } else {
                    with_variant
                }
            } else {
                with_variant
            }
        } else {
            FontAcc { font: Some(val), ..next }
        }
    } else {
        next
    }
}

/// Folds the tokens of `s[i ..]` into the parse state.
pub open spec fn parse_from(s: Seq<char>, i: int, acc: FontAcc) -> FontAcc
    decreases s.len() - i when 0 <= i <= s.len() via parse_from_dec
{
    if i >= s.len() {
        acc
    } else if is_space(s[i]) {
        parse_from(s, i + 1, acc)
    } else {
        parse_from(s, token_end(s, i), apply_at(s, i, acc))
    }
}

#[via_fn]
proof fn parse_from_dec(s: Seq<char>, i: int, acc: FontAcc) {
    if 0 <= i < s.len() && !is_space(s[i]) {
        lemma_token_end(s, i);
    }
}

/// The generic family keywords map to fixed platform families; any
/// other name stands for itself.
pub open spec fn map_generic_family(f: Seq<char>) -> Seq<char> {
    if f == "serif"@ {
        "Times New Roman"@
    } else if f == "sans-serif"@ {
        "DejaVu Sans"@
    } else if f == "cursive"@ {
        "Apple Chancery"@
    } else if f == "fantasy"@ {
        "Papyrus"@
    } else if f == "monospace"@ {
        "Menlo"@
    } else {
        f
    }
}

/// The font a finished parse state denotes: a trailing identifier
/// family wins over a quoted family, and generic keywords are mapped.
pub open spec fn finalize_acc(acc: FontAcc) -> crate::paintstate::FontView {
    let family0 = if acc.font is Some {
        acc.font.unwrap()
    } else {
        acc.family
    };
    crate::paintstate::FontView {
        font_size: acc.size,
        font_style: acc.style,
        font_family: map_generic_family(family0),
        font_variant: acc.variant,
    }
}

/// The font denoted by a CSS `font` shorthand.
pub open spec fn spec_parse_font(s: Seq<char>) -> crate::paintstate::FontView {
    finalize_acc(parse_from(s, 0, init_acc()))
}

proof fn lemma_digits_end(s: Seq<char>, i: int)
    requires
        0 <= i <= s.len(),
    ensures
        i <= digits_end(s, i) <= s.len(),
    decreases s.len() - i,
{
    if i < s.len() && is_digit(s[i]) {
        lemma_digits_end(s, i + 1);
    }
}

proof fn lemma_ident_end(s: Seq<char>, i: int)
    requires
        0 <= i <= s.len(),
    ensures
        i <= ident_end(s, i) <= s.len(),
    decreases s.len() - i,
{
    if i < s.len() && is_ident_char(s[i]) {
        lemma_ident_end(s, i + 1);
    }
}

proof fn lemma_quote_end(s: Seq<char>, i: int, q: char)
    requires
        0 <= i <= s.len(),
    ensures
        i <= quote_end(s, i, q) <= s.len(),
    decreases s.len() - i,
{
    if i < s.len() && s[i] != q {
        lemma_quote_end(s, i + 1, q);
    }
}

fn c_is_space(c: char) -> (r: bool)
    ensures
        r == is_space(c),
{
    c == ' ' || c == '\t' || c == '\n' || c == '\r' || c == '\u{c}'
}

fn c_is_digit(c: char) -> (r: bool)
    ensures
        r == is_digit(c),
{
    '0' <= c && c <= '9'
}

fn c_is_ident_start(c: char) -> (r: bool)
    ensures
        r == is_ident_start(c),
{
    ('a' <= c && c <= 'z') || ('A' <= c && c <= 'Z') || c == '_' || c > '\u{7f}'
}

fn c_is_ident_char(c: char) -> (r: bool)
    ensures
        r == is_ident_char(c),
{
    c_is_ident_start(c) || c_is_digit(c) || c == '-'
}

fn c_is_quote(c: char) -> (r: bool)
    ensures
        r == is_quote(c),
{
    c == '"' || c == '\''
}

fn scan_digits_end(s: &str, from: usize) -> (r: usize)
    requires
        from <= s@.len(),
    ensures
        r == digits_end(s@, from as int),
        from <= r <= s@.len(),
{
    let n = s.unicode_len();
    let mut j = from;
    while j < n && c_is_digit(s.get_char(j))
        invariant
            n == s@.len(),
            from <= j <= n,
            digits_end(s@, from as int) == digits_end(s@, j as int),
        decreases n - j,
    {
        j += 1;
    }
    j
}

fn scan_ident_end(s: &str, from: usize) -> (r: usize)
    requires
        from <= s@.len(),
    ensures
        r == ident_end(s@, from as int),
        from <= r <= s@.len(),
{
    let n = s.unicode_len();
    let mut j = from;
    while j < n && c_is_ident_char(s.get_char(j))
        invariant
            n == s@.len(),
            from <= j <= n,
            ident_end(s@, from as int) == ident_end(s@, j as int),
        decreases n - j,
    {
        j += 1;
    }
    j
}

fn scan_quote_end(s: &str, from: usize, q: char) -> (r: usize)
    requires
        from <= s@.len(),
    ensures
        r == quote_end(s@, from as int, q),
        from <= r <= s@.len(),
{
    let n = s.unicode_len();
    let mut j = from;
    while j < n && s.get_char(j) != q
        invariant
            n == s@.len(),
            from <= j <= n,
            quote_end(s@, from as int, q) == quote_end(s@, j as int, q),
        decreases n - j,
    {
        j += 1;
    }
    j
}

fn read_digits_val(s: &str, from: usize, to: usize) -> (r: i64)
    requires
        from <= to <= s@.len(),
        forall|k: int| from <= k < to ==> is_digit(s@[k]),
    ensures
        r == digits_val(s@, from as int, to as int, 0),
        0 <= r <= 10 * DIGITS_CAP + 9,
{
    let ghost sv = s@;
    let mut acc: i64 = 0;
    let mut j = from;
    while j < to
        invariant
            from <= j <= to <= sv.len(),
            sv == s@,
            forall|k: int| from <= k < to ==> is_digit(sv[k]),
            0 <= acc <= 10 * DIGITS_CAP + 9,
            digits_val(sv, from as int, to as int, 0) == digits_val(
                sv,
                j as int,
                to as int,
                acc as int,
            ),
        decreases to - j,
    {
        let c = s.get_char(j);
        if acc < DIGITS_CAP {
            acc = acc * 10 + (c as i64 - '0' as i64);
        }
        j += 1;
    }
    acc
}

/// Builds the ASCII-lowered copy of `s[a .. b)`.
fn lower_substring(s: &str, a: usize, b: usize) -> (r: String)
    requires
        a <= b <= s@.len(),
    ensures
        r@ == lower_seq(s@.subrange(a as int, b as int)),
{
    let mut out = String::new();
    let mut k = a;
    assert(out@ =~= lower_seq(s@.subrange(a as int, a as int)));
    while k < b
        invariant
            a <= k <= b <= s@.len(),
            out@ == lower_seq(s@.subrange(a as int, k as int)),
        decreases b - k,
    {
        let c = to_lower_char(s.get_char(k));
        push_char(&mut out, c);
        proof {
            assert(s@.subrange(a as int, k + 1 as int) =~= s@.subrange(a as int, k as int).push(
                s@[k as int],
            ));
            assert(lower_seq(s@.subrange(a as int, (k + 1) as int)) =~= lower_seq(
                s@.subrange(a as int, k as int),
            ).push(lower_char(s@[k as int])));
        }
        k += 1;
    }
    out
}

/// All characters of a digit run are digits.
proof fn lemma_digits_end_digits(s: Seq<char>, i: int)
    requires
        0 <= i <= s.len(),
    ensures
        forall|k: int| i <= k < digits_end(s, i) ==> is_digit(s[k]),
    decreases s.len() - i,
{
    if i < s.len() && is_digit(s[i]) {
        lemma_digits_end_digits(s, i + 1);
        lemma_digits_end(s, i + 1);
    }
}

/// The view of an optional owned string.
pub open spec fn opt_string_view(o: Option<String>) -> Option<Seq<char>> {
    match o {
        Some(f) => Some(f@),
        None => None,
    }
}

fn round_px_exec(m: i64) -> (r: i64)
    requires
        -100_000_000_000_000 <= m <= 100_000_000_000_000,
    ensures
        r == round_px(m as int),
{
    if m >= 0 {
        (m + 500) / 1000
    } else {
        -((-m + 500) / 1000)
    }
}

/// Parses a CSS `font` shorthand into a [`Font`], defaults standing in
/// for everything the input does not establish.
#[verifier::rlimit(100)]
pub fn parse_fonts_style(input: &str) -> (f: Font)
    ensures
        f@ == spec_parse_font(input@),
{
    let ghost sv = input@;
    let n = input.unicode_len();
    let mut size: i64 = 10;
    let mut family: String = String::from_str("san-serif");
    let mut style: FontStyle = FontStyle::Normal;
    let mut variant: FontVariant = FontVariant::Normal;
    let mut font_opt: Option<String> = None;
    let mut index: usize = 0;
    let mut i: usize = 0;
    while i < n
        invariant
            n == sv.len(),
            sv == input@,
            i <= n,
            index <= i,
            parse_from(
                sv,
                i as int,
                FontAcc {
                    size: size as int,
                    family: family@,
                    style: style,
                    variant: variant,
                    font: opt_string_view(font_opt),
                    index: index as int,
                },
            ) == parse_from(sv, 0, init_acc()),
        decreases n - i,
    {
        let ghost acc = FontAcc {
            size: size as int,
            family: family@,
            style: style,
            variant: variant,
            font: opt_string_view(font_opt),
            index: index as int,
        };
        let ghost i0 = i as int;
        let c = input.get_char(i);
        if c_is_space(c) {
            i += 1;
        } else {
            proof {
                lemma_token_end(sv, i as int);
            }
            if c_is_quote(c) {
                let qe = scan_quote_end(input, i + 1, c);
                family = input.substring_char(i + 1, qe).to_owned();
                index += 1;
                i = if qe < n {
                    qe + 1
                } else {
                    n
                };
            } else {
                let is_num = c_is_digit(c) || ((c == '+' || c == '-') && i + 1 < n && (c_is_digit(
                    input.get_char(i + 1),
                ) || (input.get_char(i + 1) == '.' && n - i > 2 && c_is_digit(
                    input.get_char(i + 2),
                )))) || (c == '.' && i + 1 < n && c_is_digit(input.get_char(i + 1)));
                assert(is_num == number_start(sv, i as int));
                if is_num {
                    let p = if c == '+' || c == '-' {
                        i + 1
                    } else {
                        i
                    };
                    assert(p as int == num_p(sv, i0));
                    let p1 = scan_digits_end(input, p);
                    assert(p1 as int == num_p1(sv, i0));
                    let has_frac = p1 < n && input.get_char(p1) == '.' && p1 + 1 < n && c_is_digit(
                        input.get_char(p1 + 1),
                    );
                    assert(has_frac == num_has_frac(sv, i0));
                    let p2 = if has_frac {
                        scan_digits_end(input, p1 + 1)
                    } else {
                        p1
                    };
                    assert(p2 as int == num_p2(sv, i0));
                    proof {
                        lemma_digits_end_digits(sv, p as int);
                        if has_frac {
                            lemma_digits_end_digits(sv, p1 as int + 1);
                            assert(digits_end(sv, p1 as int + 1) == digits_end(sv, p1 as int + 2));
                            lemma_digits_end(sv, p1 as int + 2);
                            assert(p2 >= p1 + 2);
                        }
                    }
                    let intval = read_digits_val(input, p, p1);
                    let mut frac: i64 = 0;
                    if has_frac {
                        frac = (input.get_char(p1 + 1) as i64 - '0' as i64) * 100;
                        if p1 + 2 < p2 {
                            frac = frac + (input.get_char(p1 + 2) as i64 - '0' as i64) * 10;
                        }
                        if n - p1 > 3 && p1 + 3 < p2 {
                            frac = frac + (input.get_char(p1 + 3) as i64 - '0' as i64);
                        }
                    }
                    assert(frac == (if num_has_frac(sv, i0) {
                        frac_milli(sv, p1 as int + 1, p2 as int)
                    } else {
                        0
                    }));
                    let mag: i64 = intval * 1000 + frac;
                    let milli: i64 = if c == '-' {
                        -mag
                    } else {
                        mag
                    };
                    assert(milli == num_milli(sv, i as int));
                    let has_unit = p2 < n && c_is_ident_start(input.get_char(p2));
                    if has_unit {
                        let ue = scan_ident_end(input, p2);
                        let unit = lower_substring(input, p2, ue);
                        if str_eq(unit.as_str(), "px") {
                            size = round_px_exec(milli);
                        } else if str_eq(unit.as_str(), "em") {
                            size = round_px_exec(milli * 16);
                        }
                        index += 1;
                        i = ue;
                    } else {
                        index += 1;
                        i = p2;
                    }
                } else {
                    let is_id = c_is_ident_start(c) || (c == '-' && i + 1 < n && c_is_ident_start(
                        input.get_char(i + 1),
                    ));
                    assert(is_id == ident_start_at(sv, i as int));
                    if is_id {
                        let ie = scan_ident_end(input, i);
                        let val = lower_substring(input, i, ie);
                        if index == 0 || index == 1 {
                            if str_eq(val.as_str(), "small-caps") {
                                variant = FontVariant::SmallCaps;
                            }
                            if index == 0 {
                                if str_eq(val.as_str(), "italic") {
                                    style = FontStyle::Italic;
                                } else if str_eq(val.as_str(), "oblique") {
                                    style = FontStyle::Oblique;
                                }
                            }
                        } else {
                            font_opt = Some(val);
                        }
                        index += 1;
                        i = ie;
                    } else {
                        index += 1;
                        i += 1;
                    }
                }
            }
            assert(i as int == token_end(sv, i0));
            assert(FontAcc {
                size: size as int,
                family: family@,
                style: style,
                variant: variant,
                font: opt_string_view(font_opt),
                index: index as int,
            } == apply_at(sv, i0, acc));
        }
    }
    let family1 = match font_opt {
        Some(f) => f,
        None => family,
    };
    let family2 = if str_eq(family1.as_str(), "serif") {
        String::from_str("Times New Roman")
    } else if str_eq(family1.as_str(), "sans-serif") {
        String::from_str("DejaVu Sans")
    } else if str_eq(family1.as_str(), "cursive") {
        String::from_str("Apple Chancery")
    } else if str_eq(family1.as_str(), "fantasy") {
        String::from_str("Papyrus")
    } else if str_eq(family1.as_str(), "monospace") {
        String::from_str("Menlo")
    } else {
        family1
    };
    Font { font_size: size, font_style: style, font_family: family2, font_variant: variant }
}

/// Every token is at least one character wide and ends inside the
/// input.
proof fn lemma_token_end(s: Seq<char>, i: int)
    requires
        0 <= i < s.len(),
    ensures
        i < token_end(s, i) <= s.len(),
{
    if is_quote(s[i]) {
        lemma_quote_end(s, i + 1, s[i]);
    } else if number_start(s, i) {
        let p = num_p(s, i);
        lemma_digits_end(s, p);
        let p1 = num_p1(s, i);
        if num_has_frac(s, i) {
            lemma_digits_end(s, p1 + 1);
        }
        let p2 = num_p2(s, i);
        if num_has_unit(s, i) {
            lemma_ident_end(s, p2);
        }
        if is_digit(s[i]) {
            assert(digits_end(s, i) == digits_end(s, i + 1));
            lemma_digits_end(s, i + 1);
        } else if s[i] == '.' {
            assert(p1 == i);
            assert(num_has_frac(s, i));
        }
    } else if ident_start_at(s, i) {
        assert(is_ident_char(s[i]));
        assert(ident_end(s, i) == ident_end(s, i + 1));
        lemma_ident_end(s, i + 1);
    }
}

} // verus!
