use vstd::prelude::*;
use vstd::string::*;
use vstd::utf8::*;

verus! {

/// A terminal colour of the theme: a named one, `Reset` (the terminal's
/// own), an entry of the 256-colour palette, or a true colour.
#[derive(Clone, Copy, Debug, PartialEq, Eq, Structural)]
pub enum Color {
    Reset,
    Black,
    Red,
    Green,
    Yellow,
    Blue,
    Magenta,
    Cyan,
    Gray,
    DarkGray,
    LightRed,
    LightGreen,
    LightYellow,
    LightBlue,
    LightMagenta,
    LightCyan,
    White,
    Rgb(u8, u8, u8),
    Indexed(u8),
}

/// What `str::to_lowercase` gives for a text: each character replaced by
/// its Unicode lowercase mapping.
pub uninterp spec fn lowercase(s: Seq<char>) -> Seq<char>;

/// An ASCII capital taken to its small letter; any other character kept.
pub open spec fn ascii_lower_char(c: char) -> char {
    if 'A' <= c <= 'Z' {
        ((c as u32) + 32) as char
    } else {
        c
    }
}

/// A text with its ASCII capitals taken to small letters.
pub open spec fn ascii_lower(s: Seq<char>) -> Seq<char> {
    s.map_values(|c: char| ascii_lower_char(c))
}

/// Calls `str::to_lowercase`. Its result is named by `lowercase`. Of an
/// ASCII text, whose characters' lowercase mappings are those of ASCII, it
/// is stated that `A` to `Z` become `a` to `z` and every other character
/// stays; of other text nothing more is stated.
#[verifier::external_body]
fn to_lowercase(s: &str) -> (r: String)
    ensures
        r@ == lowercase(s@),
        is_ascii_chars(s@) ==> r@ == ascii_lower(s@),
{
    s.to_lowercase()
}

/// The colour that a (lowercased) colour name stands for.
pub open spec fn named_color(name: Seq<char>) -> Option<Color> {
    if name == "reset"@ || name == ""@ {
        Some(Color::Reset)
    } else if name == "red"@ {
        Some(Color::Red)
    } else if name == "green"@ {
        Some(Color::Green)
    } else if name == "black"@ {
        Some(Color::Black)
    } else if name == "yellow"@ {
        Some(Color::Yellow)
    } else if name == "blue"@ {
        Some(Color::Blue)
    } else if name == "magenta"@ {
        Some(Color::Magenta)
    } else if name == "cyan"@ {
        Some(Color::Cyan)
    } else if name == "gray"@ {
        Some(Color::Gray)
    } else if name == "white"@ {
        Some(Color::White)
    } else if name == "darkgray"@ {
        Some(Color::DarkGray)
    } else if name == "lightblue"@ {
        Some(Color::LightBlue)
    } else if name == "lightcyan"@ {
        Some(Color::LightCyan)
    } else if name == "lightgreen"@ {
        Some(Color::LightGreen)
    } else if name == "lightmagenta"@ {
        Some(Color::LightMagenta)
    } else if name == "lightred"@ {
        Some(Color::LightRed)
    } else if name == "lightyellow"@ {
        Some(Color::LightYellow)
    } else {
        None
    }
}

/// The value of an ASCII digit in base `radix` (at most 36), letters in
/// either case standing for 10 and up.
pub open spec fn digit_value(c: u8, radix: nat) -> Option<nat> {
    let v: int = if 0x30 <= c <= 0x39 {
        c - 0x30
    } else if 0x61 <= c <= 0x7a {
        c - 0x61 + 10
    } else if 0x41 <= c <= 0x5a {
        c - 0x41 + 10
    } else {
        radix as int
    };
    if v < radix {
        Some(v as nat)
    } else {
        None
    }
}

/// The number that the digits `ds` write in base `radix`, if all are digits.
pub open spec fn digits_value(ds: Seq<u8>, radix: nat) -> Option<nat>
    decreases ds.len(),
{
    if ds.len() == 0 {
        Some(0)
    } else {
        match (digits_value(ds.drop_last(), radix), digit_value(ds.last(), radix)) {
            (Some(v), Some(d)) => Some(v * radix + d),
            _ => None,
        }
    }
}

/// What `u8::from_str_radix` gives for the text with UTF-8 bytes `src`: an
/// optional `+`, then at least one digit, the number at most 255.
pub open spec fn parse_u8_radix(src: Seq<u8>, radix: nat) -> Option<u8> {
    let digits = if src.len() > 0 && src[0] == 0x2b {
        src.drop_first()
    } else {
        src
    };
    if digits.len() == 0 {
        None
    } else {
        match digits_value(digits, radix) {
            Some(v) => if v <= 255 {
                Some(v as u8)
            } else {
                None
            },
            None => None,
        }
    }
}

/// The colour written `#rrggbb` or `#rgb`, given the UTF-8 bytes after `#`.
pub open spec fn hex_color(d: Seq<u8>) -> Color {
    if d.len() == 6 {
        match (
            parse_u8_radix(d.subrange(0, 2), 16),
            parse_u8_radix(d.subrange(2, 4), 16),
            parse_u8_radix(d.subrange(4, 6), 16),
        ) {
            (Some(r), Some(g), Some(b)) => Color::Rgb(r, g, b),
            _ => Color::Reset,
        }
    } else if d.len() == 3 {
        match (
            parse_u8_radix(d.subrange(0, 1), 16),
            parse_u8_radix(d.subrange(1, 2), 16),
            parse_u8_radix(d.subrange(2, 3), 16),
        ) {
            (Some(r), Some(g), Some(b)) => Color::Rgb(
                (r * 17) as u8,
                (g * 17) as u8,
                (b * 17) as u8,
            ),
            _ => Color::Reset,
        }
    } else {
        Color::Rgb(0, 0, 0)
    }
}

/// The bytes write a palette index in decimal: three bytes as `u8::from_str`
/// reads them (an optional `+`, then digits), or one or two digits.
pub open spec fn index_text(b: Seq<u8>) -> bool {
    &&& (b.len() == 3 || (1 <= b.len() <= 2 && b[0] != 0x2b))
    &&& parse_u8_radix(b, 10) is Some
}

/// The colour of a text that names no colour: a palette index up to 255
/// written in decimal (three bytes, with an optional `+`, or one or two
/// digits); four or seven bytes starting with `#` are a hex colour; anything
/// else is `Reset`.
pub open spec fn unnamed_color(s: Seq<char>) -> Color {
    let b = encode_utf8(s);
    if index_text(b) {
        Color::Indexed(parse_u8_radix(b, 10)->0)
    } else if (b.len() == 4 || b.len() == 7) && s[0] == '#' {
        hex_color(encode_utf8(s.drop_first()))
    } else {
        Color::Reset
    }
}

/// The colour of the text `s`, whose lowercase form is `lowered`.
pub open spec fn color_of(lowered: Seq<char>, s: Seq<char>) -> Color {
    match named_color(lowered) {
        Some(c) => c,
        None => unnamed_color(s),
    }
}

/// Equal UTF-8 encodings encode equal texts.
proof fn lemma_encoding_injective(x: Seq<char>, y: Seq<char>)
    ensures
        encode_utf8(x) == encode_utf8(y) ==> x == y,
{
    encode_utf8_decode_utf8(x);
    encode_utf8_decode_utf8(y);
}

/// Whether the text with UTF-8 bytes `a` is `lit`.
fn text_is(a: &[u8], lit: &str) -> (r: bool)
    ensures
        r == (a@ == lit.spec_bytes()),
{
    let b = lit.as_bytes();
    if a.len() != b.len() {
        return false;
    }
    let n = a.len();
    let mut i: usize = 0;
    while i < n
        invariant
            n == a@.len(),
            n == b@.len(),
            b@ == lit.spec_bytes(),
            i <= n,
            forall|k: int| 0 <= k < i ==> a@[k] == b@[k],
        decreases n - i,
    {
        if a[i] != b[i] {
            assert(a@[i as int] != b@[i as int]);
            return false;
        }
        i += 1;
    }
    assert(a@ =~= b@);
    true
}

/// Whether the lowercased text with UTF-8 bytes `lb`, whose characters are
/// `lowered`, is the name `lit`.
fn is_name(lb: &[u8], lit: &str, Ghost(lowered): Ghost<Seq<char>>) -> (r: bool)
    requires
        lb@ == encode_utf8(lowered),
    ensures
        r == (lowered == lit@),
{
    let r = text_is(lb, lit);
    proof {
        lemma_encoding_injective(lowered, lit@);
    }
    r
}

/// The colour named by the lowercased text `lowered`, if it names one.
fn color_by_name(lowered: &str) -> (r: Option<Color>)
    ensures
        r == named_color(lowered@),
{
    let lb = lowered.as_bytes();
    let ghost l = lowered@;
    if is_name(lb, "reset", Ghost(l)) || is_name(lb, "", Ghost(l)) {
        Some(Color::Reset)
    } else if is_name(lb, "red", Ghost(l)) {
        Some(Color::Red)
    } else if is_name(lb, "green", Ghost(l)) {
        Some(Color::Green)
    } else if is_name(lb, "black", Ghost(l)) {
        Some(Color::Black)
    } else if is_name(lb, "yellow", Ghost(l)) {
        Some(Color::Yellow)
    } else if is_name(lb, "blue", Ghost(l)) {
        Some(Color::Blue)
    } else if is_name(lb, "magenta", Ghost(l)) {
        Some(Color::Magenta)
    } else if is_name(lb, "cyan", Ghost(l)) {
        Some(Color::Cyan)
    } else if is_name(lb, "gray", Ghost(l)) {
        Some(Color::Gray)
    } else if is_name(lb, "white", Ghost(l)) {
        Some(Color::White)
    } else if is_name(lb, "darkgray", Ghost(l)) {
        Some(Color::DarkGray)
    } else if is_name(lb, "lightblue", Ghost(l)) {
        Some(Color::LightBlue)
    } else if is_name(lb, "lightcyan", Ghost(l)) {
        Some(Color::LightCyan)
    } else if is_name(lb, "lightgreen", Ghost(l)) {
        Some(Color::LightGreen)
    } else if is_name(lb, "lightmagenta", Ghost(l)) {
        Some(Color::LightMagenta)
    } else if is_name(lb, "lightred", Ghost(l)) {
        Some(Color::LightRed)
    } else if is_name(lb, "lightyellow", Ghost(l)) {
        Some(Color::LightYellow)
    } else {
        None
    }
}

/// The value of the digit `c` in base `radix`.
fn digit(c: u8, radix: u32) -> (r: Option<u32>)
    requires
        2 <= radix <= 36,
    ensures
        r matches Some(d) ==> digit_value(c, radix as nat) == Some(d as nat) && d < radix,
        r is None ==> digit_value(c, radix as nat) is None,
{
    let v: u32 = if 0x30 <= c && c <= 0x39 {
        (c - 0x30) as u32
    } else if 0x61 <= c && c <= 0x7a {
        (c - 0x61 + 10) as u32
    } else if 0x41 <= c && c <= 0x5a {
        (c - 0x41 + 10) as u32
    } else {
        radix
    };
    if v < radix {
        Some(v)
    } else {
        None
    }
}

/// A number written with more digits is at least the number written with
/// the first of them; with a non-digit among the first, there is no number.
proof fn lemma_digits_prefix(ds: Seq<u8>, k: int, radix: nat)
    requires
        0 <= k <= ds.len(),
        radix >= 1,
    ensures
        digits_value(ds, radix) matches Some(w) ==> (digits_value(ds.take(k), radix) matches Some(
            v,
        ) && v <= w),
    decreases ds.len(),
{
    if k == ds.len() {
        assert(ds.take(k) =~= ds);
    } else {
        let front = ds.drop_last();
        lemma_digits_prefix(front, k, radix);
        assert(front.take(k) =~= ds.take(k));
        if let Some(w) = digits_value(ds, radix) {
            let v1 = digits_value(front, radix)->0;
            assert(v1 <= v1 * radix) by (nonlinear_arith)
                requires
                    radix >= 1,
            ;
        }
    }
}

/// Reads the bytes `src[start..end]` as `u8::from_str_radix` reads a text.
fn parse_u8(src: &[u8], start: usize, end: usize, radix: u32) -> (r: Option<u8>)
    requires
        start <= end <= src@.len(),
        2 <= radix <= 36,
    ensures
        r == parse_u8_radix(src@.subrange(start as int, end as int), radix as nat),
{
    let ghost text = src@.subrange(start as int, end as int);
    let mut first = start;
    if start < end && src[start] == 0x2b {
        first = start + 1;
    }
    let ghost digits = src@.subrange(first as int, end as int);
    assert(digits == (if text.len() > 0 && text[0] == 0x2b {
        text.drop_first()
    } else {
        text
    }));
    if first == end {
        return None;
    }
    let mut v: u32 = 0;
    let mut i = first;
    assert(digits.take(0) =~= Seq::<u8>::empty());
    while i < end
        invariant
            first <= i <= end <= src@.len(),
            2 <= radix <= 36,
            digits == src@.subrange(first as int, end as int),
            text == src@.subrange(start as int, end as int),
            digits == (if text.len() > 0 && text[0] == 0x2b {
                text.drop_first()
            } else {
                text
            }),
            digits.len() > 0,
            digits_value(digits.take(i - first), radix as nat) == Some(v as nat),
            v <= 255,
        decreases end - i,
    {
        let ghost k = i - first;
        assert(digits.take(k + 1).drop_last() =~= digits.take(k));
        assert(digits.take(k + 1).last() == src@[i as int]);
        match digit(src[i], radix) {
            None => {
                proof {
                    lemma_digits_prefix(digits, k + 1, radix as nat);
                }
                return None;
            },
            Some(d) => {
                assert(v * radix + d <= 255 * 36 + 36) by (nonlinear_arith)
                    requires
                        v <= 255,
                        radix <= 36,
                        d < radix,
                ;
                v = v * radix + d;
                if v > 255 {
                    proof {
                        lemma_digits_prefix(digits, k + 1, radix as nat);
                    }
                    return None;
                }
                i += 1;
            },
        }
    }
    assert(digits.take(end - first) =~= digits);
    Some(v as u8)
}

/// A single digit in base 16 is below 16.
proof fn lemma_one_hex_digit(d: Seq<u8>)
    requires
        d.len() == 1,
    ensures
        parse_u8_radix(d, 16) matches Some(v) ==> v < 16,
{
    assert(d.drop_last() =~= Seq::<u8>::empty());
    reveal_with_fuel(digits_value, 2);
}

/// The UTF-8 encoding of a text that starts with `#` is the byte `#`
/// followed by the encoding of the rest.
proof fn lemma_encoding_after_hash(s: Seq<char>)
    requires
        s.len() > 0,
        s[0] == '#',
    ensures
        encode_utf8(s) == seq![0x23u8] + encode_utf8(s.drop_first()),
{
    assert((35u32 & 0x7F) as u8 == 35u8) by (bit_vector);
    assert(encode_scalar(s[0] as u32) =~= seq![0x23u8]);
}

/// The colour of a text that names no colour.
fn unnamed(s: &str) -> (r: Color)
    ensures
        r == unnamed_color(s@),
{
    let b = s.as_bytes();
    let n = b.len();
    let ghost bv = encode_utf8(s@);
    assert(b@ == bv);
    if n == 3 || (1 <= n && n <= 2 && b[0] != 0x2b) {
        assert(b@.subrange(0, n as int) =~= b@);
        if let Some(i) = parse_u8(b, 0, n, 10) {
            return Color::Indexed(i);
        }
    }
    if n == 4 || n == 7 {
        proof {
            if s@.len() == 0 {
                assert(encode_utf8(s@) =~= Seq::<u8>::empty());
            }
        }
        if s.get_char(0) != '#' {
            return Color::Reset;
        }
        proof {
            lemma_encoding_after_hash(s@);
        }
        let ghost d = encode_utf8(s@.drop_first());
        assert(d =~= b@.subrange(1, n as int));
        if n == 7 {
            assert(d.subrange(0, 2) =~= b@.subrange(1, 3));
            assert(d.subrange(2, 4) =~= b@.subrange(3, 5));
            assert(d.subrange(4, 6) =~= b@.subrange(5, 7));
            match (parse_u8(b, 1, 3, 16), parse_u8(b, 3, 5, 16), parse_u8(b, 5, 7, 16)) {
                (Some(r), Some(g), Some(bl)) => Color::Rgb(r, g, bl),
                _ => Color::Reset,
            }
        } else {
            assert(d.subrange(0, 1) =~= b@.subrange(1, 2));
            assert(d.subrange(1, 2) =~= b@.subrange(2, 3));
            assert(d.subrange(2, 3) =~= b@.subrange(3, 4));
            proof {
                lemma_one_hex_digit(b@.subrange(1, 2));
                lemma_one_hex_digit(b@.subrange(2, 3));
                lemma_one_hex_digit(b@.subrange(3, 4));
            }
            match (parse_u8(b, 1, 2, 16), parse_u8(b, 2, 3, 16), parse_u8(b, 3, 4, 16)) {
                (Some(r), Some(g), Some(bl)) => Color::Rgb(r * 17, g * 17, bl * 17),
                _ => Color::Reset,
            }
        }
    } else {
        Color::Reset
    }
}

/// The colour of the text `string`, given `lowered`, its lowercase form: a
/// colour name (in any case; empty means `Reset`), a palette index written
/// in decimal (three bytes with an optional `+`, or one or two digits), or
/// `#rgb` / `#rrggbb`; `Reset` for anything else.
pub fn color_from_text(lowered: &str, string: &str) -> (r: Color)
    ensures
        r == color_of(lowered@, string@),
{
    match color_by_name(lowered) {
        Some(c) => c,
        None => unnamed(string),
    }
}

/// Converts a theme colour written in the configuration into a colour: a
/// colour name in any case, a palette index written in decimal, a hex
/// colour `#rrggbb` or `#rgb`. Anything else gives `Color::Reset`.
pub fn string_to_color(string: String) -> (r: Color)
    ensures
        r == color_of(lowercase(string@), string@),
        is_ascii_chars(string@) ==> r == color_of(ascii_lower(string@), string@),
{
    let lowered = to_lowercase(string.as_str());
    color_from_text(lowered.as_str(), string.as_str())
}

/// A short hex colour `#rgb` is the long one `#rrggbb` with every digit
/// written twice.
pub proof fn law_short_hex_doubles_digits(r: u8, g: u8, b: u8)
    requires
        digit_value(r, 16) is Some,
        digit_value(g, 16) is Some,
        digit_value(b, 16) is Some,
    ensures
        hex_color(seq![r, g, b]) == hex_color(seq![r, r, g, g, b, b]),
{
    reveal_with_fuel(digits_value, 3);
    let short = seq![r, g, b];
    let long = seq![r, r, g, g, b, b];
    assert(short.subrange(0, 1) =~= seq![r]);
    assert(short.subrange(1, 2) =~= seq![g]);
    assert(short.subrange(2, 3) =~= seq![b]);
    assert(long.subrange(0, 2) =~= seq![r, r]);
    assert(long.subrange(2, 4) =~= seq![g, g]);
    assert(long.subrange(4, 6) =~= seq![b, b]);
    assert(seq![r, r].drop_last() =~= seq![r]);
    assert(seq![g, g].drop_last() =~= seq![g]);
    assert(seq![b, b].drop_last() =~= seq![b]);
    assert(seq![r].drop_last() =~= Seq::<u8>::empty());
    assert(seq![g].drop_last() =~= Seq::<u8>::empty());
    assert(seq![b].drop_last() =~= Seq::<u8>::empty());
}

/// The UTF-8 encoding of an ASCII character is its code as one byte.
proof fn lemma_ascii_encoding(c: char)
    requires
        (c as u32) < 0x80,
    ensures
        encode_scalar(c as u32) == seq![(c as u32) as u8],
{
    let v = c as u32;
    assert((v & 0x7F) as u8 == v as u8) by (bit_vector)
        requires
            v < 0x80,
    ;
}

/// Three decimal digits stand for the palette entry they write, when it is
/// at most 255; a larger number is no colour.
pub proof fn law_three_digits_index(a: char, b: char, c: char)
    requires
        '0' <= a <= '9',
        '0' <= b <= '9',
        '0' <= c <= '9',
    ensures
        ({
            let v = (a as u32 - 0x30) * 100 + (b as u32 - 0x30) * 10 + (c as u32 - 0x30);
            unnamed_color(seq![a, b, c]) == if v <= 255 {
                Color::Indexed(v as u8)
            } else {
                Color::Reset
            }
        }),
{
    let s = seq![a, b, c];
    let v = (a as u32 - 0x30) * 100 + (b as u32 - 0x30) * 10 + (c as u32 - 0x30);
    lemma_digit_chars_color(s, v as nat);
}

/// The decimal text of a number, without padding, as `to_string` writes it.
pub open spec fn decimal_text(n: nat) -> Seq<char>
    decreases n,
{
    if n < 10 {
        seq![(n + 0x30) as char]
    } else {
        decimal_text(n / 10).push(((n % 10) + 0x30) as char)
    }
}

/// The encoding of an ASCII text is its character codes, one byte each.
proof fn lemma_ascii_text_encoding(s: Seq<char>)
    requires
        forall|i: int| 0 <= i < s.len() ==> (#[trigger] s[i] as u32) < 0x80,
    ensures
        encode_utf8(s) == Seq::new(s.len(), |i: int| (s[i] as u32) as u8),
        forall|i: int| 0 <= i < s.len() ==> (#[trigger] encode_utf8(s)[i] as u32) == (s[i] as u32),
    decreases s.len(),
{
    if s.len() > 0 {
        lemma_ascii_encoding(s[0]);
        lemma_ascii_text_encoding(s.drop_first());
        assert(encode_utf8(s) =~= Seq::new(s.len(), |i: int| (s[i] as u32) as u8));
    } else {
        assert(encode_utf8(s) =~= Seq::new(s.len(), |i: int| (s[i] as u32) as u8));
    }
    assert forall|i: int| 0 <= i < s.len() implies (#[trigger] encode_utf8(s)[i] as u32) == (
    s[i] as u32) by {
        let v = s[i] as u32;
        assert(v < 0x80);
        assert(((v as u8) as u32) == v) by (bit_vector)
            requires
                v < 0x80,
        ;
    }
}

/// The colour of a text of one to three decimal digit characters, given
/// the number they write.
#[verifier::rlimit(40)]
proof fn lemma_digit_chars_color(s: Seq<char>, v: nat)
    requires
        1 <= s.len() <= 3,
        forall|i: int| 0 <= i < s.len() ==> '0' <= #[trigger] s[i] <= '9',
        s.len() == 1 ==> v == s[0] as u32 - 0x30,
        s.len() == 2 ==> v == (s[0] as u32 - 0x30) * 10 + (s[1] as u32 - 0x30),
        s.len() == 3 ==> v == (s[0] as u32 - 0x30) * 100 + (s[1] as u32 - 0x30) * 10 + (s[2] as u32
            - 0x30),
    ensures
        unnamed_color(s) == (if v <= 255 {
            Color::Indexed(v as u8)
        } else {
            Color::Reset
        }),
{
    lemma_ascii_text_encoding(s);
    let b = encode_utf8(s);
    reveal_with_fuel(digits_value, 2);
    assert(b.len() == s.len());
    let d0 = b[0] as u32 - 0x30;
    assert(seq![b[0]].last() == b[0]);
    assert(b[0] as u32 == s[0] as u32);
    assert(digit_value(b[0], 10) == Some(d0 as nat));
    assert(b[0] != 0x2b);
    if s.len() == 1 {
        assert(b.drop_last() =~= Seq::<u8>::empty());
        assert(digits_value(b, 10) == Some(v));
    } else if s.len() == 2 {
        assert(b[1] as u32 == s[1] as u32);
        assert(b.drop_last() =~= seq![b[0]]);
        assert(seq![b[0]].drop_last() =~= Seq::<u8>::empty());
        assert(digits_value(seq![b[0]], 10) == Some(d0 as nat));
        assert(digits_value(b, 10) == Some(v));
    } else {
        assert(b[1] as u32 == s[1] as u32);
        assert(b[2] as u32 == s[2] as u32);
        let d1 = b[1] as u32 - 0x30;
        assert(b.drop_last() =~= seq![b[0], b[1]]);
        assert(seq![b[0], b[1]].drop_last() =~= seq![b[0]]);
        assert(seq![b[0], b[1]].last() == b[1]);
        assert(seq![b[0]].drop_last() =~= Seq::<u8>::empty());
        assert(digits_value(seq![b[0]], 10) == Some(d0 as nat));
        assert(digits_value(seq![b[0], b[1]], 10) == Some((d0 * 10 + d1) as nat));
        assert(digits_value(b, 10) == Some(v));
    }
}

/// A number up to 255, written in decimal without padding, is the palette
/// entry of that number, whatever its lowercase form when that names no
/// colour.
pub proof fn law_decimal_index(n: nat, lowered: Seq<char>)
    requires
        n <= 255,
    ensures
        unnamed_color(decimal_text(n)) == Color::Indexed(n as u8),
        named_color(lowered) is None ==> color_of(lowered, decimal_text(n)) == Color::Indexed(
            n as u8,
        ),
{
    let s = decimal_text(n);
    reveal_with_fuel(decimal_text, 3);
    if n < 10 {
        assert(s =~= seq![(n + 0x30) as char]);
    } else if n < 100 {
        assert(decimal_text(n / 10) == seq![(n / 10 + 0x30) as char]);
        assert(s =~= seq![(n / 10 + 0x30) as char, (n % 10 + 0x30) as char]);
    } else {
        assert(decimal_text(n / 100) == seq![(n / 100 + 0x30) as char]);
        assert(s =~= seq![
            (n / 100 + 0x30) as char,
            ((n / 10) % 10 + 0x30) as char,
            (n % 10 + 0x30) as char,
        ]);
    }
    lemma_digit_chars_color(s, n);
}

/// A byte with ASCII capitals taken to small letters.
pub open spec fn fold_byte(x: u8) -> int {
    if 0x41 <= x <= 0x5a {
        x + 32
    } else {
        x as int
    }
}

/// A character's code with ASCII capitals taken to small letters.
pub open spec fn fold_code(c: char) -> int {
    let v = c as u32;
    if 0x41 <= v <= 0x5a {
        v + 32
    } else {
        v as int
    }
}

/// Two byte strings differ at most in the case of ASCII letters.
pub open spec fn bytes_same_but_case(x: Seq<u8>, y: Seq<u8>) -> bool {
    &&& x.len() == y.len()
    &&& forall|i: int| 0 <= i < x.len() ==> fold_byte(#[trigger] x[i]) == fold_byte(y[i])
}

/// Two ASCII texts differ at most in the case of their letters.
pub open spec fn same_but_case(s: Seq<char>, t: Seq<char>) -> bool {
    &&& s.len() == t.len()
    &&& forall|i: int|
        0 <= i < s.len() ==> (#[trigger] s[i] as u32) < 0x80 && (t[i] as u32) < 0x80 && fold_code(
            s[i],
        ) == fold_code(t[i])
}

proof fn lemma_digits_same_but_case(x: Seq<u8>, y: Seq<u8>, radix: nat)
    requires
        bytes_same_but_case(x, y),
    ensures
        digits_value(x, radix) == digits_value(y, radix),
    decreases x.len(),
{
    if x.len() > 0 {
        let (xf, yf) = (x.drop_last(), y.drop_last());
        assert(bytes_same_but_case(xf, yf)) by {
            assert forall|i: int| 0 <= i < xf.len() implies fold_byte(#[trigger] xf[i])
                == fold_byte(yf[i]) by {
                assert(xf[i] == x[i] && yf[i] == y[i]);
            }
        }
        lemma_digits_same_but_case(xf, yf, radix);
        assert(fold_byte(x.last()) == fold_byte(y.last()));
        assert(digit_value(x.last(), radix) == digit_value(y.last(), radix));
    }
}

proof fn lemma_parse_same_but_case(x: Seq<u8>, y: Seq<u8>, radix: nat)
    requires
        bytes_same_but_case(x, y),
    ensures
        parse_u8_radix(x, radix) == parse_u8_radix(y, radix),
        x.len() > 0 ==> (x[0] == 0x2b) == (y[0] == 0x2b),
{
    if x.len() > 0 {
        assert(fold_byte(x[0]) == fold_byte(y[0]));
        assert((x[0] == 0x2b) == (y[0] == 0x2b));
    }
    let xd = if x.len() > 0 && x[0] == 0x2b {
        x.drop_first()
    } else {
        x
    };
    let yd = if y.len() > 0 && y[0] == 0x2b {
        y.drop_first()
    } else {
        y
    };
    assert(bytes_same_but_case(xd, yd)) by {
        assert forall|i: int| 0 <= i < xd.len() implies fold_byte(#[trigger] xd[i]) == fold_byte(
            yd[i],
        ) by {
            if x.len() > 0 && x[0] == 0x2b {
                assert(xd[i] == x[i + 1] && yd[i] == y[i + 1]);
            }
        }
    }
    assert(xd == (if x.len() > 0 && x[0] == 0x2b {
        x.drop_first()
    } else {
        x
    }));
    lemma_digits_same_but_case(xd, yd, radix);
}

proof fn lemma_subrange_same_but_case(x: Seq<u8>, y: Seq<u8>, a: int, b: int)
    requires
        bytes_same_but_case(x, y),
        0 <= a <= b <= x.len(),
    ensures
        bytes_same_but_case(x.subrange(a, b), y.subrange(a, b)),
{
    assert forall|i: int| 0 <= i < b - a implies fold_byte(#[trigger] x.subrange(a, b)[i])
        == fold_byte(y.subrange(a, b)[i]) by {
        assert(x.subrange(a, b)[i] == x[a + i]);
        assert(y.subrange(a, b)[i] == y[a + i]);
    }
}

/// A text's colour does not depend on the case of its ASCII letters, given
/// the same lowercase form: palette indices and hex digits read the same in
/// either case.
pub proof fn law_case_does_not_matter(lowered: Seq<char>, s: Seq<char>, t: Seq<char>)
    requires
        same_but_case(s, t),
    ensures
        color_of(lowered, s) == color_of(lowered, t),
{
    assert forall|i: int| 0 <= i < t.len() implies (#[trigger] t[i] as u32) < 0x80 by {
        assert((s[i] as u32) < 0x80);
    }
    lemma_ascii_text_encoding(s);
    lemma_ascii_text_encoding(t);
    let (bs, bt) = (encode_utf8(s), encode_utf8(t));
    assert(bytes_same_but_case(bs, bt)) by {
        assert forall|i: int| 0 <= i < bs.len() implies fold_byte(#[trigger] bs[i]) == fold_byte(
            bt[i],
        ) by {
            assert(bs[i] as u32 == s[i] as u32 && bt[i] as u32 == t[i] as u32);
            assert(fold_code(s[i]) == fold_code(t[i]));
        }
    }
    lemma_parse_same_but_case(bs, bt, 10);
    if s.len() > 0 {
        assert(fold_code(s[0]) == fold_code(t[0]));
        assert(('#' as u32) == 0x23);
        char_u32_cast(s[0], s[0] as u32);
        char_u32_cast(t[0], t[0] as u32);
        char_u32_cast('#', '#' as u32);
        assert((s[0] as u32 == 0x23) == (t[0] as u32 == 0x23));
        assert((s[0] == '#') == (t[0] == '#'));
        if s[0] == '#' && (bs.len() == 4 || bs.len() == 7) {
            let (ds, dt) = (encode_utf8(s.drop_first()), encode_utf8(t.drop_first()));
            lemma_encoding_after_hash(s);
            lemma_encoding_after_hash(t);
            assert(ds =~= bs.subrange(1, bs.len() as int));
            assert(dt =~= bt.subrange(1, bt.len() as int));
            lemma_subrange_same_but_case(bs, bt, 1, bs.len() as int);
            let n = ds.len() as int;
            if n == 6 {
                lemma_subrange_same_but_case(ds, dt, 0, 2);
                lemma_subrange_same_but_case(ds, dt, 2, 4);
                lemma_subrange_same_but_case(ds, dt, 4, 6);
                lemma_parse_same_but_case(ds.subrange(0, 2), dt.subrange(0, 2), 16);
                lemma_parse_same_but_case(ds.subrange(2, 4), dt.subrange(2, 4), 16);
                lemma_parse_same_but_case(ds.subrange(4, 6), dt.subrange(4, 6), 16);
            } else {
                lemma_subrange_same_but_case(ds, dt, 0, 1);
                lemma_subrange_same_but_case(ds, dt, 1, 2);
                lemma_subrange_same_but_case(ds, dt, 2, 3);
                lemma_parse_same_but_case(ds.subrange(0, 1), dt.subrange(0, 1), 16);
                lemma_parse_same_but_case(ds.subrange(1, 2), dt.subrange(1, 2), 16);
                lemma_parse_same_but_case(ds.subrange(2, 3), dt.subrange(2, 3), 16);
            }
        }
    }
}

/// The colour of an ASCII text does not depend on the case of its letters:
/// colour names, palette indices and hex digits read the same in either
/// case.
pub proof fn law_ascii_case_does_not_matter(s: Seq<char>, t: Seq<char>)
    requires
        same_but_case(s, t),
    ensures
        color_of(ascii_lower(s), s) == color_of(ascii_lower(t), t),
{
    assert(ascii_lower(s) =~= ascii_lower(t)) by {
        assert forall|i: int| 0 <= i < s.len() implies ascii_lower(s)[i] == ascii_lower(t)[i] by {
            let (a, b) = (s[i], t[i]);
            assert(fold_code(a) == fold_code(b));
            char_u32_cast(a, a as u32);
            char_u32_cast(b, b as u32);
            assert(ascii_lower_char(a) as u32 == fold_code(a));
            assert(ascii_lower_char(b) as u32 == fold_code(b));
            char_u32_cast(ascii_lower_char(a), ascii_lower_char(a) as u32);
            char_u32_cast(ascii_lower_char(b), ascii_lower_char(b) as u32);
        }
    }
    law_case_does_not_matter(ascii_lower(s), s, t);
}

/// The length of each colour name, and the characters that tell names of
/// one length apart.
proof fn lemma_name_literals()
    ensures
        "reset"@.len() == 5,
        "reset"@[0] == 'r',
        "red"@.len() == 3,
        "red"@[0] == 'r',
        "green"@.len() == 5,
        "green"@[0] == 'g',
        "black"@.len() == 5,
        "black"@[0] == 'b',
        "yellow"@.len() == 6,
        "yellow"@[0] == 'y',
        "yellow"@[5] == 'w',
        "blue"@.len() == 4,
        "blue"@[0] == 'b',
        "magenta"@.len() == 7,
        "magenta"@[0] == 'm',
        "magenta"@[5] == 't',
        "cyan"@.len() == 4,
        "cyan"@[0] == 'c',
        "gray"@.len() == 4,
        "gray"@[0] == 'g',
        "white"@.len() == 5,
        "white"@[0] == 'w',
        "darkgray"@.len() == 8,
        "darkgray"@[0] == 'd',
        "darkgray"@[5] == 'r',
        "lightblue"@.len() == 9,
        "lightblue"@[0] == 'l',
        "lightblue"@[5] == 'b',
        "lightcyan"@.len() == 9,
        "lightcyan"@[0] == 'l',
        "lightcyan"@[5] == 'c',
        "lightgreen"@.len() == 10,
        "lightgreen"@[0] == 'l',
        "lightgreen"@[5] == 'g',
        "lightmagenta"@.len() == 12,
        "lightmagenta"@[0] == 'l',
        "lightmagenta"@[5] == 'm',
        "lightred"@.len() == 8,
        "lightred"@[0] == 'l',
        "lightred"@[5] == 'r',
        "lightyellow"@.len() == 11,
        "lightyellow"@[0] == 'l',
        "lightyellow"@[5] == 'y',
        ""@.len() == 0,
{
    broadcast use vstd::string::group_string_axioms;

    reveal_strlit("reset");
    assert("reset"@.len() == 5);
    assert("reset"@[0] == 'r');
    reveal_strlit("red");
    assert("red"@.len() == 3);
    assert("red"@[0] == 'r');
    reveal_strlit("green");
    assert("green"@.len() == 5);
    assert("green"@[0] == 'g');
    reveal_strlit("black");
    assert("black"@.len() == 5);
    assert("black"@[0] == 'b');
    reveal_strlit("yellow");
    assert("yellow"@.len() == 6);
    assert("yellow"@[0] == 'y');
    assert("yellow"@[5] == 'w');
    reveal_strlit("blue");
    assert("blue"@.len() == 4);
    assert("blue"@[0] == 'b');
    reveal_strlit("magenta");
    assert("magenta"@.len() == 7);
    assert("magenta"@[0] == 'm');
    assert("magenta"@[5] == 't');
    reveal_strlit("cyan");
    assert("cyan"@.len() == 4);
    assert("cyan"@[0] == 'c');
    reveal_strlit("gray");
    assert("gray"@.len() == 4);
    assert("gray"@[0] == 'g');
    reveal_strlit("white");
    assert("white"@.len() == 5);
    assert("white"@[0] == 'w');
    reveal_strlit("darkgray");
    assert("darkgray"@.len() == 8);
    assert("darkgray"@[0] == 'd');
    assert("darkgray"@[5] == 'r');
    reveal_strlit("lightblue");
    assert("lightblue"@.len() == 9);
    assert("lightblue"@[0] == 'l');
    assert("lightblue"@[5] == 'b');
    reveal_strlit("lightcyan");
    assert("lightcyan"@.len() == 9);
    assert("lightcyan"@[0] == 'l');
    assert("lightcyan"@[5] == 'c');
    reveal_strlit("lightgreen");
    assert("lightgreen"@.len() == 10);
    assert("lightgreen"@[0] == 'l');
    assert("lightgreen"@[5] == 'g');
    reveal_strlit("lightmagenta");
    assert("lightmagenta"@.len() == 12);
    assert("lightmagenta"@[0] == 'l');
    assert("lightmagenta"@[5] == 'm');
    reveal_strlit("lightred");
    assert("lightred"@.len() == 8);
    assert("lightred"@[0] == 'l');
    assert("lightred"@[5] == 'r');
    reveal_strlit("lightyellow");
    assert("lightyellow"@.len() == 11);
    assert("lightyellow"@[0] == 'l');
    assert("lightyellow"@[5] == 'y');
    reveal_strlit("");
    assert(""@.len() == 0);
}

/// Each of the colour names, lowercased, gives the colour of that name,
/// whatever the text it was lowered from; the empty name gives `Reset`.
pub proof fn law_colour_names(s: Seq<char>)
    ensures
        color_of("reset"@, s) == Color::Reset,
        color_of("red"@, s) == Color::Red,
        color_of("green"@, s) == Color::Green,
        color_of("black"@, s) == Color::Black,
        color_of("yellow"@, s) == Color::Yellow,
        color_of("blue"@, s) == Color::Blue,
        color_of("magenta"@, s) == Color::Magenta,
        color_of("cyan"@, s) == Color::Cyan,
        color_of("gray"@, s) == Color::Gray,
        color_of("white"@, s) == Color::White,
        color_of("darkgray"@, s) == Color::DarkGray,
        color_of("lightblue"@, s) == Color::LightBlue,
        color_of("lightcyan"@, s) == Color::LightCyan,
        color_of("lightgreen"@, s) == Color::LightGreen,
        color_of("lightmagenta"@, s) == Color::LightMagenta,
        color_of("lightred"@, s) == Color::LightRed,
        color_of("lightyellow"@, s) == Color::LightYellow,
        color_of(""@, s) == Color::Reset,
{
    lemma_name_literals();
}

/// The value of a hex digit written as a byte, in either case.
pub open spec fn hex_digit(c: u8) -> Option<nat> {
    if 0x30 <= c <= 0x39 {
        Some((c - 0x30) as nat)
    } else if 0x61 <= c <= 0x66 {
        Some((c - 0x61 + 10) as nat)
    } else if 0x41 <= c <= 0x46 {
        Some((c - 0x41 + 10) as nat)
    } else {
        None
    }
}

/// Two hex digits read as the number they write.
proof fn lemma_two_hex_digits(x: u8, y: u8)
    requires
        hex_digit(x) is Some,
        hex_digit(y) is Some,
    ensures
        parse_u8_radix(seq![x, y], 16) == Some((hex_digit(x)->0 * 16 + hex_digit(y)->0) as u8),
{
    reveal_with_fuel(digits_value, 3);
    assert(seq![x, y].drop_last() =~= seq![x]);
    assert(seq![x].drop_last() =~= Seq::<u8>::empty());
    assert(digit_value(x, 16) == hex_digit(x));
    assert(digit_value(y, 16) == hex_digit(y));
}

/// Six hex digits `rrggbb` give the true colour with red `rr`, green `gg`
/// and blue `bb`, each a two-digit hex number.
pub proof fn law_long_hex(r1: u8, r2: u8, g1: u8, g2: u8, b1: u8, b2: u8)
    requires
        hex_digit(r1) is Some,
        hex_digit(r2) is Some,
        hex_digit(g1) is Some,
        hex_digit(g2) is Some,
        hex_digit(b1) is Some,
        hex_digit(b2) is Some,
    ensures
        hex_color(seq![r1, r2, g1, g2, b1, b2]) == Color::Rgb(
            (hex_digit(r1)->0 * 16 + hex_digit(r2)->0) as u8,
            (hex_digit(g1)->0 * 16 + hex_digit(g2)->0) as u8,
            (hex_digit(b1)->0 * 16 + hex_digit(b2)->0) as u8,
        ),
{
    let d = seq![r1, r2, g1, g2, b1, b2];
    assert(d.subrange(0, 2) =~= seq![r1, r2]);
    assert(d.subrange(2, 4) =~= seq![g1, g2]);
    assert(d.subrange(4, 6) =~= seq![b1, b2]);
    lemma_two_hex_digits(r1, r2);
    lemma_two_hex_digits(g1, g2);
    lemma_two_hex_digits(b1, b2);
}

/// Three hex digits `rgb` give the true colour whose red, green and blue
/// are each digit written twice, that is the digit's value times 17.
pub proof fn law_short_hex(r: u8, g: u8, b: u8)
    requires
        hex_digit(r) is Some,
        hex_digit(g) is Some,
        hex_digit(b) is Some,
    ensures
        hex_color(seq![r, g, b]) == Color::Rgb(
            (hex_digit(r)->0 * 17) as u8,
            (hex_digit(g)->0 * 17) as u8,
            (hex_digit(b)->0 * 17) as u8,
        ),
{
    law_short_hex_doubles_digits(r, g, b);
    law_long_hex(r, r, g, g, b, b);
}

/// The text `#` followed by six ASCII hex digits is the true colour those
/// digits write, two for each of red, green and blue.
pub proof fn law_hex_text(s: Seq<char>)
    requires
        s.len() == 7,
        s[0] == '#',
        forall|i: int| 1 <= i < 7 ==> (#[trigger] s[i] as u32) < 0x80 && hex_digit(
            (s[i] as u32) as u8,
        ) is Some,
    ensures
        ({
            let h = |i: int| hex_digit((s[i] as u32) as u8)->0;
            unnamed_color(s) == Color::Rgb(
                (h(1) * 16 + h(2)) as u8,
                (h(3) * 16 + h(4)) as u8,
                (h(5) * 16 + h(6)) as u8,
            )
        }),
{
    assert(('#' as u32) == 0x23);
    assert forall|i: int| 0 <= i < s.len() implies (#[trigger] s[i] as u32) < 0x80 by {
        if i == 0 {
            assert(s[0] as u32 == 0x23);
        }
    }
    lemma_ascii_text_encoding(s);
    let b = encode_utf8(s);
    assert(b.len() == 7);
    lemma_encoding_after_hash(s);
    let t = encode_utf8(s.drop_first());
    assert(t =~= b.subrange(1, 7));
    assert forall|i: int| 1 <= i < 7 implies #[trigger] b[i] == (s[i] as u32) as u8 by {
        assert(b[i] as u32 == s[i] as u32);
    }
    assert(t =~= seq![b[1], b[2], b[3], b[4], b[5], b[6]]);
    law_long_hex(b[1], b[2], b[3], b[4], b[5], b[6]);
}

} // verus!
