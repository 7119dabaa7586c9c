//! Colors, and the textual forms that name them.

use vstd::prelude::*;
use crate::error::ImgEditError;
use crate::text::{
    all_ascii, ascii_lower, chars_equal, chars_of, decimal, labelled, lemma_trim_keeps_ascii,
    lower, lowercased, push_decimal, slice, starts_with, trim, trim_end, trim_start, trimmed,
    unicode_lower,
};

verus! {

/// A color of four 8-bit channels: red, green, blue and alpha.
#[derive(Clone, Copy, Debug, PartialEq, Eq, Structural)]
pub struct Rgba {
    pub r: u8,
    pub g: u8,
    pub b: u8,
    pub a: u8,
}

impl Rgba {
    pub fn new(r: u8, g: u8, b: u8, a: u8) -> (c: Rgba)
        ensures
            c == (Rgba { r, g, b, a }),
    {
        Rgba { r, g, b, a }
    }
}

/// The color that a keyword names.
pub open spec fn named_color(s: Seq<char>) -> Option<Rgba> {
    if s == "black"@ {
        Some(Rgba { r: 0, g: 0, b: 0, a: 255 })
    } else if s == "white"@ {
        Some(Rgba { r: 255, g: 255, b: 255, a: 255 })
    } else if s == "red"@ {
        Some(Rgba { r: 255, g: 0, b: 0, a: 255 })
    } else if s == "green"@ {
        Some(Rgba { r: 0, g: 255, b: 0, a: 255 })
    } else if s == "blue"@ {
        Some(Rgba { r: 0, g: 0, b: 255, a: 255 })
    } else if s == "yellow"@ {
        Some(Rgba { r: 255, g: 255, b: 0, a: 255 })
    } else if s == "cyan"@ {
        Some(Rgba { r: 0, g: 255, b: 255, a: 255 })
    } else if s == "magenta"@ {
        Some(Rgba { r: 255, g: 0, b: 255, a: 255 })
    } else if s == "transparent"@ {
        Some(Rgba { r: 0, g: 0, b: 0, a: 0 })
    } else {
        None
    }
}

/// The value of a hexadecimal digit, of either case.
pub open spec fn hex_value(c: char) -> Option<int> {
    if '0' <= c && c <= '9' {
        Some(c as int - 48)
    } else if 'a' <= c && c <= 'f' {
        Some(c as int - 87)
    } else if 'A' <= c && c <= 'F' {
        Some(c as int - 55)
    } else {
        None
    }
}

/// The value of one hexadecimal digit, or the message that refuses it.
pub open spec fn hex_digit_spec(c: char) -> Result<int, Seq<char>> {
    match hex_value(c) {
        Some(v) => Ok(v),
        None => Err("Invalid hex digit: "@.push(c)),
    }
}

/// The value of two hexadecimal digits, or the message that refuses them.
pub open spec fn hex_byte_spec(high: char, low: char) -> Result<int, Seq<char>> {
    match (hex_value(high), hex_value(low)) {
        (Some(h), Some(l)) => Ok(16 * h + l),
        _ => Err("Invalid hex byte: "@.push(high).push(low)),
    }
}

/// Whether `c` is one of the ten decimal digits.
pub open spec fn is_digit(c: char) -> bool {
    '0' <= c && c <= '9'
}

/// The number that a sequence of decimal digits denotes.
pub open spec fn digits_value(s: Seq<char>) -> nat
    decreases s.len(),
{
    if s.len() == 0 {
        0
    } else {
        digits_value(s.drop_last()) * 10 + (s.last() as int - 48) as nat
    }
}

/// Whether every character of `s` is a decimal digit.
pub open spec fn all_digits(s: Seq<char>) -> bool {
    forall|i: int| 0 <= i < s.len() ==> is_digit(#[trigger] s[i])
}

/// `s` without the `+` that may stand in front of a number.
pub open spec fn unsigned_part(s: Seq<char>) -> Seq<char> {
    if s.len() > 0 && s[0] == '+' {
        s.skip(1)
    } else {
        s
    }
}

/// The value of a channel written in decimal: one or more digits, a `+` in front of
/// them allowed, denoting no more than 255.
pub open spec fn component_value(s: Seq<char>) -> Option<int> {
    let digits = unsigned_part(s);
    if digits.len() > 0 && all_digits(digits) && digits_value(digits) <= 255 {
        Some(digits_value(digits) as int)
    } else {
        None
    }
}

/// The value of a channel written in decimal, or the message that refuses it.
pub open spec fn component_spec(s: Seq<char>) -> Result<int, Seq<char>> {
    match component_value(s) {
        Some(v) => Ok(v),
        None => Err("Invalid color component: "@ + s),
    }
}

/// The color of four channels; where a channel was refused, the message of the first
/// such.
pub open spec fn channels(
    r: Result<int, Seq<char>>,
    g: Result<int, Seq<char>>,
    b: Result<int, Seq<char>>,
    a: Result<int, Seq<char>>,
) -> Result<Rgba, Seq<char>> {
    match (r, g, b, a) {
        (Ok(r), Ok(g), Ok(b), Ok(a)) => Ok(Rgba { r: r as u8, g: g as u8, b: b as u8, a: a as u8 }),
        (Err(m), _, _, _) => Err(m),
        (_, Err(m), _, _) => Err(m),
        (_, _, Err(m), _) => Err(m),
        (_, _, _, Err(m)) => Err(m),
    }
}

/// One digit of the short hexadecimal forms, which stands for the same digit twice.
pub open spec fn nibble_spec(c: char) -> Result<int, Seq<char>> {
    match hex_digit_spec(c) {
        Ok(v) => Ok(17 * v),
        Err(m) => Err(m),
    }
}

/// The color that the part after `#` denotes: three or four digits, each standing for
/// itself twice, or six or eight digits, two a channel; alpha is 255 where it is not
/// given.
pub open spec fn hex_color_spec(text: Seq<char>) -> Result<Rgba, Seq<char>> {
    let hex = trim(text);
    if hex.len() == 3 {
        channels(nibble_spec(hex[0]), nibble_spec(hex[1]), nibble_spec(hex[2]), Ok(255))
    } else if hex.len() == 4 {
        channels(
            nibble_spec(hex[0]),
            nibble_spec(hex[1]),
            nibble_spec(hex[2]),
            nibble_spec(hex[3]),
        )
    } else if hex.len() == 6 {
        channels(
            hex_byte_spec(hex[0], hex[1]),
            hex_byte_spec(hex[2], hex[3]),
            hex_byte_spec(hex[4], hex[5]),
            Ok(255),
        )
    } else if hex.len() == 8 {
        channels(
            hex_byte_spec(hex[0], hex[1]),
            hex_byte_spec(hex[2], hex[3]),
            hex_byte_spec(hex[4], hex[5]),
            hex_byte_spec(hex[6], hex[7]),
        )
    } else {
        Err("Invalid hex color length: "@ + hex)
    }
}

/// The pieces of `s` between its commas: one more than it has commas.
pub open spec fn split_commas(s: Seq<char>) -> Seq<Seq<char>>
    decreases s.len(),
{
    if s.len() == 0 {
        seq![Seq::<char>::empty()]
    } else {
        let before = split_commas(s.drop_last());
        if s.last() == ',' {
            before.push(Seq::<char>::empty())
        } else {
            before.update(before.len() - 1, before.last().push(s.last()))
        }
    }
}

/// The color that the inside of `rgb(...)` denotes.
pub open spec fn rgb_color_spec(inner: Seq<char>) -> Result<Rgba, Seq<char>> {
    let parts = split_commas(inner);
    if parts.len() != 3 {
        Err("rgb() requires 3 values, got "@ + decimal(parts.len()))
    } else {
        channels(
            component_spec(trim(parts[0])),
            component_spec(trim(parts[1])),
            component_spec(trim(parts[2])),
            Ok(255),
        )
    }
}

/// The color that the inside of `rgba(...)` denotes.
pub open spec fn rgba_color_spec(inner: Seq<char>) -> Result<Rgba, Seq<char>> {
    let parts = split_commas(inner);
    if parts.len() != 4 {
        Err("rgba() requires 4 values, got "@ + decimal(parts.len()))
    } else {
        channels(
            component_spec(trim(parts[0])),
            component_spec(trim(parts[1])),
            component_spec(trim(parts[2])),
            component_spec(trim(parts[3])),
        )
    }
}

/// Whether `s` begins with `prefix` and ends with `)`.
pub open spec fn is_call(s: Seq<char>, prefix: Seq<char>) -> bool {
    prefix.len() <= s.len() && s.take(prefix.len() as int) == prefix && s.last() == ')'
}

/// The color that a text denotes, or the message that refuses it. Whitespace around
/// the text and the case of its letters do not count: the text stands for what its
/// trimmed, lower-case form stands for.
pub open spec fn parse_color_spec(input: Seq<char>) -> Result<Rgba, Seq<char>> {
    normalized_color_spec(unicode_lower(trim(input)))
}

/// What `parse_color_spec` comes to for a text of ASCII characters, whose lower-case
/// form is known letter by letter.
pub open spec fn ascii_color_spec(input: Seq<char>) -> Result<Rgba, Seq<char>> {
    normalized_color_spec(lower(trim(input)))
}

/// The color that a trimmed text in lower case denotes, or the message that refuses
/// it. A keyword is tried first, then the hexadecimal forms after `#`, then
/// `rgb(...)` and `rgba(...)`.
pub open spec fn normalized_color_spec(s: Seq<char>) -> Result<Rgba, Seq<char>> {
    if named_color(s) is Some {
        Ok(named_color(s)->0)
    } else if s.len() > 0 && s[0] == '#' {
        hex_color_spec(s.skip(1))
    } else if is_call(s, "rgb("@) {
        rgb_color_spec(s.subrange(4, s.len() - 1))
    } else if is_call(s, "rgba("@) {
        rgba_color_spec(s.subrange(5, s.len() - 1))
    } else {
        Err("Unrecognized color format: "@ + s)
    }
}

/// Whether a channel that was computed is the one that was specified, or was refused
/// with the message specified.
pub open spec fn channel_agrees(res: Result<u8, ImgEditError>, spec: Result<int, Seq<char>>) -> bool {
    match (res, spec) {
        (Ok(v), Ok(w)) => v == w,
        (Err(ImgEditError::InvalidColor(m)), Err(t)) => m@ == t,
        _ => false,
    }
}

/// Whether a color that was computed is the one that was specified, or was refused as
/// `InvalidColor` with the message specified.
pub open spec fn color_agrees(res: Result<Rgba, ImgEditError>, spec: Result<Rgba, Seq<char>>) -> bool {
    match (res, spec) {
        (Ok(c), Ok(d)) => c == d,
        (Err(ImgEditError::InvalidColor(m)), Err(t)) => m@ == t,
        _ => false,
    }
}

/// The color that a keyword names.
pub fn parse_named_color(s: &Vec<char>) -> (c: Option<Rgba>)
    ensures
        c == named_color(s@),
{
    if chars_equal(s, "black") {
        Some(Rgba { r: 0, g: 0, b: 0, a: 255 })
    } else if chars_equal(s, "white") {
        Some(Rgba { r: 255, g: 255, b: 255, a: 255 })
    } else if chars_equal(s, "red") {
        Some(Rgba { r: 255, g: 0, b: 0, a: 255 })
    } else if chars_equal(s, "green") {
        Some(Rgba { r: 0, g: 255, b: 0, a: 255 })
    } else if chars_equal(s, "blue") {
        Some(Rgba { r: 0, g: 0, b: 255, a: 255 })
    } else if chars_equal(s, "yellow") {
        Some(Rgba { r: 255, g: 255, b: 0, a: 255 })
    } else if chars_equal(s, "cyan") {
        Some(Rgba { r: 0, g: 255, b: 255, a: 255 })
    } else if chars_equal(s, "magenta") {
        Some(Rgba { r: 255, g: 0, b: 255, a: 255 })
    } else if chars_equal(s, "transparent") {
        Some(Rgba { r: 0, g: 0, b: 0, a: 0 })
    } else {
        None
    }
}

fn hex_digit(c: char) -> (v: Option<u8>)
    ensures
        v is Some <==> hex_value(c) is Some,
        v matches Some(d) ==> d == hex_value(c)->0 && d < 16,
{
    if c >= '0' && c <= '9' {
        Some((c as u8) - 48)
    } else if c >= 'a' && c <= 'f' {
        Some((c as u8) - 87)
    } else if c >= 'A' && c <= 'F' {
        Some((c as u8) - 55)
    } else {
        None
    }
}

/// The value of one hexadecimal digit.
pub fn parse_hex_digit(c: char) -> (res: Result<u8, ImgEditError>)
    ensures
        channel_agrees(res, hex_digit_spec(c)),
        res matches Ok(v) ==> v < 16,
{
    match hex_digit(c) {
        Some(v) => Ok(v),
        None => {
            let mut m = String::from_str("Invalid hex digit: ");
            m.push(c);
            Err(ImgEditError::InvalidColor(m))
        },
    }
}

/// The value of two hexadecimal digits.
pub fn parse_hex_byte(high: char, low: char) -> (res: Result<u8, ImgEditError>)
    ensures
        channel_agrees(res, hex_byte_spec(high, low)),
{
    match (hex_digit(high), hex_digit(low)) {
        (Some(h), Some(l)) => Ok(16 * h + l),
        _ => {
            let mut m = String::from_str("Invalid hex byte: ");
            m.push(high);
            m.push(low);
            Err(ImgEditError::InvalidColor(m))
        },
    }
}

fn parse_nibble(c: char) -> (res: Result<u8, ImgEditError>)
    ensures
        channel_agrees(res, nibble_spec(c)),
{
    match parse_hex_digit(c) {
        Ok(v) => Ok(v * 17),
        Err(e) => Err(e),
    }
}

/// The color of four channels, or the first refusal among them.
fn combine(
    r: Result<u8, ImgEditError>,
    g: Result<u8, ImgEditError>,
    b: Result<u8, ImgEditError>,
    a: Result<u8, ImgEditError>,
    Ghost(rs): Ghost<Result<int, Seq<char>>>,
    Ghost(gs): Ghost<Result<int, Seq<char>>>,
    Ghost(bs): Ghost<Result<int, Seq<char>>>,
    Ghost(az): Ghost<Result<int, Seq<char>>>,
) -> (res: Result<Rgba, ImgEditError>)
    requires
        channel_agrees(r, rs),
        channel_agrees(g, gs),
        channel_agrees(b, bs),
        channel_agrees(a, az),
    ensures
        color_agrees(res, channels(rs, gs, bs, az)),
{
    let r = match r {
        Ok(v) => v,
        Err(e) => {
            return Err(e);
        },
    };
    let g = match g {
        Ok(v) => v,
        Err(e) => {
            return Err(e);
        },
    };
    let b = match b {
        Ok(v) => v,
        Err(e) => {
            return Err(e);
        },
    };
    let a = match a {
        Ok(v) => v,
        Err(e) => {
            return Err(e);
        },
    };
    Ok(Rgba { r, g, b, a })
}

/// The color that the part after `#` denotes.
pub fn parse_hex_color(text: &Vec<char>) -> (res: Result<Rgba, ImgEditError>)
    ensures
        color_agrees(res, hex_color_spec(text@)),
{
    let hex = trimmed(text);
    let n = hex.len();
    if n == 3 {
        combine(
            parse_nibble(hex[0]),
            parse_nibble(hex[1]),
            parse_nibble(hex[2]),
            Ok(255),
            Ghost(nibble_spec(hex@[0])),
            Ghost(nibble_spec(hex@[1])),
            Ghost(nibble_spec(hex@[2])),
            Ghost(Ok(255)),
        )
    } else if n == 4 {
        combine(
            parse_nibble(hex[0]),
            parse_nibble(hex[1]),
            parse_nibble(hex[2]),
            parse_nibble(hex[3]),
            Ghost(nibble_spec(hex@[0])),
            Ghost(nibble_spec(hex@[1])),
            Ghost(nibble_spec(hex@[2])),
            Ghost(nibble_spec(hex@[3])),
        )
    } else if n == 6 {
        combine(
            parse_hex_byte(hex[0], hex[1]),
            parse_hex_byte(hex[2], hex[3]),
            parse_hex_byte(hex[4], hex[5]),
            Ok(255),
            Ghost(hex_byte_spec(hex@[0], hex@[1])),
            Ghost(hex_byte_spec(hex@[2], hex@[3])),
            Ghost(hex_byte_spec(hex@[4], hex@[5])),
            Ghost(Ok(255)),
        )
    } else if n == 8 {
        combine(
            parse_hex_byte(hex[0], hex[1]),
            parse_hex_byte(hex[2], hex[3]),
            parse_hex_byte(hex[4], hex[5]),
            parse_hex_byte(hex[6], hex[7]),
            Ghost(hex_byte_spec(hex@[0], hex@[1])),
            Ghost(hex_byte_spec(hex@[2], hex@[3])),
            Ghost(hex_byte_spec(hex@[4], hex@[5])),
            Ghost(hex_byte_spec(hex@[6], hex@[7])),
        )
    } else {
        Err(ImgEditError::InvalidColor(labelled("Invalid hex color length: ", &hex)))
    }
}

/// The value of a channel written in decimal.
pub fn parse_color_component(s: &Vec<char>) -> (res: Result<u8, ImgEditError>)
    ensures
        channel_agrees(res, component_spec(s@)),
{
    let start: usize = if s.len() > 0 && s[0] == '+' {
        1
    } else {
        0
    };
    let ghost digits = s@.skip(start as int);
    let n: usize = s.len();
    assert(s@.skip(0) =~= s@);
    if n == start {
        return Err(ImgEditError::InvalidColor(labelled("Invalid color component: ", s)));
    }
    let mut value: u32 = 0;
    let mut i: usize = start;
    while i < n
        invariant
            start <= i <= n,
            n == s@.len(),
            start < n,
            digits == s@.skip(start as int),
            digits == unsigned_part(s@),
            forall|j: int| 0 <= j < i - start ==> is_digit(#[trigger] digits[j]),
            value == if digits_value(digits.take(i - start)) > 255 {
                256
            } else {
                digits_value(digits.take(i - start))
            },
        decreases n - i,
    {
        let c = s[i];
        assert(digits[i - start] == c);
        if !(c >= '0' && c <= '9') {
            assert(!is_digit(digits[i - start]));
            return Err(ImgEditError::InvalidColor(labelled("Invalid color component: ", s)));
        }
        let d: u32 = (c as u32) - 48;
        proof {
            let upto = digits.take(i - start + 1);
            assert(upto.drop_last() =~= digits.take(i - start));
            assert(upto.last() == c);
        }
        value = value * 10 + d;
        if value > 255 {
            value = 256;
        }
        i = i + 1;
    }
    assert(digits.take(digits.len() as int) =~= digits);
    if value <= 255 {
        Ok(value as u8)
    } else {
        Err(ImgEditError::InvalidColor(labelled("Invalid color component: ", s)))
    }
}

/// The pieces of `s` between its commas.
fn split(s: &Vec<char>) -> (parts: Vec<Vec<char>>)
    ensures
        parts@.len() == split_commas(s@).len(),
        forall|i: int| 0 <= i < parts@.len() ==> (#[trigger] parts@[i])@ == split_commas(s@)[i],
{
    let mut parts: Vec<Vec<char>> = Vec::new();
    let mut current: Vec<char> = Vec::new();
    let ghost mut done: Seq<Seq<char>> = Seq::empty();
    let mut i: usize = 0;
    while i < s.len()
        invariant
            i <= s.len(),
            parts@.len() == done.len(),
            forall|j: int| 0 <= j < parts@.len() ==> (#[trigger] parts@[j])@ == done[j],
            split_commas(s@.take(i as int)) == done.push(current@),
        decreases s.len() - i,
    {
        let c = s[i];
        proof {
            let upto = s@.take(i + 1);
            assert(upto.drop_last() =~= s@.take(i as int));
            assert(upto.last() == c);
        }
        if c == ',' {
            proof {
                done = done.push(current@);
            }
            parts.push(current);
            current = Vec::new();
            assert(split_commas(s@.take(i + 1)) =~= done.push(current@));
        } else {
            current.push(c);
            assert(split_commas(s@.take(i + 1)) =~= done.push(current@));
        }
        i = i + 1;
    }
    assert(s@.take(s.len() as int) =~= s@);
    parts.push(current);
    parts
}

/// The color that the inside of `rgb(...)` denotes.
pub fn parse_rgb_color(inner: &Vec<char>) -> (res: Result<Rgba, ImgEditError>)
    ensures
        color_agrees(res, rgb_color_spec(inner@)),
{
    let parts = split(inner);
    if parts.len() != 3 {
        let mut m = String::from_str("rgb() requires 3 values, got ");
        push_decimal(&mut m, parts.len() as u64);
        return Err(ImgEditError::InvalidColor(m));
    }
    let r = trimmed(&parts[0]);
    let g = trimmed(&parts[1]);
    let b = trimmed(&parts[2]);
    combine(
        parse_color_component(&r),
        parse_color_component(&g),
        parse_color_component(&b),
        Ok(255),
        Ghost(component_spec(r@)),
        Ghost(component_spec(g@)),
        Ghost(component_spec(b@)),
        Ghost(Ok(255)),
    )
}

/// The color that the inside of `rgba(...)` denotes.
pub fn parse_rgba_color(inner: &Vec<char>) -> (res: Result<Rgba, ImgEditError>)
    ensures
        color_agrees(res, rgba_color_spec(inner@)),
{
    let parts = split(inner);
    if parts.len() != 4 {
        let mut m = String::from_str("rgba() requires 4 values, got ");
        push_decimal(&mut m, parts.len() as u64);
        return Err(ImgEditError::InvalidColor(m));
    }
    let r = trimmed(&parts[0]);
    let g = trimmed(&parts[1]);
    let b = trimmed(&parts[2]);
    let a = trimmed(&parts[3]);
    combine(
        parse_color_component(&r),
        parse_color_component(&g),
        parse_color_component(&b),
        parse_color_component(&a),
        Ghost(component_spec(r@)),
        Ghost(component_spec(g@)),
        Ghost(component_spec(b@)),
        Ghost(component_spec(a@)),
    )
}

/// The color that a trimmed text in lower case denotes: see `normalized_color_spec`.
pub fn parse_normalized(text: &Vec<char>) -> (res: Result<Rgba, ImgEditError>)
    ensures
        color_agrees(res, normalized_color_spec(text@)),
{
    match parse_named_color(text) {
        Some(c) => {
            return Ok(c);
        },
        None => {},
    }
    let n: usize = text.len();
    if n > 0 && text[0] == '#' {
        let hex = slice(text, 1, n);
        return parse_hex_color(&hex);
    }
    proof {
        reveal_strlit("rgb(");
        reveal_strlit("rgba(");
    }
    if starts_with(text, "rgb(") && text[n - 1] == ')' {
        assert(text@.take(4)[3] == '(');
        let inner = slice(text, 4, n - 1);
        return parse_rgb_color(&inner);
    }
    if starts_with(text, "rgba(") && text[n - 1] == ')' {
        assert(text@.take(5)[4] == '(');
        let inner = slice(text, 5, n - 1);
        return parse_rgba_color(&inner);
    }
    Err(ImgEditError::InvalidColor(labelled("Unrecognized color format: ", text)))
}

/// The color that a text denotes: a keyword (`black`, `white`, `red`, `green`, `blue`,
/// `yellow`, `cyan`, `magenta`, `transparent`), `#RGB`, `#RGBA`, `#RRGGBB`,
/// `#RRGGBBAA`, `rgb(R,G,B)` or `rgba(R,G,B,A)`, in any case of its letters and with
/// whitespace around it. Anything else is refused as `InvalidColor`, with a message
/// that names what was wrong.
pub fn parse_color(s: &str) -> (res: Result<Rgba, ImgEditError>)
    ensures
        color_agrees(res, parse_color_spec(s@)),
        all_ascii(s@) ==> color_agrees(res, ascii_color_spec(s@)),
{
    let raw = chars_of(s);
    let stripped = trimmed(&raw);
    let text = lowercased(&stripped);
    proof {
        if all_ascii(s@) {
            lemma_trim_keeps_ascii(s@);
        }
    }
    parse_normalized(&text)
}

/// The color of `#RGB` and of `#RGBA`: every channel is 17 times its digit, and the
/// alpha of `#RGB` is 255.
pub open spec fn short_hex_color(hex: Seq<char>) -> Rgba {
    Rgba {
        r: (17 * hex_value(hex[0])->0) as u8,
        g: (17 * hex_value(hex[1])->0) as u8,
        b: (17 * hex_value(hex[2])->0) as u8,
        a: if hex.len() == 4 {
            (17 * hex_value(hex[3])->0) as u8
        } else {
            255
        },
    }
}

/// A `#` followed by three or four hexadecimal digits, of either case, is a text of
/// ASCII characters, and denotes the color whose channels are 17 times the digits. So
/// `parse_color` returns that color for it.
pub proof fn lemma_short_hex_replicates(hex: Seq<char>)
    requires
        hex.len() == 3 || hex.len() == 4,
        forall|i: int| 0 <= i < hex.len() ==> hex_value(#[trigger] hex[i]) is Some,
    ensures
        all_ascii(seq!['#'] + hex),
        ascii_color_spec(seq!['#'] + hex) == Ok::<Rgba, Seq<char>>(short_hex_color(hex)),
{
    let input = seq!['#'] + hex;
    assert(input[0] == '#');
    assert(input.last() == hex.last());
    assert(hex_value(hex[hex.len() - 1]) is Some);
    assert(trim_start(input) == input);
    assert(trim_end(input) == input);
    let s = lower(input);
    assert(s[0] == '#');
    assert(named_color(s) is None) by {
        reveal_strlit("black");
        reveal_strlit("white");
        reveal_strlit("red");
        reveal_strlit("green");
        reveal_strlit("blue");
        reveal_strlit("yellow");
        reveal_strlit("cyan");
        reveal_strlit("magenta");
        reveal_strlit("transparent");
        assert("black"@[0] != '#');
        assert("white"@[0] != '#');
        assert("red"@[0] != '#');
        assert("green"@[0] != '#');
        assert("blue"@[0] != '#');
        assert("yellow"@[0] != '#');
        assert("cyan"@[0] != '#');
        assert("magenta"@[0] != '#');
        assert("transparent"@[0] != '#');
    }
    let low = s.skip(1);
    assert(low =~= lower(hex));
    assert forall|i: int| 0 <= i < hex.len() implies hex_value(#[trigger] low[i]) == hex_value(
        hex[i],
    ) by {
        assert(hex_value(hex[i]) is Some);
        assert(low[i] == ascii_lower(hex[i]));
    }
    assert(hex_value(low[0]) is Some);
    assert(hex_value(low[low.len() - 1]) is Some);
    assert(trim_start(low) == low);
    assert(trim_end(low) == low);
    assert(hex_value(low[0]) == hex_value(hex[0]));
    assert(hex_value(low[1]) == hex_value(hex[1]));
    assert(hex_value(low[2]) == hex_value(hex[2]));
    if hex.len() == 4 {
        assert(hex_value(low[3]) == hex_value(hex[3]));
    }
}

/// What a text denotes is settled by the text alone: of two results that both agree
/// with it, either both are the same color or both are refusals with the same message.
pub proof fn lemma_parse_color_deterministic(
    input: Seq<char>,
    first: Result<Rgba, ImgEditError>,
    second: Result<Rgba, ImgEditError>,
)
    requires
        color_agrees(first, parse_color_spec(input)),
        color_agrees(second, parse_color_spec(input)),
    ensures
        first matches Ok(c) ==> second matches Ok(d) && c == d,
        first matches Err(ImgEditError::InvalidColor(m)) ==> second matches Err(
            ImgEditError::InvalidColor(n),
        ) && m@ == n@,
        first is Ok || first matches Err(ImgEditError::InvalidColor(_)),
{
}

} // verus!
