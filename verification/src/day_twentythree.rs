//! Fragments of a decorated tree page: presents that change colour,
//! ornaments that blink, and sprinkles placed by the checksums of a lockfile.

use vstd::prelude::*;
use vstd::string::StringExecFns;
use vstd::string::StringSliceAdditionalSpecFns;
use vstd::slice::slice_subrange;
use vstd::utf8::{
    encode_utf8, decode_utf8, is_char_boundary, is_ascii_chars, is_ascii_chars_encode_utf8,
    encode_utf8_decode_utf8,
};
use crate::text::{decimal_text, joined_lines, push_decimal};

verus! {

/// Colour of a present.
#[derive(Clone, Copy, Debug, PartialEq, Eq, Structural)]
pub enum Color {
    Red,
    Blue,
    Purple,
}

/// The colour that follows `color`: red, blue, purple, and red again.
pub open spec fn next_color(color: Color) -> Color {
    match color {
        Color::Red => Color::Blue,
        Color::Blue => Color::Purple,
        Color::Purple => Color::Red,
    }
}

/// Name of a colour, as it stands in class names and paths.
pub open spec fn color_name(color: Color) -> Seq<char> {
    match color {
        Color::Red => "red"@,
        Color::Blue => "blue"@,
        Color::Purple => "purple"@,
    }
}

impl Color {
    pub fn next(self) -> (color: Color)
        ensures
            color == next_color(self),
    {
        match self {
            Color::Red => Color::Blue,
            Color::Blue => Color::Purple,
            Color::Purple => Color::Red,
        }
    }

    pub fn as_str(&self) -> (name: &'static str)
        ensures
            name@ == color_name(*self),
    {
        match self {
            Color::Red => "red",
            Color::Blue => "blue",
            Color::Purple => "purple",
        }
    }
}

/// Three steps through the colours lead back to the start, and no step
/// stays where it is.
pub proof fn lemma_colors_cycle(color: Color)
    ensures
        next_color(next_color(next_color(color))) == color,
        next_color(color) != color,
        next_color(next_color(color)) != color,
{
}

/// The fragment for a present of `color`; a click swaps it for the next
/// colour.
pub open spec fn present_text(color: Color) -> Seq<char> {
    "<div class=\"present "@ + color_name(color) + "\" hx-get=\"/23/present/"@ + color_name(
        next_color(color),
    )
        + "\" hx-swap=\"outerHTML\">\n  <div class=\"ribbon\"></div>\n  <div class=\"ribbon\"></div>\n  <div class=\"ribbon\"></div>\n  <div class=\"ribbon\"></div>\n</div>\n"@
}

/// Renders the fragment for a present of `color`.
pub fn present(color: Color) -> (text: String)
    ensures
        text@ == present_text(color),
{
    let mut out = String::from_str("<div class=\"present ");
    out.append(color.as_str());
    out.append("\" hx-get=\"/23/present/");
    out.append(color.next().as_str());
    out.append(
        "\" hx-swap=\"outerHTML\">\n  <div class=\"ribbon\"></div>\n  <div class=\"ribbon\"></div>\n  <div class=\"ribbon\"></div>\n  <div class=\"ribbon\"></div>\n</div>\n",
    );
    out
}

/// Whether an ornament is lit.
#[derive(Clone, Copy, Debug, PartialEq, Eq, Structural)]
pub enum State {
    On,
    Off,
}

/// The other state.
pub open spec fn next_state(state: State) -> State {
    match state {
        State::On => State::Off,
        State::Off => State::On,
    }
}

/// Name of a state, as it stands in paths.
pub open spec fn state_name(state: State) -> Seq<char> {
    match state {
        State::On => "on"@,
        State::Off => "off"@,
    }
}

/// What a state adds to an ornament's class: a lit ornament has the class
/// `on` besides its own.
pub open spec fn state_class(state: State) -> Seq<char> {
    match state {
        State::On => " on"@,
        State::Off => ""@,
    }
}

impl State {
    pub fn next(self) -> (state: State)
        ensures
            state == next_state(self),
    {
        match self {
            State::On => State::Off,
            State::Off => State::On,
        }
    }

    pub fn as_str(&self) -> (name: &'static str)
        ensures
            name@ == state_name(*self),
    {
        match self {
            State::On => "on",
            State::Off => "off",
        }
    }

    pub fn to_render(&self) -> (class: &'static str)
        ensures
            class@ == state_class(*self),
    {
        match self {
            State::On => " on",
            State::Off => "",
        }
    }
}

/// Switching twice gives the first state back.
pub proof fn lemma_states_alternate(state: State)
    ensures
        next_state(next_state(state)) == state,
        next_state(state) != state,
{
}

/// What stands for one character in escaped text: an entity for each of
/// `&`, `<`, `>`, `"`, `'` and `/`, the character itself otherwise.
pub open spec fn escaped_char(c: char) -> Seq<char> {
    if c == '&' {
        "&amp;"@
    } else if c == '<' {
        "&lt;"@
    } else if c == '>' {
        "&gt;"@
    } else if c == '"' {
        "&quot;"@
    } else if c == '\'' {
        "&#x27;"@
    } else if c == '/' {
        "&#x2F;"@
    } else {
        seq![c]
    }
}

/// A text with each of its characters escaped.
pub open spec fn escaped_text(text: Seq<char>) -> Seq<char>
    decreases text.len(),
{
    if text.len() == 0 {
        Seq::empty()
    } else {
        escaped_text(text.drop_last()) + escaped_char(text.last())
    }
}

/// Escapes a text with `html_escape::encode_safe`, which replaces each of
/// `&`, `<`, `>`, `"`, `'` and `/` by its entity and copies every other
/// character.
#[verifier::external_body]
fn encode_safe(text: &str) -> (out: String)
    ensures
        out@ == escaped_text(text@),
{
    html_escape::encode_safe(text).into_owned()
}

/// The fragment for ornament `n` in `state`; two seconds after it is loaded
/// it asks for its other state. `n` is escaped wherever it stands.
pub open spec fn ornament_text(state: State, n: Seq<char>) -> Seq<char> {
    "<div class=\"ornament"@ + state_class(state) + "\" id=\"ornament"@ + escaped_text(n)
        + "\" hx-trigger=\"load delay:2s once\" hx-get=\"/23/ornament/"@ + state_name(
        next_state(state),
    ) + "/"@ + escaped_text(n) + "\" hx-swap=\"outerHTML\"></div>\n"@
}

/// Renders the fragment for ornament `n` in `state`.
pub fn ornament(state: State, n: &str) -> (text: String)
    ensures
        text@ == ornament_text(state, n@),
{
    let n = encode_safe(n);
    let mut out = String::from_str("<div class=\"ornament");
    out.append(state.to_render());
    out.append("\" id=\"ornament");
    out.append(n.as_str());
    out.append("\" hx-trigger=\"load delay:2s once\" hx-get=\"/23/ornament/");
    out.append(state.next().as_str());
    out.append("/");
    out.append(n.as_str());
    out.append("\" hx-swap=\"outerHTML\"></div>\n");
    out
}

/// One package of a lockfile, as far as the sprinkles need it.
pub struct Package {
    pub checksum: Option<String>,
}

/// A lockfile: its packages in the order of the file.
pub struct Lockfile {
    pub package: Vec<Package>,
}

/// Why a lockfile gives no sprinkles.
#[derive(Clone, Copy, Debug, PartialEq, Eq, Structural)]
pub enum LockfileError {
    /// A checksum cannot be cut after its sixth, eighth and tenth byte.
    InvalidChecksum,
    /// The first six bytes of a checksum are not all hexadecimal digits.
    InvalidColor,
    /// The seventh to tenth byte of a checksum are not all hexadecimal digits.
    InvalidOffset,
}

/// An ASCII hexadecimal digit, in either case.
pub open spec fn is_hex_digit(b: u8) -> bool {
    ||| 0x30 <= b <= 0x39
    ||| 0x41 <= b <= 0x46
    ||| 0x61 <= b <= 0x66
}

/// Value of a hexadecimal digit.
pub open spec fn hex_value(b: u8) -> int {
    if 0x30 <= b <= 0x39 {
        b - 0x30
    } else if 0x41 <= b <= 0x46 {
        b - 0x41 + 10
    } else {
        b - 0x61 + 10
    }
}

/// Every byte is a hexadecimal digit and they come in pairs.
pub open spec fn is_hex_text(data: Seq<u8>) -> bool {
    &&& data.len() % 2 == 0
    &&& forall|i: int| 0 <= i < data.len() ==> is_hex_digit(#[trigger] data[i])
}

/// The bytes that pairs of hexadecimal digits stand for, the first digit of
/// a pair counting sixteenfold.
pub open spec fn hex_bytes(data: Seq<u8>) -> Seq<u8> {
    Seq::new(
        data.len() / 2,
        |i: int| (16 * hex_value(data[2 * i]) + hex_value(data[2 * i + 1])) as u8,
    )
}

/// Decodes hexadecimal digits with `hex::decode`, which accepts an even
/// number of digits of either case and gives one byte for each pair, and
/// refuses anything else.
#[verifier::external_body]
fn hex_decode(data: &[u8]) -> (bytes: Option<Vec<u8>>)
    ensures
        bytes is Some <==> is_hex_text(data@),
        bytes matches Some(b) ==> b@ == hex_bytes(data@),
{
    hex::decode(data).ok()
}

/// The text whose characters are the given ASCII bytes.
pub open spec fn ascii_text(bytes: Seq<u8>) -> Seq<char> {
    Seq::new(bytes.len(), |i: int| bytes[i] as char)
}

/// Bytes below 128 are the encoding of the text that has them as its
/// characters, and of no other.
pub proof fn lemma_ascii_text(bytes: Seq<u8>)
    requires
        forall|i: int| 0 <= i < bytes.len() ==> bytes[i] < 128,
    ensures
        encode_utf8(ascii_text(bytes)) == bytes,
        decode_utf8(bytes) == ascii_text(bytes),
{
    let text = ascii_text(bytes);
    assert(is_ascii_chars(text));
    is_ascii_chars_encode_utf8(text);
    assert forall|i: int| 0 <= i < bytes.len() implies encode_utf8(text)[i] == bytes[i] by {
        assert(text[i] as u8 == encode_utf8(text)[i]);
    }
    assert(encode_utf8(text) =~= bytes);
    encode_utf8_decode_utf8(text);
}

/// A checksum can be cut after its sixth, eighth and tenth byte without
/// splitting a character.
pub open spec fn can_cut(bytes: Seq<u8>) -> bool {
    &&& bytes.len() >= 10
    &&& is_char_boundary(bytes, 6)
    &&& is_char_boundary(bytes, 8)
    &&& is_char_boundary(bytes, 10)
}

/// The sprinkle that a checksum stands for: its first six bytes name the
/// colour, the next two pairs of hexadecimal digits the distance from the top
/// and from the left.
pub open spec fn sprinkle(checksum: Seq<char>) -> Result<Seq<char>, LockfileError> {
    let bytes = encode_utf8(checksum);
    if !can_cut(bytes) {
        Err(LockfileError::InvalidChecksum)
    } else if !is_hex_text(bytes.subrange(0, 6)) {
        Err(LockfileError::InvalidColor)
    } else if !is_hex_text(bytes.subrange(6, 8)) || !is_hex_text(bytes.subrange(8, 10)) {
        Err(LockfileError::InvalidOffset)
    } else {
        Ok(
            "<div style=\"background-color:#"@ + ascii_text(bytes.subrange(0, 6)) + ";top:"@
                + decimal_text(hex_bytes(bytes.subrange(6, 8))[0] as nat) + "px;left:"@
                + decimal_text(hex_bytes(bytes.subrange(8, 10))[0] as nat) + "px;\"></div>"@,
        )
    }
}

/// Renders the sprinkle of one checksum.
pub fn render_sprinkle(checksum: &str) -> (res: Result<String, LockfileError>)
    ensures
        match sprinkle(checksum@) {
            Ok(text) => res matches Ok(t) && t@ == text,
            Err(e) => res == Err::<String, LockfileError>(e),
        },
{
    broadcast use {encode_utf8_decode_utf8, vstd::utf8::encode_utf8_valid_utf8};

    let bytes = checksum.as_bytes();
    if bytes.len() < 10 || !checksum.is_char_boundary(6) || !checksum.is_char_boundary(8)
        || !checksum.is_char_boundary(10) {
        return Err(LockfileError::InvalidChecksum);
    }
    let mut i: usize = 0;
    while i < 6
        invariant
            i <= 6,
            bytes@ == encode_utf8(checksum@),
            can_cut(bytes@),
            forall|j: int| 0 <= j < i ==> is_hex_digit(#[trigger] bytes@[j]),
        decreases 6 - i,
    {
        if !is_ascii_hex_digit(bytes[i]) {
            assert(!is_hex_digit(bytes@.subrange(0, 6)[i as int]));
            return Err(LockfileError::InvalidColor);
        }
        i += 1;
    }
    assert(is_hex_text(bytes@.subrange(0, 6)));
    let (color, _) = checksum.split_at(6);
    assert(color@ == ascii_text(bytes@.subrange(0, 6))) by {
        assert(color.spec_bytes() == encode_utf8(color@));
        lemma_ascii_text(bytes@.subrange(0, 6));
    }
    let top = hex_decode(slice_subrange(bytes, 6, 8));
    let left = hex_decode(slice_subrange(bytes, 8, 10));
    match (top, left) {
        (Some(top), Some(left)) => {
            let mut out = String::from_str("<div style=\"background-color:#");
            out.append(color);
            out.append(";top:");
            push_decimal(&mut out, top[0] as u32);
            out.append("px;left:");
            push_decimal(&mut out, left[0] as u32);
            out.append("px;\"></div>");
            Ok(out)
        },
        _ => Err(LockfileError::InvalidOffset),
    }
}

/// Tells whether a byte is an ASCII hexadecimal digit.
fn is_ascii_hex_digit(b: u8) -> (yes: bool)
    ensures
        yes == is_hex_digit(b),
{
    (0x30 <= b && b <= 0x39) || (0x41 <= b && b <= 0x46) || (0x61 <= b && b <= 0x66)
}

/// The sprinkles of the first `n` packages, one for each package that has a
/// checksum, or the error of the first checksum that gives none.
pub open spec fn sprinkle_lines(packages: Seq<Package>, n: int) -> Result<
    Seq<Seq<char>>,
    LockfileError,
>
    decreases n,
{
    if n <= 0 {
        Ok(Seq::empty())
    } else {
        match sprinkle_lines(packages, n - 1) {
            Err(e) => Err(e),
            Ok(lines) => match packages[n - 1].checksum {
                None => Ok(lines),
                Some(sum) => match sprinkle(sum@) {
                    Err(e) => Err(e),
                    Ok(line) => Ok(lines.push(line)),
                },
            },
        }
    }
}

/// Renders the sprinkles of a lockfile, one line for each package with a
/// checksum. The first checksum that gives no sprinkle decides the error.
pub fn lockfile(file: &Lockfile) -> (res: Result<String, LockfileError>)
    ensures
        match sprinkle_lines(file.package@, file.package@.len() as int) {
            Ok(lines) => res matches Ok(t) && t@ == joined_lines(lines),
            Err(e) => res == Err::<String, LockfileError>(e),
        },
{
    let mut out = String::new();
    let mut first = true;
    let ghost mut lines: Seq<Seq<char>> = Seq::empty();
    let mut i: usize = 0;
    while i < file.package.len()
        invariant
            i <= file.package@.len(),
            sprinkle_lines(file.package@, i as int) == Ok::<Seq<Seq<char>>, LockfileError>(lines),
            out@ == joined_lines(lines),
            first == (lines.len() == 0),
        decreases file.package@.len() - i,
    {
        match &file.package[i].checksum {
            None => {},
            Some(sum) => {
                match render_sprinkle(sum.as_str()) {
                    Err(e) => {
                        assert(sprinkle_lines(file.package@, i + 1) == Err::<
                            Seq<Seq<char>>,
                            LockfileError,
                        >(e));
                        proof {
                            lemma_error_stays(file.package@, i + 1, file.package@.len() as int);
                        }
                        return Err(e);
                    },
                    Ok(line) => {
                        if first {
                            first = false;
                        } else {
                            out.append("\n");
                        }
                        out.append(line.as_str());
                        proof {
                            assert(lines.push(line@).drop_last() =~= lines);
                            lines = lines.push(line@);
                        }
                    },
                }
            },
        }
        i += 1;
    }
    Ok(out)
}

/// Once a checksum has given an error, more packages do not change it.
pub proof fn lemma_error_stays(packages: Seq<Package>, n: int, m: int)
    requires
        n <= m,
        sprinkle_lines(packages, n) is Err,
    ensures
        sprinkle_lines(packages, m) == sprinkle_lines(packages, n),
    decreases m - n,
{
    if n < m {
        lemma_error_stays(packages, n, m - 1);
    }
}

} // verus!
