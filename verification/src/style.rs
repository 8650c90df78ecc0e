//! Colours: which colour a configured colour name means, and colouring text
//! with the `colored` crate.

use colored::Colorize;
use vstd::prelude::*;

use crate::text::same_text;

verus! {

#[verifier::external_type_specification]
#[verifier::external_body]
pub struct ExColoredString(colored::ColoredString);

/// The colours that a colour name can choose.
#[derive(Clone, Copy, Debug, PartialEq, Eq, Structural)]
pub enum TextColor {
    Red,
    Green,
    Yellow,
    Blue,
    Magenta,
    Cyan,
    White,
    Black,
}

/// The colour that a lower-case colour name chooses, if any.
pub open spec fn color_named(lower: Seq<char>) -> Option<TextColor> {
    if lower == "red"@ {
        Some(TextColor::Red)
    } else if lower == "green"@ {
        Some(TextColor::Green)
    } else if lower == "yellow"@ {
        Some(TextColor::Yellow)
    } else if lower == "blue"@ {
        Some(TextColor::Blue)
    } else if lower == "magenta"@ {
        Some(TextColor::Magenta)
    } else if lower == "cyan"@ {
        Some(TextColor::Cyan)
    } else if lower == "white"@ {
        Some(TextColor::White)
    } else if lower == "black"@ {
        Some(TextColor::Black)
    } else {
        None
    }
}

/// The name under which the `colored` crate knows a colour.
pub open spec fn color_word(c: TextColor) -> Seq<char> {
    match c {
        TextColor::Red => "red"@,
        TextColor::Green => "green"@,
        TextColor::Yellow => "yellow"@,
        TextColor::Blue => "blue"@,
        TextColor::Magenta => "magenta"@,
        TextColor::Cyan => "cyan"@,
        TextColor::White => "white"@,
        TextColor::Black => "black"@,
    }
}

impl TextColor {
    /// The name under which the `colored` crate knows this colour.
    pub fn word(&self) -> (r: &'static str)
        ensures
            r@ == color_word(*self),
    {
        match self {
            TextColor::Red => "red",
            TextColor::Green => "green",
            TextColor::Yellow => "yellow",
            TextColor::Blue => "blue",
            TextColor::Magenta => "magenta",
            TextColor::Cyan => "cyan",
            TextColor::White => "white",
            TextColor::Black => "black",
        }
    }
}

/// The colour that a lower-case colour name chooses: one of the eight names
/// `red`, `green`, `yellow`, `blue`, `magenta`, `cyan`, `white`, `black`,
/// and none for any other name.
pub fn color_for_lowercase(lower: &str) -> (r: Option<TextColor>)
    ensures
        r == color_named(lower@),
{
    if same_text(lower, "red") {
        Some(TextColor::Red)
    } else if same_text(lower, "green") {
        Some(TextColor::Green)
    } else if same_text(lower, "yellow") {
        Some(TextColor::Yellow)
    } else if same_text(lower, "blue") {
        Some(TextColor::Blue)
    } else if same_text(lower, "magenta") {
        Some(TextColor::Magenta)
    } else if same_text(lower, "cyan") {
        Some(TextColor::Cyan)
    } else if same_text(lower, "white") {
        Some(TextColor::White)
    } else if same_text(lower, "black") {
        Some(TextColor::Black)
    } else {
        None
    }
}

/// The lower-case form of a text, as `str::to_lowercase` gives it.
pub uninterp spec fn lowercase_of(s: Seq<char>) -> Seq<char>;

/// A character lowered as ASCII: `A` to `Z` become `a` to `z`, any other
/// character stays.
pub open spec fn ascii_lower_char(c: char) -> char {
    if 'A' <= c && c <= 'Z' {
        ((c as u32) + 32) as char
    } else {
        c
    }
}

/// A text lowered as ASCII, character by character.
pub open spec fn ascii_lowercase(s: Seq<char>) -> Seq<char> {
    s.map_values(|c: char| ascii_lower_char(c))
}

/// `str::to_lowercase`, which lowers each character by the Unicode case
/// mappings. Claimed: its result is `lowercase_of` of the text, and on ASCII
/// text it lowers `A` to `Z` to `a` to `z` and keeps every other character,
/// the ASCII case mapping that std's documentation gives. What it gives on
/// other text is left unstated.
#[verifier::external_body]
fn lowercase(s: &str) -> (r: String)
    ensures
        r@ == lowercase_of(s@),
        vstd::utf8::is_ascii_chars(s@) ==> r@ == ascii_lowercase(s@),
{
    s.to_lowercase()
}

/// The colour that a configured colour name chooses, whatever its case.
pub fn color_from_name(color_name: &str) -> (r: Option<TextColor>)
    ensures
        r == color_named(lowercase_of(color_name@)),
        vstd::utf8::is_ascii_chars(color_name@) ==> r == color_named(ascii_lowercase(color_name@)),
{
    let lower = lowercase(color_name);
    color_for_lowercase(lower.as_str())
}

/// Text that `colored` colours with the colour it reads from `color_name`.
pub uninterp spec fn painted(text: Seq<char>, color_name: Seq<char>) -> colored::ColoredString;

/// Text that `colored` shows in the terminal's normal style.
pub uninterp spec fn unpainted(text: Seq<char>) -> colored::ColoredString;

/// `<&str as colored::Colorize>::color`, with the colour given by its name,
/// which `colored` turns into a colour with `From<&str>`. Claimed: the result
/// is `painted` of the text and the name.
#[verifier::external_body]
fn paint(text: &str, color_name: &str) -> (r: colored::ColoredString)
    ensures
        r == painted(text@, color_name@),
{
    text.color(color_name)
}

/// `<&str as colored::Colorize>::normal`. Claimed: the result is `unpainted`
/// of the text.
#[verifier::external_body]
fn plain(text: &str) -> (r: colored::ColoredString)
    ensures
        r == unpainted(text@),
{
    text.normal()
}

/// The text coloured by a configured colour name: with the named colour
/// where the name, in lower case, is one of the eight colour names, and in
/// the normal style otherwise.
pub fn colorize(text: &str, color_name: &str) -> (r: colored::ColoredString)
    ensures
        r == match color_named(lowercase_of(color_name@)) {
            Some(c) => painted(text@, color_word(c)),
            None => unpainted(text@),
        },
        vstd::utf8::is_ascii_chars(color_name@) ==> r == match color_named(
            ascii_lowercase(color_name@),
        ) {
            Some(c) => painted(text@, color_word(c)),
            None => unpainted(text@),
        },
{
    match color_from_name(color_name) {
        Some(c) => paint(text, c.word()),
        None => plain(text),
    }
}

/// A colour name chooses the colour that bears that very name: the name that
/// `colored` is given is the configured name itself (once lowered), each of
/// the eight names chooses a colour, each colour is chosen by its own name,
/// and no other name chooses any.
pub proof fn colour_names_choose_their_colour(w: Seq<char>, c: TextColor)
    ensures
        color_named(w) is Some ==> color_word(color_named(w)->0) == w,
        color_named(color_word(c)) == Some(c),
        color_named(w) is Some <==> (w == "red"@ || w == "green"@ || w == "yellow"@ || w == "blue"@ || w == "magenta"@ || w == "cyan"@ || w == "white"@ || w == "black"@),
        color_word(TextColor::Red) == "red"@,
        color_word(TextColor::Green) == "green"@,
        color_word(TextColor::Yellow) == "yellow"@,
        color_word(TextColor::Blue) == "blue"@,
        color_word(TextColor::Magenta) == "magenta"@,
        color_word(TextColor::Cyan) == "cyan"@,
        color_word(TextColor::White) == "white"@,
        color_word(TextColor::Black) == "black"@,
{
    reveal_strlit("red");
    reveal_strlit("green");
    reveal_strlit("yellow");
    reveal_strlit("blue");
    reveal_strlit("magenta");
    reveal_strlit("cyan");
    reveal_strlit("white");
    reveal_strlit("black");
    assert("red"@.len() == 3 && "green"@.len() == 5 && "yellow"@.len() == 6 && "blue"@.len() == 4);
    assert("magenta"@.len() == 7 && "cyan"@.len() == 4 && "white"@.len() == 5 && "black"@.len() == 5);
    assert("blue"@[0] != "cyan"@[0]);
    assert("green"@[0] != "white"@[0] && "green"@[0] != "black"@[0] && "white"@[0] != "black"@[0]);
}

} // verus!
