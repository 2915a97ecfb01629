//! Terminal colours: the palette, its text forms, and parsing of colour names.
use vstd::prelude::*;
use vstd::string::*;
use vstd::utf8::is_ascii_chars;

use crate::text::same_text;

verus! {

/// A display colour: the sixteen ANSI colours, the terminal's default, a 24-bit
/// colour or an entry of the 256-colour table.
#[derive(Clone, Copy, Debug, PartialEq, Eq, Structural)]
pub enum Color {
    Reset,
    Black,
    Red,
    Green,
    Yellow,
    Blue,
    Magenta,
    Cyan,
    Gray,
    DarkGray,
    LightRed,
    LightGreen,
    LightYellow,
    LightBlue,
    LightMagenta,
    LightCyan,
    White,
    Rgb(u8, u8, u8),
    Indexed(u8),
}

/// The name of a colour that has one; empty for `Rgb` and `Indexed`.
pub open spec fn name_of(c: Color) -> Seq<char> {
    match c {
        Color::Reset => "Reset"@,
        Color::Black => "Black"@,
        Color::Red => "Red"@,
        Color::Green => "Green"@,
        Color::Yellow => "Yellow"@,
        Color::Blue => "Blue"@,
        Color::Magenta => "Magenta"@,
        Color::Cyan => "Cyan"@,
        Color::Gray => "Gray"@,
        Color::DarkGray => "DarkGray"@,
        Color::LightRed => "LightRed"@,
        Color::LightGreen => "LightGreen"@,
        Color::LightYellow => "LightYellow"@,
        Color::LightBlue => "LightBlue"@,
        Color::LightMagenta => "LightMagenta"@,
        Color::LightCyan => "LightCyan"@,
        Color::White => "White"@,
        _ => Seq::empty(),
    }
}

pub open spec fn is_named(c: Color) -> bool {
    !(c is Rgb) && !(c is Indexed)
}

/// The colour whose name is `t`, if any.
pub open spec fn named_color_of(t: Seq<char>) -> Option<Color> {
    if t == "Reset"@ {
        Some(Color::Reset)
    } else if t == "Black"@ {
        Some(Color::Black)
    } else if t == "Red"@ {
        Some(Color::Red)
    } else if t == "Green"@ {
        Some(Color::Green)
    } else if t == "Yellow"@ {
        Some(Color::Yellow)
    } else if t == "Blue"@ {
        Some(Color::Blue)
    } else if t == "Magenta"@ {
        Some(Color::Magenta)
    } else if t == "Cyan"@ {
        Some(Color::Cyan)
    } else if t == "Gray"@ {
        Some(Color::Gray)
    } else if t == "DarkGray"@ {
        Some(Color::DarkGray)
    } else if t == "LightRed"@ {
        Some(Color::LightRed)
    } else if t == "LightGreen"@ {
        Some(Color::LightGreen)
    } else if t == "LightYellow"@ {
        Some(Color::LightYellow)
    } else if t == "LightBlue"@ {
        Some(Color::LightBlue)
    } else if t == "LightMagenta"@ {
        Some(Color::LightMagenta)
    } else if t == "LightCyan"@ {
        Some(Color::LightCyan)
    } else if t == "White"@ {
        Some(Color::White)
    } else {
        None
    }
}

/// The decimal digit `d`.
pub open spec fn digit(d: int) -> char {
    seq!['0', '1', '2', '3', '4', '5', '6', '7', '8', '9'][d]
}

/// `n` written in decimal, without leading zeros.
pub open spec fn dec(n: u8) -> Seq<char> {
    let v = n as int;
    if v < 10 {
        seq![digit(v)]
    } else if v < 100 {
        seq![digit(v / 10), digit(v % 10)]
    } else {
        seq![digit(v / 100), digit((v / 10) % 10), digit(v % 10)]
    }
}

/// The text that `{:?}` gives for a colour.
pub open spec fn debug_text(c: Color) -> Seq<char> {
    match c {
        Color::Rgb(r, g, b) => "Rgb("@ + dec(r) + ", "@ + dec(g) + ", "@ + dec(b) + ")"@,
        Color::Indexed(i) => "Indexed("@ + dec(i) + ")"@,
        _ => name_of(c),
    }
}

pub open spec fn is_digit(c: char) -> bool {
    '0' <= c && c <= '9'
}

pub open spec fn digit_value(c: char) -> int {
    c as u32 as int - '0' as u32 as int
}

/// The number that a run of decimal digits writes.
pub open spec fn digits_value(t: Seq<char>) -> int
    decreases t.len(),
{
    if t.len() == 0 {
        0
    } else {
        digits_value(t.drop_last()) * 10 + digit_value(t.last())
    }
}

/// `t` is a number from 0 to 255 in decimal, without leading zeros.
pub open spec fn is_dec_u8(t: Seq<char>) -> bool {
    &&& 1 <= t.len() <= 3
    &&& forall|k: int| 0 <= k < t.len() ==> is_digit(#[trigger] t[k])
    &&& (t.len() > 1 ==> t[0] != '0')
    &&& digits_value(t) <= 255
}

pub open spec fn is_upper_hex(c: char) -> bool {
    is_digit(c) || ('A' <= c && c <= 'F')
}

pub open spec fn hex_value(c: char) -> int {
    if is_digit(c) {
        digit_value(c)
    } else {
        c as u32 as int - 'A' as u32 as int + 10
    }
}

/// `t` is `#` and six upper-case hexadecimal digits.
pub open spec fn is_hex_rgb(t: Seq<char>) -> bool {
    &&& t.len() == 7
    &&& t[0] == '#'
    &&& forall|k: int| 1 <= k < 7 ==> is_upper_hex(#[trigger] t[k])
}

/// The byte that the two hexadecimal digits at `k` and `k + 1` write.
pub open spec fn hex_byte(t: Seq<char>, k: int) -> u8 {
    (hex_value(t[k]) * 16 + hex_value(t[k + 1])) as u8
}

/// The colour that its display text `t` stands for: a name, a table index in
/// decimal, or `#RRGGBB`.
pub open spec fn color_of_display(t: Seq<char>) -> Option<Color> {
    if named_color_of(t) is Some {
        named_color_of(t)
    } else if is_dec_u8(t) {
        Some(Color::Indexed(digits_value(t) as u8))
    } else if is_hex_rgb(t) {
        Some(Color::Rgb(hex_byte(t, 1), hex_byte(t, 3), hex_byte(t, 5)))
    } else {
        None
    }
}

/// The upper-case hexadecimal digit `d`.
pub open spec fn hex_digit(d: int) -> char {
    seq!['0', '1', '2', '3', '4', '5', '6', '7', '8', '9', 'A', 'B', 'C', 'D', 'E', 'F'][d]
}

/// `n` as two upper-case hexadecimal digits.
pub open spec fn hex2(n: u8) -> Seq<char> {
    seq![hex_digit(n as int / 16), hex_digit(n as int % 16)]
}

/// The text that the terminal library's `Display` gives for a colour: its name,
/// `#RRGGBB`, or the table index in decimal.
pub open spec fn display_text(c: Color) -> Seq<char> {
    match c {
        Color::Rgb(r, g, b) => seq!['#'] + hex2(r) + hex2(g) + hex2(b),
        Color::Indexed(i) => dec(i),
        _ => name_of(c),
    }
}

proof fn lemma_digit(d: int)
    requires
        0 <= d < 10,
    ensures
        is_digit(digit(d)),
        digit_value(digit(d)) == d,
{
    if d == 0 {
        assert(digit(d) == '0');
    } else if d == 1 {
        assert(digit(d) == '1');
    } else if d == 2 {
        assert(digit(d) == '2');
    } else if d == 3 {
        assert(digit(d) == '3');
    } else if d == 4 {
        assert(digit(d) == '4');
    } else if d == 5 {
        assert(digit(d) == '5');
    } else if d == 6 {
        assert(digit(d) == '6');
    } else if d == 7 {
        assert(digit(d) == '7');
    } else if d == 8 {
        assert(digit(d) == '8');
    } else if d == 9 {
        assert(digit(d) == '9');
    }
}

proof fn lemma_hex_digit(d: int)
    requires
        0 <= d < 16,
    ensures
        is_upper_hex(hex_digit(d)),
        hex_value(hex_digit(d)) == d,
{
    if d == 0 {
        assert(hex_digit(d) == '0');
    } else if d == 1 {
        assert(hex_digit(d) == '1');
    } else if d == 2 {
        assert(hex_digit(d) == '2');
    } else if d == 3 {
        assert(hex_digit(d) == '3');
    } else if d == 4 {
        assert(hex_digit(d) == '4');
    } else if d == 5 {
        assert(hex_digit(d) == '5');
    } else if d == 6 {
        assert(hex_digit(d) == '6');
    } else if d == 7 {
        assert(hex_digit(d) == '7');
    } else if d == 8 {
        assert(hex_digit(d) == '8');
    } else if d == 9 {
        assert(hex_digit(d) == '9');
    } else if d == 10 {
        assert(hex_digit(d) == 'A');
    } else if d == 11 {
        assert(hex_digit(d) == 'B');
    } else if d == 12 {
        assert(hex_digit(d) == 'C');
    } else if d == 13 {
        assert(hex_digit(d) == 'D');
    } else if d == 14 {
        assert(hex_digit(d) == 'E');
    } else if d == 15 {
        assert(hex_digit(d) == 'F');
    }
}

/// No colour's name starts with a digit or with `#`.
proof fn lemma_not_named(t: Seq<char>)
    requires
        t.len() > 0,
        is_digit(t[0]) || t[0] == '#',
    ensures
        named_color_of(t) is None,
{
    reveal_strlit("Reset");
    reveal_strlit("Black");
    reveal_strlit("Red");
    reveal_strlit("Green");
    reveal_strlit("Yellow");
    reveal_strlit("Blue");
    reveal_strlit("Magenta");
    reveal_strlit("Cyan");
    reveal_strlit("Gray");
    reveal_strlit("DarkGray");
    reveal_strlit("LightRed");
    reveal_strlit("LightGreen");
    reveal_strlit("LightYellow");
    reveal_strlit("LightBlue");
    reveal_strlit("LightMagenta");
    reveal_strlit("LightCyan");
    reveal_strlit("White");
}

/// The lengths and a few letters of the colour names, enough to tell them apart.
proof fn lemma_name_letters()
    ensures
        "Reset"@.len() == 5,
        "Reset"@[0] == 'R',
        "Black"@.len() == 5,
        "Black"@[0] == 'B',
        "Red"@.len() == 3,
        "Red"@[0] == 'R',
        "Green"@.len() == 5,
        "Green"@[0] == 'G',
        "Yellow"@.len() == 6,
        "Yellow"@[0] == 'Y',
        "Yellow"@[5] == 'w',
        "Blue"@.len() == 4,
        "Blue"@[0] == 'B',
        "Magenta"@.len() == 7,
        "Magenta"@[0] == 'M',
        "Magenta"@[5] == 't',
        "Cyan"@.len() == 4,
        "Cyan"@[0] == 'C',
        "Gray"@.len() == 4,
        "Gray"@[0] == 'G',
        "DarkGray"@.len() == 8,
        "DarkGray"@[0] == 'D',
        "DarkGray"@[5] == 'r',
        "LightRed"@.len() == 8,
        "LightRed"@[0] == 'L',
        "LightRed"@[5] == 'R',
        "LightGreen"@.len() == 10,
        "LightGreen"@[0] == 'L',
        "LightGreen"@[5] == 'G',
        "LightYellow"@.len() == 11,
        "LightYellow"@[0] == 'L',
        "LightYellow"@[5] == 'Y',
        "LightBlue"@.len() == 9,
        "LightBlue"@[0] == 'L',
        "LightBlue"@[5] == 'B',
        "LightMagenta"@.len() == 12,
        "LightMagenta"@[0] == 'L',
        "LightMagenta"@[5] == 'M',
        "LightCyan"@.len() == 9,
        "LightCyan"@[0] == 'L',
        "LightCyan"@[5] == 'C',
        "White"@.len() == 5,
        "White"@[0] == 'W',
{
    reveal_strlit("Reset");
    reveal_strlit("Black");
    reveal_strlit("Red");
    reveal_strlit("Green");
    reveal_strlit("Yellow");
    reveal_strlit("Blue");
    reveal_strlit("Magenta");
    reveal_strlit("Cyan");
    reveal_strlit("Gray");
    reveal_strlit("DarkGray");
    reveal_strlit("LightRed");
    reveal_strlit("LightGreen");
    reveal_strlit("LightYellow");
    reveal_strlit("LightBlue");
    reveal_strlit("LightMagenta");
    reveal_strlit("LightCyan");
    reveal_strlit("White");
}

/// Each colour's name leads back to that colour.
proof fn lemma_named_round_trip(c: Color)
    requires
        is_named(c),
    ensures
        named_color_of(name_of(c)) == Some(c),
{
    lemma_name_letters();
}

proof fn lemma_dec_round_trip(n: u8)
    ensures
        is_dec_u8(dec(n)),
        digits_value(dec(n)) == n as int,
{
    let t = dec(n);
    let v = n as int;
    let e = Seq::<char>::empty();
    assert(digits_value(e) == 0);
    if v < 10 {
        lemma_digit(v);
        assert(t.drop_last() =~= e);
        assert(digits_value(t) == digits_value(t.drop_last()) * 10 + digit_value(t.last()));
        assert(forall|k: int| 0 <= k < t.len() ==> is_digit(#[trigger] t[k]));
    } else if v < 100 {
        lemma_digit(v / 10);
        lemma_digit(v % 10);
        let a = seq![digit(v / 10)];
        assert(t.drop_last() =~= a);
        assert(a.drop_last() =~= e);
        assert(digits_value(a) == digits_value(a.drop_last()) * 10 + digit_value(a.last()));
        assert(digits_value(t) == digits_value(a) * 10 + digit_value(t.last()));
        assert(t[0] == digit(v / 10) && t[1] == digit(v % 10));
        assert(forall|k: int| 0 <= k < t.len() ==> is_digit(#[trigger] t[k]));
        assert(t[0] != '0') by {
            assert(digit_value(t[0]) == v / 10);
        }
    } else {
        lemma_digit(v / 100);
        lemma_digit((v / 10) % 10);
        lemma_digit(v % 10);
        let a = seq![digit(v / 100)];
        let ab = seq![digit(v / 100), digit((v / 10) % 10)];
        assert(t.drop_last() =~= ab);
        assert(ab.drop_last() =~= a);
        assert(a.drop_last() =~= e);
        assert(digits_value(a) == digits_value(a.drop_last()) * 10 + digit_value(a.last()));
        assert(digits_value(ab) == digits_value(a) * 10 + digit_value(ab.last()));
        assert(digits_value(t) == digits_value(ab) * 10 + digit_value(t.last()));
        assert(t[0] == digit(v / 100) && t[1] == digit((v / 10) % 10) && t[2] == digit(v % 10));
        assert(forall|k: int| 0 <= k < t.len() ==> is_digit(#[trigger] t[k]));
        assert(t[0] != '0') by {
            assert(digit_value(t[0]) == v / 100);
        }
    }
}

/// Reading back the display text of any colour gives that colour.
pub proof fn law_display_round_trip(c: Color)
    ensures
        color_of_display(display_text(c)) == Some(c),
{
    match c {
        Color::Indexed(i) => {
            lemma_dec_round_trip(i);
            lemma_not_named(dec(i));
        },
        Color::Rgb(r, g, b) => {
            let t = display_text(c);
            lemma_not_named(t);
            lemma_hex_digit(r as int / 16);
            lemma_hex_digit(r as int % 16);
            lemma_hex_digit(g as int / 16);
            lemma_hex_digit(g as int % 16);
            lemma_hex_digit(b as int / 16);
            lemma_hex_digit(b as int % 16);
            assert(t[1] == hex_digit(r as int / 16));
            assert(t[2] == hex_digit(r as int % 16));
            assert(t[3] == hex_digit(g as int / 16));
            assert(t[4] == hex_digit(g as int % 16));
            assert(t[5] == hex_digit(b as int / 16));
            assert(t[6] == hex_digit(b as int % 16));
            assert(!is_digit(t[0]));
        },
        _ => {
            lemma_named_round_trip(c);
        },
    }
}

/// What the terminal library's colour parser makes of `s`, given as the display
/// text of the colour it found.
pub uninterp spec fn color_display_of(s: Seq<char>) -> Option<Seq<char>>;

/// The name of a named colour in lower case, as the terminal library's parser
/// matches it; empty for `Rgb` and `Indexed`.
pub open spec fn lower_name_of(c: Color) -> Seq<char> {
    match c {
        Color::Reset => "reset"@,
        Color::Black => "black"@,
        Color::Red => "red"@,
        Color::Green => "green"@,
        Color::Yellow => "yellow"@,
        Color::Blue => "blue"@,
        Color::Magenta => "magenta"@,
        Color::Cyan => "cyan"@,
        Color::Gray => "gray"@,
        Color::DarkGray => "darkgray"@,
        Color::LightRed => "lightred"@,
        Color::LightGreen => "lightgreen"@,
        Color::LightYellow => "lightyellow"@,
        Color::LightBlue => "lightblue"@,
        Color::LightMagenta => "lightmagenta"@,
        Color::LightCyan => "lightcyan"@,
        Color::White => "white"@,
        _ => Seq::empty(),
    }
}

/// The first letters of the lower-case colour names.
proof fn lemma_lower_name_letters()
    ensures
        "reset"@[0] == 'r',
        "black"@[0] == 'b',
        "red"@[0] == 'r',
        "green"@[0] == 'g',
        "yellow"@[0] == 'y',
        "blue"@[0] == 'b',
        "magenta"@[0] == 'm',
        "cyan"@[0] == 'c',
        "gray"@[0] == 'g',
        "darkgray"@[0] == 'd',
        "lightred"@[0] == 'l',
        "lightgreen"@[0] == 'l',
        "lightyellow"@[0] == 'l',
        "lightblue"@[0] == 'l',
        "lightmagenta"@[0] == 'l',
        "lightcyan"@[0] == 'l',
        "white"@[0] == 'w',
{
    reveal_strlit("reset");
    reveal_strlit("black");
    reveal_strlit("red");
    reveal_strlit("green");
    reveal_strlit("yellow");
    reveal_strlit("blue");
    reveal_strlit("magenta");
    reveal_strlit("cyan");
    reveal_strlit("gray");
    reveal_strlit("darkgray");
    reveal_strlit("lightred");
    reveal_strlit("lightgreen");
    reveal_strlit("lightyellow");
    reveal_strlit("lightblue");
    reveal_strlit("lightmagenta");
    reveal_strlit("lightcyan");
    reveal_strlit("white");
}

/// A lower-case colour name is read as that colour.
pub proof fn lemma_lower_name_parses(c: Color)
    requires
        is_named(c),
        color_display_of(lower_name_of(c)) == Some(name_of(c)),
    ensures
        color_from_text(lower_name_of(c)) == Some(c),
        debug_text(c) == name_of(c),
{
    lemma_lower_name_letters();
    law_display_round_trip(c);
}

/// `s` starts with `#` and holds a character beyond ASCII. The terminal library
/// slices such text by bytes, which may split a character, and never reads a colour
/// from it.
pub open spec fn is_hash_non_ascii(s: Seq<char>) -> bool {
    s.len() > 0 && s[0] == '#' && !is_ascii_chars(s)
}

/// The colour that `s` names, as the terminal library reads colour names.
pub open spec fn color_from_text(s: Seq<char>) -> Option<Color> {
    if is_hash_non_ascii(s) {
        None
    } else {
        match color_display_of(s) {
            Some(t) => color_of_display(t),
            None => None,
        }
    }
}

/// Relies on `FromStr for ratatui::style::Color` to read a colour name, and on its
/// `Display` to hand the colour found back as text: its name, `#RRGGBB` in upper
/// case, or its table index in decimal. Text that starts with `#` and is not ASCII
/// is kept from it: the parser slices it by bytes and can panic there.
#[verifier::external_body]
fn parse_color_display(s: &str) -> (r: Option<String>)
    requires
        !is_hash_non_ascii(s@),
    ensures
        (r is None) == (color_display_of(s@) is None),
        r matches Some(t) ==> color_display_of(s@) == Some(t@),
        r matches Some(t) ==> exists|c: Color| display_text(c) == t@,
        forall|c: Color|
            is_named(c) && s@ == lower_name_of(c) ==> r is Some && r->0@ == name_of(c),
{
    match s.parse::<ratatui::style::Color>() {
        Ok(c) => Some(c.to_string()),
        Err(_) => None,
    }
}

/// The named colour called `t`, if any.
fn named_color(t: &str) -> (r: Option<Color>)
    ensures
        r == named_color_of(t@),
{
    if same_text(t, "Reset") {
        Some(Color::Reset)
    } else if same_text(t, "Black") {
        Some(Color::Black)
    } else if same_text(t, "Red") {
        Some(Color::Red)
    } else if same_text(t, "Green") {
        Some(Color::Green)
    } else if same_text(t, "Yellow") {
        Some(Color::Yellow)
    } else if same_text(t, "Blue") {
        Some(Color::Blue)
    } else if same_text(t, "Magenta") {
        Some(Color::Magenta)
    } else if same_text(t, "Cyan") {
        Some(Color::Cyan)
    } else if same_text(t, "Gray") {
        Some(Color::Gray)
    } else if same_text(t, "DarkGray") {
        Some(Color::DarkGray)
    } else if same_text(t, "LightRed") {
        Some(Color::LightRed)
    } else if same_text(t, "LightGreen") {
        Some(Color::LightGreen)
    } else if same_text(t, "LightYellow") {
        Some(Color::LightYellow)
    } else if same_text(t, "LightBlue") {
        Some(Color::LightBlue)
    } else if same_text(t, "LightMagenta") {
        Some(Color::LightMagenta)
    } else if same_text(t, "LightCyan") {
        Some(Color::LightCyan)
    } else if same_text(t, "White") {
        Some(Color::White)
    } else {
        None
    }
}

fn char_digit_value(c: char) -> (r: u32)
    requires
        is_digit(c),
    ensures
        r as int == digit_value(c),
        r < 10,
{
    (c as u32) - ('0' as u32)
}

/// The number from 0 to 255 that `t` writes in decimal, if it is one.
fn parse_dec_u8(t: &str) -> (r: Option<u8>)
    ensures
        r == (if is_dec_u8(t@) {
            Some(digits_value(t@) as u8)
        } else {
            None::<u8>
        }),
{
    let n = t.unicode_len();
    if n == 0 || n > 3 {
        return None;
    }
    let mut v: u32 = 0;
    let mut i: usize = 0;
    assert(t@.take(0) =~= Seq::<char>::empty());
    while i < n
        invariant
            n == t@.len(),
            1 <= n <= 3,
            i <= n,
            v as int == digits_value(t@.take(i as int)),
            v < 1000,
            i == 0 ==> v == 0,
            i == 1 ==> v < 10,
            i == 2 ==> v < 100,
            forall|k: int| 0 <= k < i ==> is_digit(#[trigger] t@[k]),
        decreases n - i,
    {
        let c = t.get_char(i);
        if !('0' <= c && c <= '9') {
            return None;
        }
        assert(t@.take(i + 1).drop_last() =~= t@.take(i as int));
        v = v * 10 + char_digit_value(c);
        i = i + 1;
    }
    assert(t@.take(n as int) =~= t@);
    if n > 1 && t.get_char(0) == '0' {
        return None;
    }
    if v > 255 {
        return None;
    }
    Some(v as u8)
}

fn hex_digit_value(c: char) -> (r: Option<u32>)
    ensures
        (r is Some) == is_upper_hex(c),
        r matches Some(x) ==> x as int == hex_value(c) && x < 16,
{
    if '0' <= c && c <= '9' {
        Some((c as u32) - ('0' as u32))
    } else if 'A' <= c && c <= 'F' {
        Some((c as u32) - ('A' as u32) + 10)
    } else {
        None
    }
}

/// The byte that the hexadecimal digits at `k` and `k + 1` of `t` write.
fn parse_hex_byte(t: &str, k: usize) -> (r: Option<u8>)
    requires
        t@.len() == 7,
        1 <= k <= 5,
    ensures
        (r is Some) == (is_upper_hex(t@[k as int]) && is_upper_hex(t@[k + 1])),
        r matches Some(x) ==> x == hex_byte(t@, k as int),
{
    let hi = hex_digit_value(t.get_char(k));
    let lo = hex_digit_value(t.get_char(k + 1));
    match (hi, lo) {
        (Some(h), Some(l)) => Some((h * 16 + l) as u8),
        _ => None,
    }
}

/// The colour that the display text `t` stands for.
pub fn color_from_display(t: &str) -> (r: Option<Color>)
    ensures
        r == color_of_display(t@),
{
    let named = named_color(t);
    if named.is_some() {
        return named;
    }
    let idx = parse_dec_u8(t);
    if let Some(i) = idx {
        return Some(Color::Indexed(i));
    }
    if t.unicode_len() != 7 || t.get_char(0) != '#' {
        return None;
    }
    let r = parse_hex_byte(t, 1);
    let g = parse_hex_byte(t, 3);
    let b = parse_hex_byte(t, 5);
    match (r, g, b) {
        (Some(r), Some(g), Some(b)) => {
            assert forall|k: int| 1 <= k < 7 implies is_upper_hex(#[trigger] t@[k]) by {
                if k == 2 || k == 4 || k == 6 {
                    assert(is_upper_hex(t@[k - 1 + 1]));
                }
            }
            Some(Color::Rgb(r, g, b))
        },
        _ => None,
    }
}

/// The colour that `s` names, as the terminal library reads colour names (any
/// case; spaces, `-` and `_` ignored; a table index; `#RRGGBB`).
/// Text that starts with `#` and is not ASCII names no colour.
pub fn parse_color(s: &str) -> (r: Option<Color>)
    ensures
        r == color_from_text(s@),
        is_hash_non_ascii(s@) ==> r is None,
        !is_hash_non_ascii(s@) ==> (r is Some) == (color_display_of(s@) is Some),
        r matches Some(c) ==> color_display_of(s@) == Some(display_text(c)),
        forall|c: Color| is_named(c) && s@ == lower_name_of(c) ==> r == Some(c),
{
    proof {
        lemma_lower_name_letters();
    }
    if s.unicode_len() > 0 && s.get_char(0) == '#' && !s.is_ascii() {
        return None;
    }
    match parse_color_display(s) {
        Some(t) => {
            let ghost c = choose|c: Color| display_text(c) == t@;
            proof {
                law_display_round_trip(c);
                assert forall|d: Color| is_named(d) && s@ == lower_name_of(d) implies color_from_text(
                    s@,
                ) == Some(d) by {
                    lemma_lower_name_parses(d);
                }
            }
            color_from_display(t.as_str())
        },
        None => None,
    }
}

/// The name of a named colour.
fn name_str(c: Color) -> (r: &'static str)
    requires
        is_named(c),
    ensures
        r@ == name_of(c),
{
    match c {
        Color::Reset => "Reset",
        Color::Black => "Black",
        Color::Red => "Red",
        Color::Green => "Green",
        Color::Yellow => "Yellow",
        Color::Blue => "Blue",
        Color::Magenta => "Magenta",
        Color::Cyan => "Cyan",
        Color::Gray => "Gray",
        Color::DarkGray => "DarkGray",
        Color::LightRed => "LightRed",
        Color::LightGreen => "LightGreen",
        Color::LightYellow => "LightYellow",
        Color::LightBlue => "LightBlue",
        Color::LightMagenta => "LightMagenta",
        Color::LightCyan => "LightCyan",
        Color::White => "White",
        _ => "",
    }
}

/// Appends `n` in decimal to `s`.
fn push_dec(s: &mut String, n: u8)
    ensures
        final(s)@ == old(s)@ + dec(n),
{
    let digits = "0123456789";
    proof {
        reveal_strlit("0123456789");
        assert(digits@ =~= seq!['0', '1', '2', '3', '4', '5', '6', '7', '8', '9']);
    }
    if n >= 100 {
        let d = (n / 100) as usize;
        s.append(digits.substring_char(d, d + 1));
    }
    if n >= 10 {
        let d = ((n / 10) % 10) as usize;
        s.append(digits.substring_char(d, d + 1));
    }
    let d = (n % 10) as usize;
    s.append(digits.substring_char(d, d + 1));
    assert(final(s)@ =~= old(s)@ + dec(n));
}

impl Color {
    /// The text that `{:?}` gives for this colour: its name, `Rgb(r, g, b)` or
    /// `Indexed(i)`.
    pub fn debug_label(&self) -> (r: String)
        ensures
            r@ == debug_text(*self),
    {
        match *self {
            Color::Rgb(r, g, b) => {
                let mut s = String::from_str("Rgb(");
                push_dec(&mut s, r);
                s.append(", ");
                push_dec(&mut s, g);
                s.append(", ");
                push_dec(&mut s, b);
                s.append(")");
                assert(s@ =~= debug_text(*self));
                s
            },
            Color::Indexed(i) => {
                let mut s = String::from_str("Indexed(");
                push_dec(&mut s, i);
                s.append(")");
                assert(s@ =~= debug_text(*self));
                s
            },
            c => String::from_str(name_str(c)),
        }
    }
}

} // verus!
