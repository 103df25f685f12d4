use vstd::prelude::*;
use vstd::string::*;

verus! {

/// A colour as red, green and blue channels.
#[derive(Clone, Copy, Debug, PartialEq, Eq, Structural)]
pub struct Rgb {
    pub r: u8,
    pub g: u8,
    pub b: u8,
}

/// Why a colour string was refused.
#[derive(Clone, Copy, Debug, PartialEq, Eq, Structural)]
pub enum ColourError {
    /// The colour pattern could not be built.
    Pattern,
    /// The string does not start with `#` and six hex digits.
    NoMatch,
    /// The pattern matched, yet a channel is not two hex digits.
    BadDigit,
}

/// Whether the regex engine accepts `pattern`.
pub uninterp spec fn pattern_compiles(pattern: Seq<char>) -> bool;

/// Whether `pattern` matches somewhere in `haystack`.
pub uninterp spec fn pattern_found(pattern: Seq<char>, haystack: Seq<char>) -> bool;

/// Relies on `regex::Regex::new`, which fails only for a pattern it refuses,
/// and `regex::Regex::is_match`, which tells whether the compiled pattern
/// matches anywhere in the haystack.
#[verifier::external_body]
fn find_pattern(pattern: &str, haystack: &str) -> (r: Option<bool>)
    ensures
        r is Some <==> pattern_compiles(pattern@),
        r matches Some(b) ==> b == pattern_found(pattern@, haystack@),
{
    match regex::Regex::new(pattern) {
        Ok(re) => Some(re.is_match(haystack)),
        Err(_) => None,
    }
}

pub open spec fn is_hex_digit(c: char) -> bool {
    ('0' <= c && c <= '9') || ('a' <= c && c <= 'f') || ('A' <= c && c <= 'F')
}

/// The value of a hex digit.
pub open spec fn hex_value(c: char) -> int {
    if '0' <= c && c <= '9' {
        c as int - '0' as int
    } else if 'a' <= c && c <= 'f' {
        c as int - 'a' as int + 10
    } else {
        c as int - 'A' as int + 10
    }
}

/// `#` followed by six hex digits, then anything.
pub open spec fn hex_shaped(s: Seq<char>) -> bool {
    &&& s.len() >= 7
    &&& s[0] == '#'
    &&& forall|i: int| 1 <= i < 7 ==> #[trigger] is_hex_digit(s[i])
}

/// The byte written by the two hex digits at `i` and `i + 1`.
pub open spec fn channel(s: Seq<char>, i: int) -> u8 {
    (hex_value(s[i]) * 16 + hex_value(s[i + 1])) as u8
}

pub open spec fn colour_of(s: Seq<char>) -> Rgb {
    Rgb { r: channel(s, 1), g: channel(s, 3), b: channel(s, 5) }
}

/// The colour of `s`, given whether the colour pattern matched it.
pub open spec fn checked_colour(s: Seq<char>, found: bool) -> Result<Rgb, ColourError> {
    if !found {
        Err(ColourError::NoMatch)
    } else if !hex_shaped(s) {
        Err(ColourError::BadDigit)
    } else {
        Ok(colour_of(s))
    }
}

fn hex_digit(c: char) -> (r: Option<u8>)
    ensures
        r is Some <==> is_hex_digit(c),
        r matches Some(v) ==> v == hex_value(c),
{
    if '0' <= c && c <= '9' {
        Some((c as u32 - '0' as u32) as u8)
    } else if 'a' <= c && c <= 'f' {
        Some((c as u32 - 'a' as u32 + 10) as u8)
    } else if 'A' <= c && c <= 'F' {
        Some((c as u32 - 'A' as u32 + 10) as u8)
    } else {
        None
    }
}

/// Reads the two hex digits at `i` and `i + 1` of `s`.
fn read_channel(s: &str, i: usize) -> (r: Option<u8>)
    requires
        i < 7,
        i + 1 < s@.len(),
    ensures
        r is Some <==> is_hex_digit(s@[i as int]) && is_hex_digit(s@[i + 1]),
        r matches Some(v) ==> v == channel(s@, i as int),
{
    match (hex_digit(s.get_char(i)), hex_digit(s.get_char(i + 1))) {
        (Some(hi), Some(lo)) => Some(hi * 16 + lo),
        _ => None,
    }
}

/// The colour of `s`, where `found` tells whether the colour pattern
/// matched it: `#rrggbb` read as three hex bytes.
pub fn colour_from_checked(s: &str, found: bool) -> (r: Result<Rgb, ColourError>)
    ensures
        r == checked_colour(s@, found),
{
    if !found {
        return Err(ColourError::NoMatch);
    }
    if s.unicode_len() < 7 || s.get_char(0) != '#' {
        return Err(ColourError::BadDigit);
    }
    let red = read_channel(s, 1);
    let green = read_channel(s, 3);
    let blue = read_channel(s, 5);
    match (red, green, blue) {
        (Some(r), Some(g), Some(b)) => {
            assert forall|i: int| 1 <= i < 7 implies #[trigger] is_hex_digit(s@[i]) by {
                if i == 2 || i == 4 || i == 6 {
                    assert(is_hex_digit(s@[(i - 1) + 1]));
                }
            }
            Ok(Rgb { r, g, b })
        },
        _ => {
            assert(!hex_shaped(s@)) by {
                if hex_shaped(s@) {
                    assert(is_hex_digit(s@[1]) && is_hex_digit(s@[2]));
                    assert(is_hex_digit(s@[3]) && is_hex_digit(s@[4]));
                    assert(is_hex_digit(s@[5]) && is_hex_digit(s@[6]));
                }
            }
            Err(ColourError::BadDigit)
        },
    }
}

/// Parses a `#rrggbb` colour: the string must match `^#[a-f,A-F,0-9]{6}`
/// and its first six digits must be hex.
pub fn parse_colour(s: &str) -> (r: Result<Rgb, ColourError>)
    ensures
        !pattern_compiles("^#[a-f,A-F,0-9]{6}"@) ==> r == Err::<Rgb, _>(ColourError::Pattern),
        pattern_compiles("^#[a-f,A-F,0-9]{6}"@) ==> r == checked_colour(
            s@,
            pattern_found("^#[a-f,A-F,0-9]{6}"@, s@),
        ),
{
    match find_pattern("^#[a-f,A-F,0-9]{6}", s) {
        Some(found) => colour_from_checked(s, found),
        None => Err(ColourError::Pattern),
    }
}

} // verus!
