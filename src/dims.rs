use vstd::prelude::*;
use std::num::ParseIntError;

verus! {

#[verifier::external_type_specification]
#[verifier::external_body]
pub struct ExParseIntError(ParseIntError);

/// `c` is one of the ASCII digits `0` to `9`.
pub open spec fn is_digit(c: char) -> bool {
    '0' <= c && c <= '9'
}

/// The value of a string of decimal digits, most significant first.
pub open spec fn digits_value(d: Seq<char>) -> nat
    decreases d.len(),
{
    if d.len() == 0 {
        0
    } else {
        digits_value(d.drop_last()) * 10 + ((d.last() as u32) - ('0' as u32)) as nat
    }
}

/// The text after an optional leading `+`.
pub open spec fn unsigned_part(s: Seq<char>) -> Seq<char> {
    if s.len() > 0 && s[0] == '+' {
        s.drop_first()
    } else {
        s
    }
}

/// What `s` denotes as an unsigned decimal integer that fits in a `u32`: an
/// optional `+` and then at least one digit, nothing else, not even spaces.
pub open spec fn decimal_u32(s: Seq<char>) -> Option<u32> {
    let d = unsigned_part(s);
    if d.len() > 0 && (forall|i: int| 0 <= i < d.len() ==> is_digit(#[trigger] d[i]))
        && digits_value(d) <= u32::MAX {
        Some(digits_value(d) as u32)
    } else {
        None
    }
}

/// `a` and `b` are the text before and after the first `sep` of `s`.
pub open spec fn is_first_split(s: Seq<char>, sep: char, a: Seq<char>, b: Seq<char>) -> bool {
    s == a + seq![sep] + b && !a.contains(sep)
}

/// Relies on `u32::from_str` (`str::parse::<u32>`): it accepts exactly an optional
/// `+` followed by one or more ASCII digits whose value fits in a `u32`.
#[verifier::external_body]
fn parse_u32(s: &str) -> (r: Result<u32, ParseIntError>)
    ensures
        r is Ok <==> decimal_u32(s@) is Some,
        r matches Ok(n) ==> decimal_u32(s@) == Some(n),
{
    <u32 as std::str::FromStr>::from_str(s)
}

/// Relies on `str::split_once` with a `char` pattern: it splits around the first
/// occurrence of the character, or gives `None` where there is none.
#[verifier::external_body]
fn split_once_char(s: &str, sep: char) -> (r: Option<(&str, &str)>)
    ensures
        r is None <==> !s@.contains(sep),
        r matches Some(p) ==> is_first_split(s@, sep, p.0@, p.1@),
{
    s.split_once(sep)
}

proof fn lemma_first_split_unique(s: Seq<char>, sep: char, a: Seq<char>, b: Seq<char>, a2: Seq<char>, b2: Seq<char>)
    requires
        is_first_split(s, sep, a, b),
        is_first_split(s, sep, a2, b2),
    ensures
        a == a2,
        b == b2,
{
    assert(s[a.len() as int] == sep);
    assert(s[a2.len() as int] == sep);
    if a.len() < a2.len() {
        assert(a2[a.len() as int] == s[a.len() as int]);
        assert(a2.contains(sep));
    } else if a2.len() < a.len() {
        assert(a[a2.len() as int] == s[a2.len() as int]);
        assert(a.contains(sep));
    }
    assert(a =~= s.subrange(0, a.len() as int));
    assert(a2 =~= s.subrange(0, a2.len() as int));
    assert(b =~= s.subrange(a.len() as int + 1, s.len() as int));
    assert(b2 =~= s.subrange(a2.len() as int + 1, s.len() as int));
}

/// A canvas size given as `<width>x<height>`.
#[derive(Debug, Clone, Copy, PartialEq, Eq, Structural)]
pub struct Dimensions {
    pub width: u32,
    pub height: u32,
}

/// Why a `<width>x<height>` text is not a canvas size.
#[derive(Debug)]
pub enum DimensionsError {
    /// The width or the height is not an unsigned 32-bit integer (it may be empty).
    IntError(ParseIntError),
    /// There is no `x` between the width and the height.
    FormatError,
    /// The width or the height is zero.
    ZeroSize,
}

impl Dimensions {
    /// Reads `<width>x<height>`, split at the first `x`. Both parts must be
    /// unsigned decimal integers (the width is read first) and neither may be zero.
    pub fn parse(s: &str) -> (r: Result<Dimensions, DimensionsError>)
        ensures
            !s@.contains('x') <==> r matches Err(DimensionsError::FormatError),
            forall|a: Seq<char>, b: Seq<char>|
                #[trigger] is_first_split(s@, 'x', a, b) ==> match r {
                    Ok(d) => decimal_u32(a) == Some(d.width) && decimal_u32(b) == Some(d.height)
                        && d.width > 0 && d.height > 0,
                    Err(DimensionsError::IntError(_)) => decimal_u32(a) is None || decimal_u32(
                        b,
                    ) is None,
                    Err(DimensionsError::ZeroSize) => decimal_u32(a) is Some && decimal_u32(
                        b,
                    ) is Some && (decimal_u32(a) == Some(0u32) || decimal_u32(b) == Some(
                        0u32,
                    )),
                    Err(DimensionsError::FormatError) => false,
                },
    {
        match split_once_char(s, 'x') {
            None => {
                proof {
                    assert forall|a: Seq<char>, b: Seq<char>|
                        #[trigger] is_first_split(s@, 'x', a, b) implies false by {
                        assert(s@[a.len() as int] == 'x');
                    }
                }
                Err(DimensionsError::FormatError)
            },
            Some((w, h)) => {
                proof {
                    assert forall|a: Seq<char>, b: Seq<char>|
                        #[trigger] is_first_split(s@, 'x', a, b) implies a == w@ && b == h@ by {
                        lemma_first_split_unique(s@, 'x', a, b, w@, h@);
                    }
                }
                let width = match parse_u32(w) {
                    Ok(n) => n,
                    Err(e) => {
                        return Err(DimensionsError::IntError(e));
                    },
                };
                let height = match parse_u32(h) {
                    Ok(n) => n,
                    Err(e) => {
                        return Err(DimensionsError::IntError(e));
                    },
                };
                if width == 0 || height == 0 {
                    Err(DimensionsError::ZeroSize)
                } else {
                    Ok(Dimensions { width, height })
                }
            },
        }
    }
}

impl std::str::FromStr for Dimensions {
    type Err = DimensionsError;

    /// Reads `<width>x<height>` as [`Dimensions::parse`] does.
    fn from_str(s: &str) -> (r: Result<Dimensions, DimensionsError>)
        ensures
            !s@.contains('x') <==> r matches Err(DimensionsError::FormatError),
            forall|a: Seq<char>, b: Seq<char>|
                #[trigger] is_first_split(s@, 'x', a, b) ==> match r {
                    Ok(d) => decimal_u32(a) == Some(d.width) && decimal_u32(b) == Some(d.height)
                        && d.width > 0 && d.height > 0,
                    Err(DimensionsError::IntError(_)) => decimal_u32(a) is None || decimal_u32(
                        b,
                    ) is None,
                    Err(DimensionsError::ZeroSize) => decimal_u32(a) is Some && decimal_u32(
                        b,
                    ) is Some && (decimal_u32(a) == Some(0u32) || decimal_u32(b) == Some(
                        0u32,
                    )),
                    Err(DimensionsError::FormatError) => false,
                },
    {
        Dimensions::parse(s)
    }
}

} // verus!
