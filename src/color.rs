use crate::error::{Error, ErrorKind};
use crate::text::chars_of;
use vstd::prelude::*;
use vstd::string::*;

verus! {

/// A color as four bytes: red, green, blue and alpha. Channel `x` stands for
/// the intensity `x / 255`, so 0 is none and 255 is full.
#[derive(Clone, Copy, Debug, PartialEq, Eq, Structural)]
pub struct Color(pub u8, pub u8, pub u8, pub u8);

pub open spec fn is_hex(c: char) -> bool {
    ('0' as u32 <= c as u32 && c as u32 <= '9' as u32) || ('a' as u32 <= c as u32 && c as u32
        <= 'f' as u32) || ('A' as u32 <= c as u32 && c as u32 <= 'F' as u32)
}

/// The value of a hexadecimal digit, either case.
pub open spec fn hex_val(c: char) -> nat {
    if c as u32 <= '9' as u32 {
        (c as u32 - '0' as u32) as nat
    } else if c as u32 <= 'F' as u32 {
        (c as u32 - 'A' as u32 + 10) as nat
    } else {
        (c as u32 - 'a' as u32 + 10) as nat
    }
}

/// `d[i]` and `d[i + 1]` are hexadecimal digits.
pub open spec fn pair_ok(d: Seq<char>, i: int) -> bool {
    is_hex(d[i]) && is_hex(d[i + 1])
}

/// The byte that the digits `d[i]`, `d[i + 1]` write.
pub open spec fn pair_val(d: Seq<char>, i: int) -> u8 {
    (hex_val(d[i]) * 16 + hex_val(d[i + 1])) as u8
}

/// The digits of a color literal: `s` without a leading `#`.
pub open spec fn color_digits(s: Seq<char>) -> Seq<char> {
    if s.len() > 0 && s[0] == '#' {
        s.drop_first()
    } else {
        s
    }
}

/// What `#rrggbb[aa]` (the `#` optional) denotes: six digits give an opaque
/// color, eight give the alpha too; anything else is an invalid color.
pub open spec fn color_of(s: Seq<char>) -> Result<Color, (ErrorKind, Seq<char>)> {
    let d = color_digits(s);
    if d.len() < 6 || !pair_ok(d, 0) || !pair_ok(d, 2) || !pair_ok(d, 4) {
        Err((ErrorKind::InvalidColor, s))
    } else if d.len() == 6 {
        Ok(Color(pair_val(d, 0), pair_val(d, 2), pair_val(d, 4), 255))
    } else if d.len() < 8 || !pair_ok(d, 6) || d.len() > 8 {
        Err((ErrorKind::InvalidColor, s))
    } else {
        Ok(Color(pair_val(d, 0), pair_val(d, 2), pair_val(d, 4), pair_val(d, 6)))
    }
}

pub open spec fn color_result_view(r: Result<Color, Error>) -> Result<
    Color,
    (ErrorKind, Seq<char>),
> {
    match r {
        Ok(c) => Ok(c),
        Err(e) => Err(e@),
    }
}

/// The lower-case digit that writes `n`.
pub open spec fn hex_digit_char(n: u8) -> char {
    if n < 10 {
        (('0' as u8) + n) as char
    } else {
        (('a' as u8) + n - 10) as char
    }
}

/// `#rrggbbaa` in lower-case digits.
pub open spec fn color_text(c: Color) -> Seq<char> {
    seq![
        '#',
        hex_digit_char(c.0 / 16),
        hex_digit_char(c.0 % 16),
        hex_digit_char(c.1 / 16),
        hex_digit_char(c.1 % 16),
        hex_digit_char(c.2 / 16),
        hex_digit_char(c.2 % 16),
        hex_digit_char(c.3 / 16),
        hex_digit_char(c.3 % 16),
    ]
}

fn hex_digit(c: char) -> (r: Option<u8>)
    ensures
        r == (if is_hex(c) {
            Some(hex_val(c) as u8)
        } else {
            None::<u8>
        }),
{
    let u = c as u32;
    if '0' as u32 <= u && u <= '9' as u32 {
        Some((u - '0' as u32) as u8)
    } else if 'a' as u32 <= u && u <= 'f' as u32 {
        Some((u - 'a' as u32 + 10) as u8)
    } else if 'A' as u32 <= u && u <= 'F' as u32 {
        Some((u - 'A' as u32 + 10) as u8)
    } else {
        None
    }
}

fn hex_pair(v: &Vec<char>, i: usize) -> (r: Option<u8>)
    requires
        i + 1 < v@.len(),
    ensures
        r == (if pair_ok(v@, i as int) {
            Some(pair_val(v@, i as int))
        } else {
            None::<u8>
        }),
{
    // A vector's length is a `usize`, so `i + 1` does not overflow.
    let _len = v.len();
    match (hex_digit(v[i]), hex_digit(v[i + 1])) {
        (Some(h), Some(l)) => Some(h * 16 + l),
        _ => None,
    }
}

fn digit_text(n: u8) -> (r: &'static str)
    requires
        n < 16,
    ensures
        r@ == seq![hex_digit_char(n)],
{
    let digits = "0123456789abcdef";
    proof {
        reveal_strlit("0123456789abcdef");
    }
    let r = digits.substring_char(n as usize, n as usize + 1);
    assert(r@ =~= seq![hex_digit_char(n)]);
    r
}

impl Color {
    /// Reads `#rrggbb[aa]`; the `#` is optional and the digits may be of
    /// either case. Without an alpha pair the color is opaque.
    pub fn parse(s: &str) -> (r: Result<Color, Error>)
        ensures
            color_result_view(r) == color_of(s@),
    {
        let v = chars_of(s);
        let n = v.len();
        let start: usize = if n > 0 && v[0] == '#' {
            1
        } else {
            0
        };
        let ghost d = color_digits(s@);
        assert(d =~= v@.subrange(start as int, n as int));
        if n - start < 6 {
            return Err(Error::new(ErrorKind::InvalidColor, s.to_owned()));
        }
        let red = hex_pair(&v, start);
        let green = hex_pair(&v, start + 2);
        let blue = hex_pair(&v, start + 4);
        assert(pair_ok(d, 0) == pair_ok(v@, start as int));
        assert(pair_ok(d, 2) == pair_ok(v@, start + 2));
        assert(pair_ok(d, 4) == pair_ok(v@, start + 4));
        assert(pair_val(d, 0) == pair_val(v@, start as int));
        assert(pair_val(d, 2) == pair_val(v@, start + 2));
        assert(pair_val(d, 4) == pair_val(v@, start + 4));
        let (red, green, blue) = match (red, green, blue) {
            (Some(r), Some(g), Some(b)) => (r, g, b),
            _ => {
                return Err(Error::new(ErrorKind::InvalidColor, s.to_owned()));
            },
        };
        if n - start == 6 {
            return Ok(Color(red, green, blue, 255));
        }
        if n - start < 8 {
            return Err(Error::new(ErrorKind::InvalidColor, s.to_owned()));
        }
        let alpha = hex_pair(&v, start + 6);
        assert(pair_ok(d, 6) == pair_ok(v@, start + 6));
        assert(pair_val(d, 6) == pair_val(v@, start + 6));
        match alpha {
            Some(a) => {
                if n - start > 8 {
                    Err(Error::new(ErrorKind::InvalidColor, s.to_owned()))
                } else {
                    Ok(Color(red, green, blue, a))
                }
            },
            None => Err(Error::new(ErrorKind::InvalidColor, s.to_owned())),
        }
    }

    /// Writes the color as `#rrggbbaa`, which `parse` reads back.
    pub fn to_hex(&self) -> (r: String)
        ensures
            r@ == color_text(*self),
    {
        let mut r = String::from_str("#");
        proof {
            reveal_strlit("#");
        }
        r.append(digit_text(self.0 / 16));
        r.append(digit_text(self.0 % 16));
        r.append(digit_text(self.1 / 16));
        r.append(digit_text(self.1 % 16));
        r.append(digit_text(self.2 / 16));
        r.append(digit_text(self.2 % 16));
        r.append(digit_text(self.3 / 16));
        r.append(digit_text(self.3 % 16));
        assert(r@ =~= color_text(*self));
        r
    }
}

/// Six valid digits, with or without `#`, give an opaque color whose channels
/// are the three pairs in order.
pub proof fn lemma_six_digits_opaque(s: Seq<char>)
    requires
        color_digits(s).len() == 6,
        pair_ok(color_digits(s), 0),
        pair_ok(color_digits(s), 2),
        pair_ok(color_digits(s), 4),
    ensures
        color_of(s) == Ok::<Color, (ErrorKind, Seq<char>)>(
            Color(
                pair_val(color_digits(s), 0),
                pair_val(color_digits(s), 2),
                pair_val(color_digits(s), 4),
                255,
            ),
        ),
{
}

/// Eight valid digits give a color whose alpha is the byte of the last pair.
pub proof fn lemma_eight_digits_alpha(s: Seq<char>)
    requires
        color_digits(s).len() == 8,
        pair_ok(color_digits(s), 0),
        pair_ok(color_digits(s), 2),
        pair_ok(color_digits(s), 4),
        pair_ok(color_digits(s), 6),
    ensures
        color_of(s) is Ok,
        color_of(s)->Ok_0.3 == pair_val(color_digits(s), 6),
{
}

proof fn lemma_digit_round_trip(n: u8)
    requires
        n < 16,
    ensures
        is_hex(hex_digit_char(n)),
        hex_val(hex_digit_char(n)) == n,
{
}

/// Writing a color and reading it back gives the same color.
pub proof fn lemma_hex_round_trip(c: Color)
    ensures
        color_of(color_text(c)) == Ok::<Color, (ErrorKind, Seq<char>)>(c),
{
    let t = color_text(c);
    let d = color_digits(t);
    assert(d =~= t.drop_first());
    lemma_digit_round_trip(c.0 / 16);
    lemma_digit_round_trip(c.0 % 16);
    lemma_digit_round_trip(c.1 / 16);
    lemma_digit_round_trip(c.1 % 16);
    lemma_digit_round_trip(c.2 / 16);
    lemma_digit_round_trip(c.2 % 16);
    lemma_digit_round_trip(c.3 / 16);
    lemma_digit_round_trip(c.3 % 16);
    assert(pair_val(d, 0) == c.0);
    assert(pair_val(d, 2) == c.1);
    assert(pair_val(d, 4) == c.2);
    assert(pair_val(d, 6) == c.3);
}

impl std::str::FromStr for Color {
    type Err = Error;

    fn from_str(s: &str) -> (r: Result<Color, Error>)
        ensures
            color_result_view(r) == color_of(s@),
    {
        Color::parse(s)
    }
}

} // verus!
