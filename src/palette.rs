//! A fixed palette of colours, written as hex codes and handed out in turn.
use vstd::prelude::*;
use vstd::string::StrSliceExecFns;

verus! {

/// Value of a hexadecimal digit (either case), `None` for any other character.
pub open spec fn hex_digit(c: char) -> Option<u8> {
    let n = c as u32;
    if 48 <= n <= 57 {
        Some((n - 48) as u8)
    } else if 65 <= n <= 70 {
        Some((n - 55) as u8)
    } else if 97 <= n <= 102 {
        Some((n - 87) as u8)
    } else {
        None
    }
}

/// The byte written by the two hex digits `hi`, `lo`.
pub open spec fn hex_pair(hi: char, lo: char) -> Option<u8> {
    match (hex_digit(hi), hex_digit(lo)) {
        (Some(h), Some(l)) => Some((h * 16 + l) as u8),
        _ => None,
    }
}

/// The colour a hex code names: three digits stand for three doubled
/// digits (`"F0A"` is `"FF00AA"`); otherwise the first six characters are
/// three pairs and any that follow are ignored. `None` when a digit is not
/// hexadecimal or the code has fewer than six characters and not three.
pub open spec fn hex_color(s: Seq<char>) -> Option<(u8, u8, u8)> {
    if s.len() == 3 {
        match (hex_pair(s[0], s[0]), hex_pair(s[1], s[1]), hex_pair(s[2], s[2])) {
            (Some(r), Some(g), Some(b)) => Some((r, g, b)),
            _ => None,
        }
    } else if s.len() >= 6 {
        match (hex_pair(s[0], s[1]), hex_pair(s[2], s[3]), hex_pair(s[4], s[5])) {
            (Some(r), Some(g), Some(b)) => Some((r, g, b)),
            _ => None,
        }
    } else {
        None
    }
}

fn digit_value(c: char) -> (r: Option<u8>)
    ensures
        r == hex_digit(c),
{
    if '0' <= c && c <= '9' {
        Some((c as u32 - 48) as u8)
    } else if 'A' <= c && c <= 'F' {
        Some((c as u32 - 55) as u8)
    } else if 'a' <= c && c <= 'f' {
        Some((c as u32 - 87) as u8)
    } else {
        None
    }
}

fn pair_value(hi: char, lo: char) -> (r: Option<u8>)
    ensures
        r == hex_pair(hi, lo),
{
    match (digit_value(hi), digit_value(lo)) {
        (Some(h), Some(l)) => Some(h * 16 + l),
        _ => None,
    }
}

/// Reads a colour from its hex code (see [`hex_color`]).
pub fn hex_to_rgb(hex: &str) -> (r: Option<(u8, u8, u8)>)
    ensures
        r == hex_color(hex@),
{
    let n = hex.unicode_len();
    let (i0, i1, i2, i3, i4, i5) = if n == 3 {
        (0, 0, 1, 1, 2, 2)
    } else if n >= 6 {
        (0, 1, 2, 3, 4, 5)
    } else {
        return None;
    };
    let r = pair_value(hex.get_char(i0), hex.get_char(i1));
    let g = pair_value(hex.get_char(i2), hex.get_char(i3));
    let b = pair_value(hex.get_char(i4), hex.get_char(i5));
    match (r, g, b) {
        (Some(r), Some(g), Some(b)) => Some((r, g, b)),
        _ => None,
    }
}

fn push_code(colors: &mut Vec<(u8, u8, u8)>, code: &str)
    ensures
        hex_color(code@) matches Some(c) ==> final(colors)@ == old(colors)@.push(c),
{
    match hex_to_rgb(code) {
        Some(c) => colors.push(c),
        None => {},
    }
}

/// Hands out the colours of a palette in turn, starting over after the last.
pub struct ColorGenerator {
    pub colors: Vec<(u8, u8, u8)>,
    pub idx: usize,
}

/// The fifteen colours of the standard palette, in order.
pub open spec fn standard_palette() -> Seq<(u8, u8, u8)> {
    seq![
        (0x5F, 0xB4, 0x9C),
        (0xF2, 0xB1, 0x34),
        (0xF9, 0x39, 0x43),
        (0x6E, 0xF9, 0xF5),
        (0xB3, 0x3C, 0x86),
        (0xE4, 0xFF, 0x1A),
        (0xFF, 0xB8, 0x00),
        (0xFF, 0x57, 0x14),
        (0xFF, 0xEE, 0xCF),
        (0x4D, 0x90, 0x78),
        (0xD5, 0xF2, 0xE3),
        (0xFB, 0xF5, 0xF3),
        (0xC6, 0xCA, 0xED),
        (0xA2, 0x88, 0xE3),
        (0xCC, 0xFF, 0xCB),
    ]
}

impl ColorGenerator {
    /// The standard palette, from its first colour.
    pub fn new() -> (g: Self)
        ensures
            g.colors@ == standard_palette(),
            g.idx == 0,
    {
        let mut colors: Vec<(u8, u8, u8)> = Vec::new();
        proof {
            reveal_strlit("5FB49C");
        }
        push_code(&mut colors, "5FB49C");
        proof {
            reveal_strlit("F2B134");
        }
        push_code(&mut colors, "F2B134");
        proof {
            reveal_strlit("F93943");
        }
        push_code(&mut colors, "F93943");
        proof {
            reveal_strlit("6EF9F5");
        }
        push_code(&mut colors, "6EF9F5");
        proof {
            reveal_strlit("B33C86");
        }
        push_code(&mut colors, "B33C86");
        proof {
            reveal_strlit("E4FF1A");
        }
        push_code(&mut colors, "E4FF1A");
        proof {
            reveal_strlit("FFB800");
        }
        push_code(&mut colors, "FFB800");
        proof {
            reveal_strlit("FF5714");
        }
        push_code(&mut colors, "FF5714");
        proof {
            reveal_strlit("FFEECF");
        }
        push_code(&mut colors, "FFEECF");
        proof {
            reveal_strlit("4D9078");
        }
        push_code(&mut colors, "4D9078");
        proof {
            reveal_strlit("D5F2E3");
        }
        push_code(&mut colors, "D5F2E3");
        proof {
            reveal_strlit("FBF5F3");
        }
        push_code(&mut colors, "FBF5F3");
        proof {
            reveal_strlit("C6CAED");
        }
        push_code(&mut colors, "C6CAED");
        proof {
            reveal_strlit("A288E3");
        }
        push_code(&mut colors, "A288E3");
        proof {
            reveal_strlit("CCFFCB");
        }
        push_code(&mut colors, "CCFFCB");
        assert(colors@ =~= standard_palette());
        ColorGenerator { colors, idx: 0 }
    }

    /// The colour at the cursor, which then moves on by one; the cursor is
    /// taken modulo the palette's length.
    pub fn next(&mut self) -> (c: (u8, u8, u8))
        requires
            old(self).colors.len() > 0,
            old(self).idx < usize::MAX,
        ensures
            c == old(self).colors@[old(self).idx as int % old(self).colors@.len() as int],
            final(self).colors == old(self).colors,
            final(self).idx == old(self).idx + 1,
    {
        let i = self.idx % self.colors.len();
        self.idx = self.idx + 1;
        self.colors[i]
    }
}

} // verus!
