//! The banner glyphs the clock is drawn with: one fixed-height bitmap per
//! displayable character — the digits and the colon — six text rows high,
//! each row exactly as wide as the glyph's advance width.

use vstd::prelude::*;
use crate::duration::is_digit_char;

verus! {

/// A character the clock string can contain, and so the table must cover.
pub open spec fn is_glyph_char(c: char) -> bool {
    is_digit_char(c) || c == ':'
}

/// The advance width of a glyph: how many columns drawing it occupies,
/// trailing spacing included. Zero for a character outside the alphabet.
pub open spec fn spec_glyph_width(c: char) -> nat {
    if c == ':' {
        3
    } else if is_digit_char(c) {
        7
    } else {
        0
    }
}

/// One character's bitmap: six text rows and the advance width.
pub struct Glyph {
    pub rows: Vec<&'static str>,
    pub width: usize,
}

/// A well-formed glyph for `c`: the stated width, six rows, every row
/// exactly that wide.
pub open spec fn glyph_wf(g: Glyph, c: char) -> bool {
    &&& g.width as nat == spec_glyph_width(c)
    &&& g.rows@.len() == 6
    &&& forall|i: int| 0 <= i < 6 ==> (#[trigger] g.rows@[i])@.len() == spec_glyph_width(c)
}

/// The advance width of a character's glyph; zero outside the alphabet.
pub fn char_width(c: char) -> (r: usize)
    ensures
        r as nat == spec_glyph_width(c),
{
    if c == ':' {
        3
    } else {
        let v = c as u32;
        if 48 <= v && v <= 57 {
            7
        } else {
            0
        }
    }
}

/// Assemble a glyph from six rows of equal width.
fn glyph6(
    r0: &'static str,
    r1: &'static str,
    r2: &'static str,
    r3: &'static str,
    r4: &'static str,
    r5: &'static str,
    width: usize,
) -> (g: Glyph)
    requires
        r0@.len() == width,
        r1@.len() == width,
        r2@.len() == width,
        r3@.len() == width,
        r4@.len() == width,
        r5@.len() == width,
    ensures
        g.width == width,
        g.rows@.len() == 6,
        forall|i: int| 0 <= i < 6 ==> (#[trigger] g.rows@[i])@.len() == width,
{
    let mut rows: Vec<&'static str> = Vec::new();
    rows.push(r0);
    rows.push(r1);
    rows.push(r2);
    rows.push(r3);
    rows.push(r4);
    rows.push(r5);
    Glyph { rows, width }
}

/// Look a character's glyph up: `Some` exactly for the digits and the
/// colon, the full alphabet the clock formatter can produce.
pub fn glyph_for(c: char) -> (r: Option<Glyph>)
    ensures
        r is Some <==> is_glyph_char(c),
        r is Some ==> glyph_wf(r->0, c),
{
    if c == '0' {
        proof {
            reveal_strlit(" ####  ");
            reveal_strlit("##  ## ");
        }
        Some(glyph6(" ####  ", "##  ## ", "##  ## ", "##  ## ", "##  ## ", " ####  ", 7))
    } else if c == '1' {
        proof {
            reveal_strlit("  ##   ");
            reveal_strlit(" ###   ");
            reveal_strlit("###### ");
        }
        Some(glyph6("  ##   ", " ###   ", "  ##   ", "  ##   ", "  ##   ", "###### ", 7))
    } else if c == '2' {
        proof {
            reveal_strlit(" ####  ");
            reveal_strlit("##  ## ");
            reveal_strlit("   ##  ");
            reveal_strlit("  ##   ");
            reveal_strlit(" ##    ");
            reveal_strlit("###### ");
        }
        Some(glyph6(" ####  ", "##  ## ", "   ##  ", "  ##   ", " ##    ", "###### ", 7))
    } else if c == '3' {
        proof {
            reveal_strlit(" ####  ");
            reveal_strlit("##  ## ");
            reveal_strlit("  ###  ");
            reveal_strlit("    ## ");
        }
        Some(glyph6(" ####  ", "##  ## ", "  ###  ", "    ## ", "##  ## ", " ####  ", 7))
    } else if c == '4' {
        proof {
            reveal_strlit("   ##  ");
            reveal_strlit("  ###  ");
            reveal_strlit(" # ##  ");
            reveal_strlit("#  ##  ");
            reveal_strlit("###### ");
        }
        Some(glyph6("   ##  ", "  ###  ", " # ##  ", "#  ##  ", "###### ", "   ##  ", 7))
    } else if c == '5' {
        proof {
            reveal_strlit("###### ");
            reveal_strlit("##     ");
            reveal_strlit("#####  ");
            reveal_strlit("    ## ");
            reveal_strlit("##  ## ");
            reveal_strlit(" ####  ");
        }
        Some(glyph6("###### ", "##     ", "#####  ", "    ## ", "##  ## ", " ####  ", 7))
    } else if c == '6' {
        proof {
            reveal_strlit(" ####  ");
            reveal_strlit("##     ");
            reveal_strlit("#####  ");
            reveal_strlit("##  ## ");
        }
        Some(glyph6(" ####  ", "##     ", "#####  ", "##  ## ", "##  ## ", " ####  ", 7))
    } else if c == '7' {
        proof {
            reveal_strlit("###### ");
            reveal_strlit("    ## ");
            reveal_strlit("   ##  ");
            reveal_strlit("  ##   ");
            reveal_strlit(" ##    ");
        }
        Some(glyph6("###### ", "    ## ", "   ##  ", "  ##   ", " ##    ", " ##    ", 7))
    } else if c == '8' {
        proof {
            reveal_strlit(" ####  ");
            reveal_strlit("##  ## ");
        }
        Some(glyph6(" ####  ", "##  ## ", " ####  ", "##  ## ", "##  ## ", " ####  ", 7))
    } else if c == '9' {
        proof {
            reveal_strlit(" ####  ");
            reveal_strlit("##  ## ");
            reveal_strlit(" ##### ");
            reveal_strlit("    ## ");
        }
        Some(glyph6(" ####  ", "##  ## ", " ##### ", "    ## ", "    ## ", " ####  ", 7))
    } else if c == ':' {
        proof {
            reveal_strlit("   ");
            reveal_strlit("## ");
        }
        Some(glyph6("   ", "## ", "## ", "   ", "## ", "## ", 3))
    } else {
        None
    }
}

} // verus!
