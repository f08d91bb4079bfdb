use vstd::prelude::*;

verus! {

/// The number of glyphs in the font: the printable ASCII characters from
/// space to tilde.
pub const FONT_GLYPHS: usize = 95;

/// A 5 by 7 bitmap font. Glyph `i` draws the character with code point
/// `i + 32`; byte `r` of a glyph is its row `r`, top first, and bit `4 - c`
/// of that byte lights column `c`.
pub const FONT_DATA: [[u8; 7]; 95] = [
    [0x00, 0x00, 0x00, 0x00, 0x00, 0x00, 0x00], // space
    [0x00, 0x00, 0x5F, 0x00, 0x00, 0x00, 0x00], // !
    [0x00, 0x07, 0x00, 0x07, 0x00, 0x00, 0x00], // "
    [0x14, 0x7F, 0x14, 0x7F, 0x14, 0x00, 0x00], // #
    [0x24, 0x2A, 0x7F, 0x2A, 0x12, 0x00, 0x00], // $
    [0x23, 0x13, 0x08, 0x64, 0x62, 0x00, 0x00], // %
    [0x36, 0x49, 0x55, 0x22, 0x50, 0x00, 0x00], // &
    [0x00, 0x05, 0x03, 0x00, 0x00, 0x00, 0x00], // '
    [0x00, 0x1C, 0x22, 0x41, 0x00, 0x00, 0x00], // (
    [0x00, 0x41, 0x22, 0x1C, 0x00, 0x00, 0x00], // )
    [0x14, 0x08, 0x3E, 0x08, 0x14, 0x00, 0x00], // *
    [0x08, 0x08, 0x3E, 0x08, 0x08, 0x00, 0x00], // +
    [0x00, 0x50, 0x30, 0x00, 0x00, 0x00, 0x00], // ,
    [0x08, 0x08, 0x08, 0x08, 0x08, 0x00, 0x00], // -
    [0x00, 0x60, 0x60, 0x00, 0x00, 0x00, 0x00], // .
    [0x20, 0x10, 0x08, 0x04, 0x02, 0x00, 0x00], // /
    [0x3E, 0x51, 0x49, 0x45, 0x3E, 0x00, 0x00], // 0
    [0x00, 0x42, 0x7F, 0x40, 0x00, 0x00, 0x00], // 1
    [0x42, 0x61, 0x51, 0x49, 0x46, 0x00, 0x00], // 2
    [0x21, 0x41, 0x45, 0x4B, 0x31, 0x00, 0x00], // 3
    [0x18, 0x14, 0x12, 0x7F, 0x10, 0x00, 0x00], // 4
    [0x27, 0x45, 0x45, 0x45, 0x39, 0x00, 0x00], // 5
    [0x3C, 0x4A, 0x49, 0x49, 0x30, 0x00, 0x00], // 6
    [0x01, 0x71, 0x09, 0x05, 0x03, 0x00, 0x00], // 7
    [0x36, 0x49, 0x49, 0x49, 0x36, 0x00, 0x00], // 8
    [0x06, 0x49, 0x49, 0x29, 0x1E, 0x00, 0x00], // 9
    [0x00, 0x36, 0x36, 0x00, 0x00, 0x00, 0x00], // :
    [0x00, 0x56, 0x36, 0x00, 0x00, 0x00, 0x00], // ;
    [0x08, 0x14, 0x22, 0x41, 0x00, 0x00, 0x00], // <
    [0x14, 0x14, 0x14, 0x14, 0x14, 0x00, 0x00], // =
    [0x00, 0x41, 0x22, 0x14, 0x08, 0x00, 0x00], // >
    [0x02, 0x01, 0x51, 0x09, 0x06, 0x00, 0x00], // ?
    [0x32, 0x49, 0x79, 0x41, 0x3E, 0x00, 0x00], // @
    [0x7E, 0x11, 0x11, 0x11, 0x7E, 0x00, 0x00], // A
    [0x7F, 0x49, 0x49, 0x49, 0x36, 0x00, 0x00], // B
    [0x3E, 0x41, 0x41, 0x41, 0x22, 0x00, 0x00], // C
    [0x7F, 0x41, 0x41, 0x22, 0x1C, 0x00, 0x00], // D
    [0x7F, 0x49, 0x49, 0x49, 0x41, 0x00, 0x00], // E
    [0x7F, 0x09, 0x09, 0x09, 0x01, 0x00, 0x00], // F
    [0x3E, 0x41, 0x49, 0x49, 0x7A, 0x00, 0x00], // G
    [0x7F, 0x08, 0x08, 0x08, 0x7F, 0x00, 0x00], // H
    [0x00, 0x41, 0x7F, 0x41, 0x00, 0x00, 0x00], // I
    [0x20, 0x40, 0x41, 0x3F, 0x01, 0x00, 0x00], // J
    [0x7F, 0x08, 0x14, 0x22, 0x41, 0x00, 0x00], // K
    [0x7F, 0x40, 0x40, 0x40, 0x40, 0x00, 0x00], // L
    [0x7F, 0x02, 0x0C, 0x02, 0x7F, 0x00, 0x00], // M
    [0x7F, 0x04, 0x08, 0x10, 0x7F, 0x00, 0x00], // N
    [0x3E, 0x41, 0x41, 0x41, 0x3E, 0x00, 0x00], // O
    [0x7F, 0x09, 0x09, 0x09, 0x06, 0x00, 0x00], // P
    [0x3E, 0x41, 0x51, 0x21, 0x5E, 0x00, 0x00], // Q
    [0x7F, 0x09, 0x19, 0x29, 0x46, 0x00, 0x00], // R
    [0x46, 0x49, 0x49, 0x49, 0x31, 0x00, 0x00], // S
    [0x01, 0x01, 0x7F, 0x01, 0x01, 0x00, 0x00], // T
    [0x3F, 0x40, 0x40, 0x40, 0x3F, 0x00, 0x00], // U
    [0x1F, 0x20, 0x40, 0x20, 0x1F, 0x00, 0x00], // V
    [0x3F, 0x40, 0x38, 0x40, 0x3F, 0x00, 0x00], // W
    [0x63, 0x14, 0x08, 0x14, 0x63, 0x00, 0x00], // X
    [0x07, 0x08, 0x70, 0x08, 0x07, 0x00, 0x00], // Y
    [0x61, 0x51, 0x49, 0x45, 0x43, 0x00, 0x00], // Z
    [0x00, 0x7F, 0x41, 0x41, 0x00, 0x00, 0x00], // [
    [0x02, 0x04, 0x08, 0x10, 0x20, 0x00, 0x00], // \
    [0x00, 0x41, 0x41, 0x7F, 0x00, 0x00, 0x00], // ]
    [0x04, 0x02, 0x01, 0x02, 0x04, 0x00, 0x00], // ^
    [0x40, 0x40, 0x40, 0x40, 0x40, 0x00, 0x00], // _
    [0x00, 0x01, 0x02, 0x04, 0x00, 0x00, 0x00], // `
    [0x20, 0x54, 0x54, 0x54, 0x78, 0x00, 0x00], // a
    [0x7F, 0x48, 0x44, 0x44, 0x38, 0x00, 0x00], // b
    [0x38, 0x44, 0x44, 0x44, 0x20, 0x00, 0x00], // c
    [0x38, 0x44, 0x44, 0x48, 0x7F, 0x00, 0x00], // d
    [0x38, 0x54, 0x54, 0x54, 0x18, 0x00, 0x00], // e
    [0x08, 0x7E, 0x09, 0x01, 0x02, 0x00, 0x00], // f
    [0x0C, 0x52, 0x52, 0x52, 0x3E, 0x00, 0x00], // g
    [0x7F, 0x08, 0x04, 0x04, 0x78, 0x00, 0x00], // h
    [0x00, 0x44, 0x7D, 0x40, 0x00, 0x00, 0x00], // i
    [0x20, 0x40, 0x44, 0x3D, 0x00, 0x00, 0x00], // j
    [0x7F, 0x10, 0x28, 0x44, 0x00, 0x00, 0x00], // k
    [0x00, 0x41, 0x7F, 0x40, 0x00, 0x00, 0x00], // l
    [0x7C, 0x04, 0x18, 0x04, 0x78, 0x00, 0x00], // m
    [0x7C, 0x08, 0x04, 0x04, 0x78, 0x00, 0x00], // n
    [0x38, 0x44, 0x44, 0x44, 0x38, 0x00, 0x00], // o
    [0x7C, 0x14, 0x14, 0x14, 0x08, 0x00, 0x00], // p
    [0x08, 0x14, 0x14, 0x18, 0x7C, 0x00, 0x00], // q
    [0x7C, 0x08, 0x04, 0x04, 0x08, 0x00, 0x00], // r
    [0x48, 0x54, 0x54, 0x54, 0x20, 0x00, 0x00], // s
    [0x04, 0x3F, 0x44, 0x40, 0x20, 0x00, 0x00], // t
    [0x3C, 0x40, 0x40, 0x20, 0x7C, 0x00, 0x00], // u
    [0x1C, 0x20, 0x40, 20, 0x1C, 0x00, 0x00], // v
    [0x3C, 0x40, 0x30, 0x40, 0x3C, 0x00, 0x00], // w
    [0x44, 0x28, 0x10, 0x28, 0x44, 0x00, 0x00], // x
    [0x0C, 0x50, 0x50, 0x50, 0x3C, 0x00, 0x00], // y
    [0x44, 0x64, 0x54, 0x4C, 0x44, 0x00, 0x00], // z
    [0x00, 0x08, 0x36, 0x41, 0x00, 0x00, 0x00], // {
    [0x00, 0x00, 0x7F, 0x00, 0x00, 0x00, 0x00], // |
    [0x00, 0x41, 0x36, 0x08, 0x00, 0x00, 0x00], // }
    [0x08, 0x04, 0x08, 0x10, 0x08, 0x00, 0x00], // ~
];

/// The glyph index for `c`: its code point less 32, and the space glyph for
/// anything below the space.
pub open spec fn glyph_index(c: char) -> int {
    if (c as u32) < 32 {
        0
    } else {
        (c as u32) - 32
    }
}

/// The glyph that draws `c`; characters past the end of the font have none
/// and take no room in a line of text.
pub open spec fn glyph_of(c: char) -> Option<[u8; 7]> {
    if glyph_index(c) < FONT_GLYPHS {
        Some(FONT_DATA@[glyph_index(c)])
    } else {
        None
    }
}

pub fn glyph_for(c: char) -> (g: Option<[u8; 7]>)
    ensures
        g == glyph_of(c),
        32 <= (c as u32) <= 126 ==> g == Some(FONT_DATA@[(c as u32) - 32]),
        (c as u32) < 32 ==> g == Some(FONT_DATA@[0]),
        (c as u32) > 126 ==> g is None,
{
    let code = c as u32;
    let index: u32 = if code < 32 {
        0
    } else {
        code - 32
    };
    if (index as usize) < FONT_GLYPHS {
        Some(FONT_DATA[index as usize])
    } else {
        None
    }
}

/// Whether the pixel at column `col` of row `row` of `glyph` is lit.
pub open spec fn pixel_on(glyph: [u8; 7], row: int, col: int) -> bool {
    glyph@[row] & (1u8 << ((4 - col) as u8)) != 0u8
}

/// The lit pixels of row `row` among the columns `0..n`, as (column, row),
/// left to right.
pub open spec fn lit_in_row(glyph: [u8; 7], row: int, n: int) -> Seq<(usize, usize)>
    decreases n,
{
    if n <= 0 {
        Seq::empty()
    } else {
        let before = lit_in_row(glyph, row, n - 1);
        if pixel_on(glyph, row, n - 1) {
            before.push(((n - 1) as usize, row as usize))
        } else {
            before
        }
    }
}

/// The lit pixels of the rows `0..m`, row by row from the top.
pub open spec fn lit_in_rows(glyph: [u8; 7], m: int) -> Seq<(usize, usize)>
    decreases m,
{
    if m <= 0 {
        Seq::empty()
    } else {
        lit_in_rows(glyph, m - 1) + lit_in_row(glyph, m - 1, 5)
    }
}

/// The lit pixels of a glyph as (column, row), in the order they are drawn.
pub open spec fn lit_pixels(glyph: [u8; 7]) -> Seq<(usize, usize)> {
    lit_in_rows(glyph, 7)
}

/// The pixels to draw for a glyph, as (column, row).
pub fn glyph_pixels(glyph: [u8; 7]) -> (pixels: Vec<(usize, usize)>)
    ensures
        pixels@ == lit_pixels(glyph),
{
    let mut pixels: Vec<(usize, usize)> = Vec::new();
    let mut row: usize = 0;
    while row < 7
        invariant
            row <= 7,
            pixels@ == lit_in_rows(glyph, row as int),
        decreases 7 - row,
    {
        let row_bits = glyph[row];
        let mut col: usize = 0;
        while col < 5
            invariant
                row < 7,
                col <= 5,
                row_bits == glyph@[row as int],
                pixels@ == lit_in_rows(glyph, row as int) + lit_in_row(glyph, row as int, col as int),
            decreases 5 - col,
        {
            let shift = (4 - col) as u8;
            if row_bits & (1u8 << shift) != 0 {
                let ghost a = lit_in_rows(glyph, row as int);
                let ghost r = lit_in_row(glyph, row as int, col as int);
                pixels.push((col, row));
                assert(a + r.push((col, row)) =~= (a + r).push((col, row)));
            }
            col = col + 1;
        }
        row = row + 1;
    }
    pixels
}


proof fn lemma_dark_rows_draw_nothing(glyph: [u8; 7], m: int)
    requires
        forall|r: int| 0 <= r < 7 ==> glyph@[r] == 0u8,
        m <= 7,
    ensures
        lit_in_rows(glyph, m).len() == 0,
    decreases m,
{
    if m > 0 {
        lemma_dark_rows_draw_nothing(glyph, m - 1);
        let row = m - 1;
        assert forall|n: int| n <= 5 implies lit_in_row(glyph, row, n).len() == 0 by {
            lemma_dark_row_draws_nothing(glyph, row, n);
        }
    }
}

proof fn lemma_dark_row_draws_nothing(glyph: [u8; 7], row: int, n: int)
    requires
        0 <= row < 7,
        glyph@[row] == 0u8,
        n <= 5,
    ensures
        lit_in_row(glyph, row, n).len() == 0,
    decreases n,
{
    if n > 0 {
        lemma_dark_row_draws_nothing(glyph, row, n - 1);
        let s = (4 - (n - 1)) as u8;
        assert(0u8 & (1u8 << s) == 0u8) by (bit_vector);
    }
}

/// The space, and every character below it, draws as an empty cell.
pub proof fn lemma_space_is_blank(c: char)
    requires
        (c as u32) <= 32,
    ensures
        glyph_of(c) == Some(FONT_DATA@[0]),
        lit_pixels(FONT_DATA@[0]).len() == 0,
{
    lemma_dark_rows_draw_nothing(FONT_DATA@[0], 7);
}

/// Glyph `i` of the font draws the character with code point `i + 32`, for
/// every character from the space to the tilde.
pub proof fn lemma_glyph_by_code_point(c: char)
    requires
        32 <= (c as u32) <= 126,
    ensures
        glyph_of(c) == Some(FONT_DATA@[(c as u32) - 32]),
{
}

/// Characters past the tilde have no glyph.
pub proof fn lemma_beyond_font_has_no_glyph(c: char)
    requires
        (c as u32) > 126,
    ensures
        glyph_of(c) is None,
{
}

proof fn lemma_lit_in_row_contains(glyph: [u8; 7], row: int, n: int, p: (usize, usize))
    requires
        0 <= row < 7,
        n <= 5,
    ensures
        lit_in_row(glyph, row, n).contains(p) <==> (p.1 == row && p.0 < n && pixel_on(
            glyph,
            row,
            p.0 as int,
        )),
    decreases n,
{
    if n > 0 {
        lemma_lit_in_row_contains(glyph, row, n - 1, p);
        let before = lit_in_row(glyph, row, n - 1);
        let q = ((n - 1) as usize, row as usize);
        if pixel_on(glyph, row, n - 1) {
            assert(before.push(q).contains(p) <==> before.contains(p) || p == q) by {
                if p == q {
                    assert(before.push(q)[before.len() as int] == q);
                }
                if before.push(q).contains(p) && p != q {
                    let i = choose|i: int| 0 <= i < before.push(q).len() && before.push(q)[i] == p;
                    assert(before[i] == p);
                }
                if before.contains(p) {
                    let i = choose|i: int| 0 <= i < before.len() && before[i] == p;
                    assert(before.push(q)[i] == p);
                }
            }
        }
    }
}

proof fn lemma_lit_in_rows_contains(glyph: [u8; 7], m: int, p: (usize, usize))
    requires
        m <= 7,
    ensures
        lit_in_rows(glyph, m).contains(p) <==> (p.1 < m && p.0 < 5 && pixel_on(
            glyph,
            p.1 as int,
            p.0 as int,
        )),
    decreases m,
{
    if m > 0 {
        lemma_lit_in_rows_contains(glyph, m - 1, p);
        lemma_lit_in_row_contains(glyph, m - 1, 5, p);
        let a = lit_in_rows(glyph, m - 1);
        let b = lit_in_row(glyph, m - 1, 5);
        assert((a + b).contains(p) <==> a.contains(p) || b.contains(p)) by {
            if (a + b).contains(p) {
                let i = choose|i: int| 0 <= i < (a + b).len() && (a + b)[i] == p;
                if i < a.len() {
                    assert(a[i] == p);
                } else {
                    assert(b[i - a.len()] == p);
                }
            }
            if a.contains(p) {
                let i = choose|i: int| 0 <= i < a.len() && a[i] == p;
                assert((a + b)[i] == p);
            }
            if b.contains(p) {
                let i = choose|i: int| 0 <= i < b.len() && b[i] == p;
                assert((a + b)[i + a.len()] == p);
            }
        }
    }
}

/// A pixel is drawn exactly when it lies in the 5 by 7 cell and its bit is
/// set in its row's byte: column 0 reads the bit 0x10, column 4 the bit
/// 0x01, so a glyph is drawn as its rows read from the high bit down.
pub proof fn lemma_drawn_pixels(glyph: [u8; 7], col: usize, row: usize)
    ensures
        lit_pixels(glyph).contains((col, row)) <==> (col < 5 && row < 7 && glyph@[row as int] & (
        0x10u8 >> (col as u8)) != 0u8),
{
    lemma_lit_in_rows_contains(glyph, 7, (col, row));
    if col < 5 && row < 7 {
        let b = glyph@[row as int];
        let c = col as u8;
        let s = (4 - col as int) as u8;
        assert(s + c == 4);
        assert((b & (1u8 << s) != 0u8) == (b & (0x10u8 >> c) != 0u8)) by (bit_vector)
            requires
                c < 5,
                s + c == 4,
        ;
    }
}

} // verus!
