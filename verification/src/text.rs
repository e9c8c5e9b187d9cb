//! Where the overlay's text falls on the picture: the pixels that a
//! character of the 8x8 font covers, and where characters and lines start.

use vstd::prelude::*;
use vstd::arithmetic::power2::pow2;
use font8x8::UnicodeFonts;
use crate::window::{Coord2, WindowBuffer};

verus! {

/// The bitmap of a character in the basic 8x8 font: eight rows from the
/// top, in each row bit `x` for the pixel in column `x` from the left.
pub uninterp spec fn basic_glyph(c: char) -> Option<Seq<u8>>;

/// Looks the character up in `font8x8::BASIC_FONTS`. The font holds a
/// bitmap for each of the 128 characters up to U+007F and for no other;
/// which bits a bitmap holds is left to the font.
#[verifier::external_body]
fn glyph_rows(c: char) -> (r: Option<[u8; 8]>)
    ensures
        r matches Some(rows) ==> basic_glyph(c) == Some(rows@),
        r is None ==> basic_glyph(c) is None,
        r.is_some() == ((c as u32) < 128),
{
    font8x8::BASIC_FONTS.get(c)
}

/// Bit `x` of a row is set.
pub open spec fn lit(row: u8, x: nat) -> bool {
    (row as nat / pow2(x)) % 2 == 1
}

/// Number of pixels that a character of size `cs` may cover: 8 by 8 bits
/// of `cs` by `cs` pixels each.
pub open spec fn slots(cs: nat) -> nat {
    64 * cs * cs
}

/// Row of the bitmap that slot `k` belongs to. The slots are counted row
/// by row, in a row bit by bit, and in a bit column by column from the
/// top downwards.
pub open spec fn slot_row(cs: nat, k: nat) -> nat {
    k / (cs * cs * 8)
}

/// Bit of the bitmap's row that slot `k` belongs to.
pub open spec fn slot_bit(cs: nat, k: nat) -> nat {
    (k / (cs * cs)) % 8
}

/// The pixel of slot `k`, counted from the character's top left corner.
pub open spec fn slot_offset(cs: nat, k: nat) -> (nat, nat) {
    (slot_bit(cs, k) * cs + (k / cs) % cs, slot_row(cs, k) * cs + k % cs)
}

/// Place in the buffer of slot `k` of a character whose top left corner
/// is `coord`, in an image `w` pixels wide.
pub open spec fn slot_place(w: nat, coord: Coord2, cs: nat, k: nat) -> nat {
    ((coord.y + slot_offset(cs, k).1) * w + coord.x + slot_offset(cs, k).0) as nat
}

/// Slot `k` is to be drawn: its bit is set in the bitmap.
pub open spec fn slot_lit(rows: Seq<u8>, cs: nat, k: nat) -> bool {
    lit(rows[slot_row(cs, k) as int], slot_bit(cs, k))
}

/// Drawing has stopped before slot `n`: an earlier slot that was to be
/// drawn fell outside the buffer.
pub open spec fn halted(rows: Seq<u8>, w: nat, len: nat, coord: Coord2, cs: nat, n: nat) -> bool {
    exists|k: nat| k < n && slot_lit(rows, cs, k) && #[trigger] slot_place(w, coord, cs, k) >= len
}

/// The places in the buffer that the first `n` slots draw on, in drawing
/// order.
pub open spec fn cells(rows: Seq<u8>, w: nat, len: nat, coord: Coord2, cs: nat, n: nat) -> Seq<
    usize,
>
    decreases n,
{
    if n == 0 {
        Seq::<usize>::empty()
    } else {
        let k = (n - 1) as nat;
        let before = cells(rows, w, len, coord, cs, k);
        if !halted(rows, w, len, coord, cs, k) && slot_lit(rows, cs, k) && slot_place(
            w,
            coord,
            cs,
            k,
        ) < len {
            before.push(slot_place(w, coord, cs, k) as usize)
        } else {
            before
        }
    }
}

/// The slot that is reached at row `y`, bit `x`, column `rx` and line `ry`.
pub open spec fn slot_at(cs: nat, y: nat, x: nat, rx: nat, ry: nat) -> nat {
    ((y * 8 + x) * cs + rx) * cs + ry
}

/// Counting the slots and taking a count apart again agree.
pub proof fn lemma_slot_at(cs: nat, y: nat, x: nat, rx: nat, ry: nat)
    requires
        x < 8,
        rx < cs,
        ry < cs,
    ensures
        slot_row(cs, slot_at(cs, y, x, rx, ry)) == y,
        slot_bit(cs, slot_at(cs, y, x, rx, ry)) == x,
        slot_offset(cs, slot_at(cs, y, x, rx, ry)) == (x * cs + rx, y * cs + ry),
        y < 8 ==> slot_at(cs, y, x, rx, ry) < slots(cs),
{
    let k = slot_at(cs, y, x, rx, ry) as int;
    let c = cs as int;
    let a = ((y * 8 + x) * cs + rx) as int;
    let b = (y * 8 + x) as int;
    assert(k == c * a + ry);
    vstd::arithmetic::div_mod::lemma_fundamental_div_mod_converse(k, c, a, ry as int);
    assert(a == c * b + rx) by (nonlinear_arith)
        requires
            a == b * c + rx,
    ;
    vstd::arithmetic::div_mod::lemma_fundamental_div_mod_converse(a, c, b, rx as int);
    assert(c * c > 0) by (nonlinear_arith)
        requires
            c > 0,
    ;
    assert(k == (c * c) * b + (rx * c + ry) && 0 <= rx * c + ry < c * c) by (nonlinear_arith)
        requires
            k == c * a + ry,
            a == c * b + rx,
            0 <= rx < c,
            0 <= ry < c,
    ;
    vstd::arithmetic::div_mod::lemma_fundamental_div_mod_converse(k, c * c, b, rx * c + ry);
    vstd::arithmetic::div_mod::lemma_fundamental_div_mod_converse(b, 8, y as int, x as int);
    assert(k == (c * c * 8) * y + ((c * c) * x + rx * c + ry) && 0 <= (c * c) * x + rx * c + ry < c
        * c * 8) by (nonlinear_arith)
        requires
            k == (c * c) * b + (rx * c + ry),
            b == y * 8 + x,
            0 <= x < 8,
            0 <= rx * c + ry < c * c,
    ;
    vstd::arithmetic::div_mod::lemma_fundamental_div_mod_converse(
        k,
        c * c * 8,
        y as int,
        (c * c) * x + rx * c + ry,
    );
    if y < 8 {
        assert(k < 64 * c * c) by (nonlinear_arith)
            requires
                k == (c * c * 8) * y + ((c * c) * x + rx * c + ry),
                (c * c) * x + rx * c + ry < c * c * 8,
                0 <= y < 8,
                c > 0,
        ;
    }
}

/// Whether bit `x` of a row is set.
fn is_lit(row: u8, x: u8) -> (r: bool)
    requires
        x < 8,
    ensures
        r == lit(row, x as nat),
{
    proof {
        vstd::arithmetic::power2::lemma2_to64();
    }
    let unit: u8 = if x == 0 {
        1
    } else if x == 1 {
        2
    } else if x == 2 {
        4
    } else if x == 3 {
        8
    } else if x == 4 {
        16
    } else if x == 5 {
        32
    } else if x == 6 {
        64
    } else {
        128
    };
    (row / unit) % 2 == 1
}

/// Place in the buffer of the pixel `dx` to the right of and `dy` below
/// `coord`, if the buffer holds it.
fn place(buffer: &WindowBuffer, coord: Coord2, dx: usize, dy: usize) -> (r: Option<usize>)
    ensures
        r == (if (coord.y + dy) * buffer.size.w + coord.x + dx < buffer.content@.len() {
            Some(((coord.y + dy) * buffer.size.w + coord.x + dx) as usize)
        } else {
            None
        }),
{
    let n = buffer.content.len();
    let w = buffer.size.w;
    assert((coord.y + dy) * w >= 0) by (nonlinear_arith)
        requires
            coord.y + dy >= 0,
            w >= 0,
    ;
    let x = match coord.x.checked_add(dx) {
        Some(x) => x,
        None => {
            return None;
        },
    };
    let row = match coord.y.checked_add(dy) {
        Some(y) => match y.checked_mul(w) {
            Some(row) => row,
            None => {
                return None;
            },
        },
        None => {
            // A row beyond the machine's numbers: only an image without
            // columns has a place for it, that of its column.
            if w == 0 {
                assert((coord.y + dy) * w == 0) by (nonlinear_arith)
                    requires
                        w == 0,
                ;
                0
            } else {
                assert((coord.y + dy) * w > usize::MAX) by (nonlinear_arith)
                    requires
                        coord.y + dy > usize::MAX,
                        w >= 1,
                ;
                return None;
            }
        },
    };
    match row.checked_add(x) {
        None => None,
        Some(i) => if i < n {
            Some(i)
        } else {
            None
        },
    }
}

/// The places in the buffer that the character `c` draws on: those of all
/// the slots of its bitmap, and none where the basic font has no bitmap
/// for it.
pub open spec fn glyph_places(c: char, w: nat, len: nat, coord: Coord2, cs: nat) -> Seq<usize> {
    match basic_glyph(c) {
        Some(rows) => cells(rows, w, len, coord, cs, slots(cs)),
        None => Seq::<usize>::empty(),
    }
}

/// Top left corner of the `i`-th character of a line of text that starts
/// at `coord`: each character is 8 bits of `cs` pixels wide.
pub open spec fn char_corner(coord: Coord2, cs: nat, i: nat) -> Coord2 {
    Coord2 { x: (coord.x + i * 8 * cs) as usize, y: coord.y }
}

/// The places in the buffer that the first `n` characters of a line of
/// text draw on, character after character.
pub open spec fn text_places(
    chars: Seq<char>,
    w: nat,
    len: nat,
    coord: Coord2,
    cs: nat,
    n: nat,
) -> Seq<usize>
    decreases n,
{
    if n == 0 {
        Seq::<usize>::empty()
    } else {
        text_places(chars, w, len, coord, cs, (n - 1) as nat) + glyph_places(
            chars[n - 1],
            w,
            len,
            char_corner(coord, cs, (n - 1) as nat),
            cs,
        )
    }
}

/// The places in the buffer that a character draws on, in drawing order.
/// `char_size` is the side, in pixels, of one bit of the character's
/// bitmap, and `coord` the character's top left corner. A character
/// without a bitmap in the basic font draws nothing. Drawing stops for good
/// at the first pixel that falls outside the buffer.
pub fn glyph_cells(buffer: &WindowBuffer, char_size: u16, coord: Coord2, c: char) -> (r: Vec<usize>)
    ensures
        r@ == glyph_places(c, buffer.size.w as nat, buffer.content@.len(), coord, char_size as nat),
        forall|j: int| 0 <= j < r@.len() ==> r@[j] < buffer.content@.len(),
{
    let mut out: Vec<usize> = Vec::new();
    let rows = match glyph_rows(c) {
        Some(rows) => rows,
        None => {
            return out;
        },
    };
    let cs = char_size as usize;
    if cs == 0 {
        assert(slots(0) == 0);
        return out;
    }
    let ghost w = buffer.size.w as nat;
    let ghost len = buffer.content@.len();
    let ghost size = cs as nat;
    let mut y: usize = 0;
    let mut x: u8 = 0;
    let mut rx: usize = 0;
    let mut ry: usize = 0;
    proof {
        assert(slot_at(size, 0, 0, 0, 0) == 0) by (nonlinear_arith);
    }
    while y < 8
        invariant
            cs == char_size,
            size == cs,
            cs > 0,
            w == buffer.size.w,
            len == buffer.content@.len(),
            rows@.len() == 8,
            basic_glyph(c) == Some(rows@),
            y <= 8,
            x < 8,
            rx < cs,
            ry < cs,
            y == 8 ==> x == 0 && rx == 0 && ry == 0,
            out@ == cells(rows@, w, len, coord, size, slot_at(size, y as nat, x as nat, rx as nat, ry as nat)),
            !halted(rows@, w, len, coord, size, slot_at(size, y as nat, x as nat, rx as nat, ry as nat)),
            forall|j: int| 0 <= j < out@.len() ==> out@[j] < len,
        decreases slots(size) - slot_at(size, y as nat, x as nat, rx as nat, ry as nat),
    {
        let ghost k = slot_at(size, y as nat, x as nat, rx as nat, ry as nat);
        proof {
            lemma_slot_at(size, y as nat, x as nat, rx as nat, ry as nat);
        }
        let mut stop = false;
        if is_lit(rows[y], x) {
            assert(x as usize * cs <= 7 * 0xffff) by (nonlinear_arith)
                requires
                    x < 8,
                    cs <= 0xffff,
            ;
            assert(y * cs <= 7 * 0xffff) by (nonlinear_arith)
                requires
                    y < 8,
                    cs <= 0xffff,
            ;
            match place(buffer, coord, x as usize * cs + rx, y * cs + ry) {
                Some(i) => {
                    out.push(i);
                },
                None => {
                    stop = true;
                },
            }
        }
        if stop {
            proof {
                lemma_cells_after_halt(rows@, w, len, coord, size, k, slots(size));
            }
            return out;
        }
        proof {
            assert(cells(rows@, w, len, coord, size, k + 1) == out@);
            assert(!halted(rows@, w, len, coord, size, k + 1)) by {
                if halted(rows@, w, len, coord, size, k + 1) {
                    let j = choose|j: nat|
                        j < k + 1 && slot_lit(rows@, size, j) && #[trigger] slot_place(
                            w,
                            coord,
                            size,
                            j,
                        ) >= len;
                    if j < k {
                        assert(halted(rows@, w, len, coord, size, k));
                    }
                }
            }
        }
        let ghost from = (y as nat, x as nat, rx as nat, ry as nat);
        ry = ry + 1;
        if ry == cs {
            ry = 0;
            rx = rx + 1;
            if rx == cs {
                rx = 0;
                x = x + 1;
                if x == 8 {
                    x = 0;
                    y = y + 1;
                }
            }
        }
        proof {
            lemma_next_slot(size, from, (y as nat, x as nat, rx as nat, ry as nat));
        }
    }
    proof {
        assert(slot_at(size, 8, 0, 0, 0) == slots(size)) by (nonlinear_arith);
    }
    out
}

/// Once drawing has stopped, nothing more is drawn.
pub proof fn lemma_cells_after_halt(
    rows: Seq<u8>,
    w: nat,
    len: nat,
    coord: Coord2,
    cs: nat,
    k: nat,
    n: nat,
)
    requires
        k < n,
        slot_lit(rows, cs, k),
        slot_place(w, coord, cs, k) >= len,
    ensures
        cells(rows, w, len, coord, cs, n) == cells(rows, w, len, coord, cs, k),
    decreases n,
{
    if n > k + 1 {
        lemma_cells_after_halt(rows, w, len, coord, cs, k, (n - 1) as nat);
        assert(halted(rows, w, len, coord, cs, (n - 1) as nat));
    }
}

/// Stepping the four counters like an odometer reaches the next slot.
proof fn lemma_next_slot(cs: nat, from: (nat, nat, nat, nat), to: (nat, nat, nat, nat))
    requires
        cs > 0,
        steps_to(cs, from, to),
    ensures
        slot_at(cs, to.0, to.1, to.2, to.3) == slot_at(cs, from.0, from.1, from.2, from.3) + 1,
{
    let (y, x, rx, ry) = from;
    if ry + 1 < cs {
    } else if rx + 1 < cs {
        assert(((y * 8 + x) * cs + rx + 1) * cs == ((y * 8 + x) * cs + rx) * cs + cs)
            by (nonlinear_arith);
    } else if x + 1 < 8 {
        assert(((y * 8 + x + 1) * cs) * cs == ((y * 8 + x) * cs + rx) * cs + ry + 1)
            by (nonlinear_arith)
            requires
                rx + 1 == cs,
                ry + 1 == cs,
        ;
    } else {
        assert((((y + 1) * 8) * cs) * cs == ((y * 8 + x) * cs + rx) * cs + ry + 1)
            by (nonlinear_arith)
            requires
                rx + 1 == cs,
                ry + 1 == cs,
                x + 1 == 8,
        ;
    }
}

/// One step of the four counters.
pub open spec fn steps_to(cs: nat, from: (nat, nat, nat, nat), to: (nat, nat, nat, nat)) -> bool {
    let (y, x, rx, ry) = from;
    if ry + 1 < cs {
        to == (y, x, rx, ry + 1)
    } else if ry + 1 == cs && rx + 1 < cs {
        to == (y, x, rx + 1, 0nat)
    } else if ry + 1 == cs && rx + 1 == cs && x + 1 < 8 {
        to == (y, x + 1, 0nat, 0nat)
    } else {
        ry + 1 == cs && rx + 1 == cs && x + 1 == 8 && to == (y + 1, 0nat, 0nat, 0nat)
    }
}

/// Side of one bit of a character: the font size times the scale of the
/// overlay.
pub fn char_size(font_size: u16, ui_scale: u16) -> (r: u16)
    requires
        font_size * ui_scale <= u16::MAX,
    ensures
        r == font_size * ui_scale,
{
    font_size * ui_scale
}

/// Distance, in pixels, from the top of one line of the overlay to the
/// top of the next: the 8 rows of a character of the line's font size and
/// the space between lines, times the scale of the overlay.
pub fn line_step(ui_scale: u16, font_size: u16, inter_lines_height: u16) -> (r: u64)
    ensures
        r == ui_scale * (8 * font_size + inter_lines_height),
{
    let rows: u64 = 8 * (font_size as u64) + inter_lines_height as u64;
    assert(ui_scale * rows <= 0xffff * 0x8fff7) by (nonlinear_arith)
        requires
            ui_scale <= 0xffff,
            rows <= 0x8fff7,
    ;
    (ui_scale as u64) * rows
}

/// The places in the buffer that a line of text draws on, in drawing
/// order. The line starts at `coord`, and `char_size` is the side of one
/// bit of its characters. Each character draws as `glyph_cells` says: one
/// that reaches beyond the buffer stops there, and the next character starts
/// afresh.
pub fn text_cells(buffer: &WindowBuffer, content: &str, char_size: u16, coord: Coord2) -> (r: Vec<
    usize,
>)
    requires
        coord.x + content@.len() * 8 * char_size <= usize::MAX,
    ensures
        r@ == text_places(
            content@,
            buffer.size.w as nat,
            buffer.content@.len(),
            coord,
            char_size as nat,
            content@.len(),
        ),
        forall|j: int| 0 <= j < r@.len() ==> r@[j] < buffer.content@.len(),
{
    let n = content.unicode_len();
    let step: usize = 8 * (char_size as usize);
    let mut out: Vec<usize> = Vec::new();
    let mut i: usize = 0;
    while i < n
        invariant
            i <= n,
            n == content@.len(),
            step == 8 * char_size,
            coord.x + content@.len() * 8 * char_size <= usize::MAX,
            out@ == text_places(
                content@,
                buffer.size.w as nat,
                buffer.content@.len(),
                coord,
                char_size as nat,
                i as nat,
            ),
            forall|j: int| 0 <= j < out@.len() ==> out@[j] < buffer.content@.len(),
        decreases n - i,
    {
        assert(i * step == i * 8 * char_size && i * step <= content@.len() * 8 * char_size)
            by (nonlinear_arith)
            requires
                step == 8 * char_size,
                i < content@.len(),
        ;
        let corner = Coord2 { x: coord.x + i * step, y: coord.y };
        let mut drawn = glyph_cells(buffer, char_size, corner, content.get_char(i));
        out.append(&mut drawn);
        i = i + 1;
    }
    out
}

} // verus!
