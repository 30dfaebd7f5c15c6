//! Surfaces that glyphs are pasted onto.

use crate::colours::TextColour;
use vstd::prelude::*;

verus! {

/// A surface that pixels can be drawn to, and the form in which the renderer
/// keeps a coloured glyph.
pub trait DrawableSurface: Sized {
    /// Whether this surface is one that `from_raw_mask` may give for these
    /// arguments. A surface type that says nothing of it admits every surface.
    open spec fn built_from(&self, width: usize, height: usize, data: Seq<u8>, colour: TextColour) -> bool {
        true
    }

    /// Whether this surface is one that `paste` with these arguments may
    /// leave of the surface `before`. A surface type that says nothing of it
    /// admits every surface.
    open spec fn pasted_from(
        &self,
        before: &Self,
        x: usize,
        y: usize,
        width: usize,
        height: usize,
        data: &Self,
    ) -> bool {
        true
    }

    /// Pastes a glyph onto the surface. `x` and `y` are where the top left of
    /// the glyph goes; `width` and `height` are the size of the area to copy,
    /// which may differ from the size of `data`.
    fn paste(&mut self, x: usize, y: usize, width: usize, height: usize, data: &Self)
        ensures
            final(self).pasted_from(old(self), x, y, width, height, data),
    ;

    /// Makes a surface of the given size from RGBA bytes. `colour` is the
    /// colour that the bytes were made with; it is not applied again.
    fn from_raw_mask(width: usize, height: usize, data: &[u8], colour: TextColour) -> (made: Self)
        ensures
            made.built_from(width, height, data@, colour),
    ;
}

/// Whether `data` holds all four bytes of the pixel of linear number `p`.
pub open spec fn holds_pixel(data: Seq<u8>, p: int) -> bool {
    0 <= p && 4 * p + 3 < data.len()
}

/// `dst` after pixel `q` of `src` was copied to its pixel `p`: unchanged
/// where either buffer does not hold its pixel.
pub open spec fn copy_pixel(dst: Seq<u8>, p: int, src: Seq<u8>, q: int) -> Seq<u8> {
    if holds_pixel(dst, p) && holds_pixel(src, q) {
        dst.update(4 * p, src[4 * q]).update(4 * p + 1, src[4 * q + 1]).update(
            4 * p + 2,
            src[4 * q + 2],
        ).update(4 * p + 3, src[4 * q + 3])
    } else {
        dst
    }
}

/// `dst` after the first `n` pixels of row `j` of a block were pasted. The
/// pixel of column `i` comes from pixel `j * sw + i` of `src` and goes to
/// pixel `(y + j) * dw + (x + i)` of `dst`: each buffer is addressed by its
/// own row width, and a pixel that either buffer does not hold is passed over.
pub open spec fn paste_row(
    dst: Seq<u8>,
    dw: int,
    x: int,
    y: int,
    src: Seq<u8>,
    sw: int,
    j: int,
    n: nat,
) -> Seq<u8>
    decreases n,
{
    if n == 0 {
        dst
    } else {
        let i = n - 1;
        copy_pixel(
            paste_row(dst, dw, x, y, src, sw, j, i as nat),
            (y + j) * dw + (x + i),
            src,
            j * sw + i,
        )
    }
}

/// `dst` after the first `m` rows of a block `width` pixels wide were
/// pasted, row after row and left to right within a row.
pub open spec fn paste_rows(
    dst: Seq<u8>,
    dw: int,
    x: int,
    y: int,
    src: Seq<u8>,
    sw: int,
    width: nat,
    m: nat,
) -> Seq<u8>
    decreases m,
{
    if m == 0 {
        dst
    } else {
        paste_row(
            paste_rows(dst, dw, x, y, src, sw, width, (m - 1) as nat),
            dw,
            x,
            y,
            src,
            sw,
            m - 1,
            width,
        )
    }
}

/// Pasting keeps the length of the destination.
pub proof fn lemma_paste_row_len(
    dst: Seq<u8>,
    dw: int,
    x: int,
    y: int,
    src: Seq<u8>,
    sw: int,
    j: int,
    n: nat,
)
    ensures
        paste_row(dst, dw, x, y, src, sw, j, n).len() == dst.len(),
    decreases n,
{
    if n > 0 {
        lemma_paste_row_len(dst, dw, x, y, src, sw, j, (n - 1) as nat);
    }
}

/// Pasting keeps the length of the destination, whatever the block and
/// wherever it goes: no pixel is written outside the buffer.
pub proof fn lemma_paste_keeps_len(
    dst: Seq<u8>,
    dw: int,
    x: int,
    y: int,
    src: Seq<u8>,
    sw: int,
    width: nat,
    m: nat,
)
    ensures
        paste_rows(dst, dw, x, y, src, sw, width, m).len() == dst.len(),
    decreases m,
{
    if m > 0 {
        lemma_paste_keeps_len(dst, dw, x, y, src, sw, width, (m - 1) as nat);
        lemma_paste_row_len(
            paste_rows(dst, dw, x, y, src, sw, width, (m - 1) as nat),
            dw,
            x,
            y,
            src,
            sw,
            m - 1,
            width,
        );
    }
}

/// A row whose pixels both buffers hold: the bytes of its first `n` pixels
/// are those of the source row, and every other byte is as it was.
proof fn lemma_paste_row_inside(
    dst: Seq<u8>,
    dw: int,
    x: int,
    y: int,
    src: Seq<u8>,
    sw: int,
    j: int,
    n: nat,
)
    requires
        0 <= (y + j) * dw + x,
        4 * ((y + j) * dw + x + n) <= dst.len(),
        0 <= j * sw,
        4 * (j * sw + n) <= src.len(),
    ensures
        paste_row(dst, dw, x, y, src, sw, j, n).len() == dst.len(),
        forall|k: int|
            0 <= k < dst.len() ==> #[trigger] paste_row(dst, dw, x, y, src, sw, j, n)[k] == if 4 * ((y
                + j) * dw + x) <= k < 4 * ((y + j) * dw + x + n) {
                src[4 * (j * sw) + (k - 4 * ((y + j) * dw + x))]
            } else {
                dst[k]
            },
    decreases n,
{
    if n > 0 {
        lemma_paste_row_inside(dst, dw, x, y, src, sw, j, (n - 1) as nat);
        let i = n - 1;
        let prev = paste_row(dst, dw, x, y, src, sw, j, i as nat);
        let p = (y + j) * dw + (x + i);
        let q = j * sw + i;
        assert(holds_pixel(prev, p));
        assert(holds_pixel(src, q));
        assert(paste_row(dst, dw, x, y, src, sw, j, n) == copy_pixel(prev, p, src, q));
    }
}

/// The byte of channel `c` of the block's pixel (`i`, `j`) in a destination
/// whose rows are `dw` pixels wide, for a block pasted at (`x`, `y`).
pub open spec fn block_byte(dw: int, x: int, y: int, i: int, j: int, c: int) -> int {
    4 * ((y + j) * dw + x + i) + c
}

/// Whether byte `k` of the destination lies in one of the first `m` rows of
/// a block `width` pixels wide pasted at (`x`, `y`).
pub open spec fn in_block(k: int, dw: int, x: int, y: int, width: nat, m: nat) -> bool {
    exists|j: int|
        0 <= j < m && 4 * (#[trigger] row_base(dw, x, y, j)) <= k < 4 * (row_base(dw, x, y, j)
            + width)
}

/// The number of the destination pixel that row `j` of a block starts at.
pub open spec fn row_base(dw: int, x: int, y: int, j: int) -> int {
    (y + j) * dw + x
}

/// A block that lies within the destination, read from a source that holds
/// all of it, is copied pixel for pixel: pixel (`i`, `j`) of the source
/// becomes pixel (`x + i`, `y + j`) of the destination, and every byte
/// outside the block stays as it was.
pub proof fn lemma_paste_inside(
    dst: Seq<u8>,
    dw: int,
    x: int,
    y: int,
    src: Seq<u8>,
    sw: int,
    width: nat,
    m: nat,
)
    requires
        0 <= x,
        0 <= y,
        x + width <= dw,
        width <= sw,
        4 * ((y + m) * dw) <= dst.len(),
        4 * (m * sw) <= src.len(),
    ensures
        paste_rows(dst, dw, x, y, src, sw, width, m).len() == dst.len(),
        forall|i: int, j: int, c: int|
            0 <= i < width && 0 <= j < m && 0 <= c < 4 ==> paste_rows(
                dst,
                dw,
                x,
                y,
                src,
                sw,
                width,
                m,
            )[#[trigger] block_byte(dw, x, y, i, j, c)] == src[4 * (j * sw + i) + c],
        forall|k: int|
            0 <= k < dst.len() && !in_block(k, dw, x, y, width, m) ==> #[trigger] paste_rows(
                dst,
                dw,
                x,
                y,
                src,
                sw,
                width,
                m,
            )[k] == dst[k],
    decreases m,
{
    if m > 0 {
        let r = (m - 1) as nat;
        let prev = paste_rows(dst, dw, x, y, src, sw, width, r);
        let now = paste_rows(dst, dw, x, y, src, sw, width, m);
        let base = (y + r) * dw + x;
        assert((y + r) * dw <= (y + m) * dw && (y + r) * dw + dw == (y + m) * dw && 0 <= (y + r)
            * dw) by (nonlinear_arith)
            requires
                r + 1 == m,
                0 <= y,
                0 <= dw,
        ;
        assert(r * sw + sw == m * sw && 0 <= r * sw) by (nonlinear_arith)
            requires
                r + 1 == m,
                0 <= sw,
        ;
        lemma_paste_inside(dst, dw, x, y, src, sw, width, r);
        lemma_paste_row_inside(prev, dw, x, y, src, sw, r as int, width);
        assert(now == paste_row(prev, dw, x, y, src, sw, r as int, width));
        assert forall|i: int, j: int, c: int| 0 <= i < width && 0 <= j < m && 0 <= c < 4 implies now[#[trigger] block_byte(
            dw,
            x,
            y,
            i,
            j,
            c,
        )] == src[4 * (j * sw + i) + c] by {
            let k = block_byte(dw, x, y, i, j, c);
            if j < r {
                assert((y + j) * dw + dw <= (y + r) * dw && 0 <= (y + j) * dw) by (nonlinear_arith)
                    requires
                        0 <= j < r,
                        0 <= y,
                        0 <= dw,
                ;
                assert(0 <= k < 4 * base);
                assert(now[k] == prev[k]);
            } else {
                assert(4 * base <= k < 4 * (base + width));
                assert(0 <= k < dst.len());
            }
        }
        assert forall|k: int| 0 <= k < dst.len() && !in_block(k, dw, x, y, width, m) implies #[trigger] now[k]
            == dst[k] by {
            assert(row_base(dw, x, y, r as int) == base);
            assert(!(4 * base <= k < 4 * (base + width)));
            assert(now[k] == prev[k]);
            if in_block(k, dw, x, y, width, r) {
                let j = choose|j: int|
                    0 <= j < r && 4 * (#[trigger] row_base(dw, x, y, j)) <= k < 4 * (row_base(
                        dw,
                        x,
                        y,
                        j,
                    ) + width);
                assert(0 <= j < m);
                assert(false);
            }
        }
    }
}

/// Whether the block's pixel (`i`, `j`) is copied: the destination holds the
/// pixel it goes to and the source holds the pixel it comes from.
pub open spec fn pixel_copied(
    dst: Seq<u8>,
    dw: int,
    x: int,
    y: int,
    src: Seq<u8>,
    sw: int,
    i: int,
    j: int,
) -> bool {
    holds_pixel(dst, row_base(dw, x, y, j) + i) && holds_pixel(src, j * sw + i)
}

/// Whether byte `k` of the destination belongs to a pixel that one of the
/// first `m` rows of the block copies to.
pub open spec fn targeted(
    k: int,
    dst: Seq<u8>,
    dw: int,
    x: int,
    y: int,
    src: Seq<u8>,
    sw: int,
    width: nat,
    m: nat,
) -> bool {
    exists|i: int, j: int|
        0 <= i < width && 0 <= j < m && #[trigger] pixel_copied(dst, dw, x, y, src, sw, i, j) && 4
            * (row_base(dw, x, y, j) + i) <= k < 4 * (row_base(dw, x, y, j) + i) + 4
}

/// One row, clipped: each pixel that is copied holds the source pixel, each
/// that is passed over is as it was, and so is every byte outside the row.
proof fn lemma_paste_row_clipped(
    dst: Seq<u8>,
    dw: int,
    x: int,
    y: int,
    src: Seq<u8>,
    sw: int,
    j: int,
    n: nat,
)
    ensures
        paste_row(dst, dw, x, y, src, sw, j, n).len() == dst.len(),
        forall|i: int, c: int|
            0 <= i < n && 0 <= c < 4 && pixel_copied(dst, dw, x, y, src, sw, i, j) ==> paste_row(
                dst,
                dw,
                x,
                y,
                src,
                sw,
                j,
                n,
            )[#[trigger] block_byte(dw, x, y, i, j, c)] == src[4 * (j * sw + i) + c],
        forall|i: int, c: int|
            0 <= i < n && 0 <= c < 4 && !pixel_copied(dst, dw, x, y, src, sw, i, j) && 0
                <= block_byte(dw, x, y, i, j, c) < dst.len() ==> paste_row(
                dst,
                dw,
                x,
                y,
                src,
                sw,
                j,
                n,
            )[#[trigger] block_byte(dw, x, y, i, j, c)] == dst[block_byte(dw, x, y, i, j, c)],
        forall|k: int|
            0 <= k < dst.len() && !(4 * row_base(dw, x, y, j) <= k < 4 * (row_base(dw, x, y, j)
                + n)) ==> #[trigger] paste_row(dst, dw, x, y, src, sw, j, n)[k] == dst[k],
    decreases n,
{
    if n > 0 {
        lemma_paste_row_clipped(dst, dw, x, y, src, sw, j, (n - 1) as nat);
        let last = n - 1;
        let prev = paste_row(dst, dw, x, y, src, sw, j, last as nat);
        let now = paste_row(dst, dw, x, y, src, sw, j, n);
        let p = (y + j) * dw + (x + last);
        let q = j * sw + last;
        assert(now == copy_pixel(prev, p, src, q));
        assert(p == row_base(dw, x, y, j) + last);
        assert forall|i: int, c: int|
            0 <= i < n && 0 <= c < 4 && pixel_copied(dst, dw, x, y, src, sw, i, j) implies now[#[trigger] block_byte(
            dw,
            x,
            y,
            i,
            j,
            c,
        )] == src[4 * (j * sw + i) + c] by {
            let k = block_byte(dw, x, y, i, j, c);
            assert(k == 4 * (row_base(dw, x, y, j) + i) + c);
            if i < last {
                assert(now[k] == prev[k]);
            }
        }
        assert forall|i: int, c: int|
            0 <= i < n && 0 <= c < 4 && !pixel_copied(dst, dw, x, y, src, sw, i, j) && 0
                <= block_byte(dw, x, y, i, j, c) < dst.len() implies now[#[trigger] block_byte(
            dw,
            x,
            y,
            i,
            j,
            c,
        )] == dst[block_byte(dw, x, y, i, j, c)] by {
            let k = block_byte(dw, x, y, i, j, c);
            assert(k == 4 * (row_base(dw, x, y, j) + i) + c);
            assert(now[k] == prev[k]);
        }
    }
}

/// A block no wider than the destination, clipped: every pixel of the block
/// that both buffers hold is in the destination at its own number, with the
/// source pixel of the same column and row in it, whatever was passed over
/// before it; and every byte that no such pixel goes to is as it was.
pub proof fn lemma_paste_clipped(
    dst: Seq<u8>,
    dw: int,
    x: int,
    y: int,
    src: Seq<u8>,
    sw: int,
    width: nat,
    m: nat,
)
    requires
        width <= dw,
    ensures
        paste_rows(dst, dw, x, y, src, sw, width, m).len() == dst.len(),
        forall|i: int, j: int, c: int|
            0 <= i < width && 0 <= j < m && 0 <= c < 4 && pixel_copied(
                dst,
                dw,
                x,
                y,
                src,
                sw,
                i,
                j,
            ) ==> paste_rows(dst, dw, x, y, src, sw, width, m)[#[trigger] block_byte(
                dw,
                x,
                y,
                i,
                j,
                c,
            )] == src[4 * (j * sw + i) + c],
        forall|k: int|
            0 <= k < dst.len() && !targeted(k, dst, dw, x, y, src, sw, width, m)
                ==> #[trigger] paste_rows(dst, dw, x, y, src, sw, width, m)[k] == dst[k],
    decreases m,
{
    if m > 0 {
        let r = (m - 1) as nat;
        let prev = paste_rows(dst, dw, x, y, src, sw, width, r);
        let now = paste_rows(dst, dw, x, y, src, sw, width, m);
        let base = row_base(dw, x, y, r as int);
        lemma_paste_clipped(dst, dw, x, y, src, sw, width, r);
        lemma_paste_row_clipped(prev, dw, x, y, src, sw, r as int, width);
        assert(now == paste_row(prev, dw, x, y, src, sw, r as int, width));
        assert forall|i: int, j: int, c: int|
            0 <= i < width && 0 <= j < m && 0 <= c < 4 && pixel_copied(
                dst,
                dw,
                x,
                y,
                src,
                sw,
                i,
                j,
            ) implies now[#[trigger] block_byte(dw, x, y, i, j, c)] == src[4 * (j * sw + i) + c] by {
            let k = block_byte(dw, x, y, i, j, c);
            assert(k == 4 * (row_base(dw, x, y, j) + i) + c);
            if j < r {
                assert((y + j) * dw + dw <= (y + r) * dw) by (nonlinear_arith)
                    requires
                        j < r,
                        0 <= dw,
                ;
                assert(k < 4 * base);
                assert(now[k] == prev[k]);
            } else {
                assert(pixel_copied(prev, dw, x, y, src, sw, i, r as int));
            }
        }
        assert forall|k: int|
            0 <= k < dst.len() && !targeted(k, dst, dw, x, y, src, sw, width, m) implies #[trigger] now[k]
            == dst[k] by {
            if targeted(k, dst, dw, x, y, src, sw, width, r) {
                let (i, j) = choose|i: int, j: int|
                    0 <= i < width && 0 <= j < r && #[trigger] pixel_copied(
                        dst,
                        dw,
                        x,
                        y,
                        src,
                        sw,
                        i,
                        j,
                    ) && 4 * (row_base(dw, x, y, j) + i) <= k < 4 * (row_base(dw, x, y, j) + i) + 4;
                assert(0 <= j < m);
                assert(false);
            }
            assert(prev[k] == dst[k]);
            if 4 * base <= k < 4 * (base + width) {
                let i = k / 4 - base;
                let c = k % 4;
                assert(block_byte(dw, x, y, i, r as int, c) == k);
                if pixel_copied(prev, dw, x, y, src, sw, i, r as int) {
                    assert(pixel_copied(dst, dw, x, y, src, sw, i, r as int));
                    assert(false);
                }
                assert(now[k] == prev[k]);
            }
        }
    }
}

/// A coordinate as a signed number: its low 32 bits in two's complement, so
/// that a place left of or above the surface can be written.
pub open spec fn signed_coord(v: usize) -> int {
    let low = v as int % 0x1_0000_0000;
    if low < 0x8000_0000 {
        low
    } else {
        low - 0x1_0000_0000
    }
}

/// Computes [`signed_coord`].
pub fn to_signed(v: usize) -> (s: i64)
    ensures
        s == signed_coord(v),
{
    let low: u64 = (v as u64) % 0x1_0000_0000;
    if low < 0x8000_0000 {
        low as i64
    } else {
        low as i64 - 0x1_0000_0000
    }
}

/// A surface of RGBA pixels in memory: four bytes per pixel, row by row.
#[derive(Debug)]
pub struct RgbaSurface {
    pub width: usize,
    pub height: usize,
    pub data: Vec<u8>,
}

impl Clone for RgbaSurface {
    /// A clone has the size and the bytes of the surface it was made from.
    fn clone(&self) -> (copy: Self)
        ensures
            copy.width == self.width,
            copy.height == self.height,
            copy.data@ == self.data@,
    {
        let data: Vec<u8> = self.data.clone();
        assert(data@ =~= self.data@);
        RgbaSurface { width: self.width, height: self.height, data }
    }
}

/// Whatever is a clone of a surface has its size and its bytes.
pub proof fn lemma_clone_keeps_pixels(a: RgbaSurface, b: RgbaSurface)
    requires
        vstd::pervasive::cloned(a, b),
    ensures
        b.width == a.width,
        b.height == a.height,
        b.data@ == a.data@,
{
}

impl RgbaSurface {
    /// A surface of the given size with every byte zero, or `None` where the
    /// number of its bytes is out of range.
    pub fn blank(width: usize, height: usize) -> (made: Option<Self>)
        ensures
            width * height * 4 <= usize::MAX <==> made.is_some(),
            made matches Some(s) ==> s.width == width && s.height == height && s.data@
                == Seq::new((width * height * 4) as nat, |k: int| 0u8),
    {
        let pixels: usize = match width.checked_mul(height) {
            Some(p) => p,
            None => {
                assert(width * height * 4 > usize::MAX) by (nonlinear_arith)
                    requires
                        width * height > usize::MAX,
                ;
                return None;
            },
        };
        let len: usize = match pixels.checked_mul(4) {
            Some(l) => l,
            None => {
                return None;
            },
        };
        let mut data: Vec<u8> = Vec::new();
        let mut k: usize = 0;
        while k < len
            invariant
                k <= len,
                data@ == Seq::new(k as nat, |k: int| 0u8),
            decreases len - k,
        {
            data.push(0);
            k += 1;
            assert(data@ =~= Seq::new(k as nat, |k: int| 0u8));
        }
        Some(RgbaSurface { width, height, data })
    }

    /// Copies one pixel where both buffers hold it.
    fn put_pixel(&mut self, p: i128, src: &Vec<u8>, q: u128)
        ensures
            final(self).width == old(self).width,
            final(self).height == old(self).height,
            final(self).data@ == copy_pixel(old(self).data@, p as int, src@, q as int),
    {
        let held: usize = self.data.len() / 4;
        let given: usize = src.len() / 4;
        if 0 <= p && p < held as i128 && q < given as u128 {
            let d: usize = (p * 4) as usize;
            let s: usize = (q * 4) as usize;
            self.data.set(d, src[s]);
            self.data.set(d + 1, src[s + 1]);
            self.data.set(d + 2, src[s + 2]);
            self.data.set(d + 3, src[s + 3]);
        }
    }
}

impl DrawableSurface for RgbaSurface {
    open spec fn built_from(&self, width: usize, height: usize, data: Seq<u8>, colour: TextColour) -> bool {
        self.width == width && self.height == height && self.data@ == data
    }

    /// The surface keeps its size, and its bytes are those of `before` with
    /// the block pasted at (`x`, `y`), read as signed coordinates.
    open spec fn pasted_from(
        &self,
        before: &Self,
        x: usize,
        y: usize,
        width: usize,
        height: usize,
        data: &Self,
    ) -> bool {
        &&& self.width == before.width
        &&& self.height == before.height
        &&& self.data@ == paste_rows(
            before.data@,
            before.width as int,
            signed_coord(x),
            signed_coord(y),
            data.data@,
            data.width as int,
            width as nat,
            height as nat,
        )
    }

    /// Pastes `width` by `height` pixels of `data` at (`x`, `y`), read as
    /// signed coordinates. Pixels that fall outside either buffer are passed
    /// over; the rest of the block is still copied.
    fn paste(&mut self, x: usize, y: usize, width: usize, height: usize, data: &Self) {
        let ghost before = self.data@;
        let ghost dw = self.width as int;
        let ghost tall = self.height;
        let ghost sw = data.width as int;
        let sx: i128 = to_signed(x) as i128;
        let sy: i128 = to_signed(y) as i128;
        let mut j: usize = 0;
        while j < height
            invariant
                j <= height,
                self.width == dw,
                self.height == tall,
                data.width == sw,
                sx == signed_coord(x),
                sy == signed_coord(y),
                self.data@ == paste_rows(before, dw, sx as int, sy as int, data.data@, sw, width as nat, j as nat),
            decreases height - j,
        {
            let ghost row_start = self.data@;
            let mut i: usize = 0;
            while i < width
                invariant
                    i <= width,
                    j < height,
                    self.width == dw,
                    self.height == tall,
                    data.width == sw,
                    sx == signed_coord(x),
                    sy == signed_coord(y),
                    self.data@ == paste_row(row_start, dw, sx as int, sy as int, data.data@, sw, j as int, i as nat),
                decreases width - i,
            {
                let row: i128 = sy + j as i128;
                let col: i128 = sx + i as i128;
                let ghost p = row * dw + col;
                let ghost q = j * sw + i;
                assert(0 <= q <= 0xffff_ffff_ffff_ffff * 0xffff_ffff_ffff_ffff + 0xffff_ffff_ffff_ffff) by (nonlinear_arith)
                    requires
                        q == j * sw + i,
                        0 <= j <= 0xffff_ffff_ffff_ffff,
                        0 <= sw <= 0xffff_ffff_ffff_ffff,
                        0 <= i <= 0xffff_ffff_ffff_ffff,
                ;
                let from: u128 = j as u128 * data.width as u128 + i as u128;
                if self.width == 0 {
                    assert(p == col) by (nonlinear_arith)
                        requires
                            p == row * dw + col,
                            dw == 0,
                    ;
                    self.put_pixel(col, &data.data, from);
                } else if row < 0x8000_0000_0000_0000 {
                    assert(-0x8000_0000 * 0xffff_ffff_ffff_ffff <= row * dw
                        <= 0x7fff_ffff_ffff_ffff * 0xffff_ffff_ffff_ffff) by (nonlinear_arith)
                        requires
                            -0x8000_0000 <= row <= 0x7fff_ffff_ffff_ffff,
                            1 <= dw <= 0xffff_ffff_ffff_ffff,
                    ;
                    let to: i128 = row * (self.width as i128) + col;
                    self.put_pixel(to, &data.data, from);
                } else {
                    assert(row * dw >= row) by (nonlinear_arith)
                        requires
                            row >= 0,
                            dw >= 1,
                    ;
                    assert(self.data@.len() == self.data.len() <= usize::MAX);
                    assert(!holds_pixel(self.data@, p));
                }
                i += 1;
            }
            j += 1;
        }
    }

    fn from_raw_mask(width: usize, height: usize, data: &[u8], colour: TextColour) -> (made: Self) {
        let mut bytes: Vec<u8> = Vec::new();
        let mut k: usize = 0;
        while k < data.len()
            invariant
                k <= data@.len(),
                bytes@ == data@.take(k as int),
            decreases data@.len() - k,
        {
            bytes.push(data[k]);
            k += 1;
            assert(bytes@ =~= data@.take(k as int));
        }
        assert(data@.take(data@.len() as int) =~= data@);
        RgbaSurface { width, height, data: bytes }
    }
}

} // verus!
