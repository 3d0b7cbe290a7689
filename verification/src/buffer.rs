//! The row-oriented output buffer and its encoder.
//!
//! The buffer hands out rows to be computed ("leases") one at a time and
//! collects the finished rows; two counters track how many rows were
//! leased and returned.  Each call of `get_line` leases a fresh row index,
//! so no two leases ever name the same row.  `encode` serializes the
//! completed grid as a plain-text pixel image: a three-line header, then
//! one line per pixel with three space-separated channel values in
//! `[0, 255]`, rows emitted top-to-bottom (the last row first).

use crate::color::{channel_byte_of, color_bytes, Color};
use crate::vec3::V3;
use vstd::prelude::*;

verus! {

/// Mathematical model of the buffer.
pub struct BufferModel {
    pub width: int,
    pub height: int,
    pub data: Seq<Seq<V3>>,
    pub leased: int,
    pub returned: int,
}

/// The decimal digits of `n`, most significant first.
pub open spec fn dec_rec(n: nat) -> Seq<u8>
    decreases n,
{
    if n < 10 {
        seq![(48 + n) as u8]
    } else {
        dec_rec(n / 10).push((48 + n % 10) as u8)
    }
}

/// The output line of one pixel: `"<r> <g> <b>\n"`.
pub open spec fn pix_bytes(c: V3) -> Seq<u8> {
    dec_rec(channel_byte_of(c.x) as nat) + seq![32u8] + dec_rec(channel_byte_of(c.y) as nat)
        + seq![32u8] + dec_rec(channel_byte_of(c.z) as nat) + seq![10u8]
}

/// The output of the first `j` pixels of a row.
pub open spec fn row_bytes_upto(row: Seq<V3>, j: int) -> Seq<u8>
    decreases j,
{
    if j <= 0 {
        Seq::empty()
    } else {
        row_bytes_upto(row, j - 1) + pix_bytes(row[j - 1])
    }
}

/// The output of one row of pixels, left to right.
pub open spec fn row_bytes(row: Seq<V3>) -> Seq<u8> {
    row_bytes_upto(row, row.len() as int)
}

/// The output of the first `k` emitted rows: rows leave top-to-bottom,
/// so the `i`-th emitted row is `data[len - 1 - i]`.
pub open spec fn rows_emit(data: Seq<Seq<V3>>, k: int) -> Seq<u8>
    decreases k,
{
    if k <= 0 {
        Seq::empty()
    } else {
        rows_emit(data, k - 1) + row_bytes(data[data.len() - k])
    }
}

/// The image header: `"P3\n<width> <height>\n256\n"`.
pub open spec fn header_bytes(width: int, height: int) -> Seq<u8> {
    seq![80u8, 51u8, 10u8] + dec_rec(width as nat) + seq![32u8] + dec_rec(height as nat)
        + seq![10u8, 50u8, 53u8, 54u8, 10u8]
}

/// The full image file: header, then every row top-to-bottom.
pub open spec fn encode_bytes(m: BufferModel) -> Seq<u8> {
    header_bytes(m.width, m.height) + rows_emit(m.data, m.height)
}

/// `k` copies of a byte sequence, one after the other.
pub open spec fn repeat_bytes(b: Seq<u8>, k: int) -> Seq<u8>
    decreases k,
{
    if k <= 0 {
        Seq::empty()
    } else {
        repeat_bytes(b, k - 1) + b
    }
}

/// Repetitions concatenate: `a + b` copies are `a` copies then `b` copies.
pub proof fn lemma_repeat_bytes_add(b: Seq<u8>, a: int, c: int)
    requires
        a >= 0,
        c >= 0,
    ensures
        repeat_bytes(b, a + c) == repeat_bytes(b, a) + repeat_bytes(b, c),
    decreases c,
{
    if c == 0 {
        assert(repeat_bytes(b, a) + repeat_bytes(b, 0) =~= repeat_bytes(b, a));
    } else {
        lemma_repeat_bytes_add(b, a, c - 1);
        assert(repeat_bytes(b, a) + repeat_bytes(b, c) =~= (repeat_bytes(b, a) + repeat_bytes(
            b,
            c - 1,
        )) + b);
    }
}

/// A row of identical pixels encodes as that pixel's line repeated.
pub proof fn lemma_row_bytes_uniform(row: Seq<V3>, j: int, c: V3)
    requires
        0 <= j <= row.len(),
        forall|t: int| 0 <= t < row.len() ==> row[t] == c,
    ensures
        row_bytes_upto(row, j) == repeat_bytes(pix_bytes(c), j),
    decreases j,
{
    if j > 0 {
        lemma_row_bytes_uniform(row, j - 1, c);
    }
}

/// A buffer filled with one color encodes as the header followed by that
/// pixel's output line repeated once per pixel: all white gives
/// `255 255 255` lines, all black gives `0 0 0` lines.
pub proof fn lemma_encode_uniform(m: BufferModel, c: V3)
    requires
        m.height >= 0,
        m.width >= 0,
        m.data.len() == m.height,
        forall|i: int| 0 <= i < m.data.len() ==> (#[trigger] m.data[i]).len() == m.width,
        forall|i: int, j: int|
            0 <= i < m.data.len() && 0 <= j < m.width ==> #[trigger] m.data[i][j] == c,
    ensures
        encode_bytes(m) == header_bytes(m.width, m.height) + repeat_bytes(
            pix_bytes(c),
            m.width * m.height,
        ),
{
    lemma_rows_emit_uniform(m, c, m.height);
}

/// The first `k` emitted rows of a uniform buffer are `k * width` copies
/// of the pixel line.
proof fn lemma_rows_emit_uniform(m: BufferModel, c: V3, k: int)
    requires
        m.height >= 0,
        m.width >= 0,
        k <= m.height,
        m.data.len() == m.height,
        forall|i: int| 0 <= i < m.data.len() ==> (#[trigger] m.data[i]).len() == m.width,
        forall|i: int, j: int|
            0 <= i < m.data.len() && 0 <= j < m.width ==> #[trigger] m.data[i][j] == c,
    ensures
        rows_emit(m.data, k) == repeat_bytes(pix_bytes(c), m.width * k),
    decreases k,
{
    if k <= 0 {
        assert(m.width * k <= 0) by (nonlinear_arith)
            requires m.width >= 0, k <= 0;
    } else {
        lemma_rows_emit_uniform(m, c, k - 1);
        let row = m.data[m.data.len() - k];
        lemma_row_bytes_uniform(row, row.len() as int, c);
        assert(m.width * (k - 1) >= 0) by (nonlinear_arith)
            requires m.width >= 0, k >= 1;
        lemma_repeat_bytes_add(pix_bytes(c), m.width * (k - 1), m.width as int);
        assert(m.width * (k - 1) + m.width == m.width * k) by (nonlinear_arith);
    }
}

/// A pure white pixel encodes as the line `255 255 255`.
pub proof fn lemma_pix_bytes_white()
    ensures
        pix_bytes(crate::color::white_v3()) == seq![
            50u8, 53u8, 53u8, 32u8, 50u8, 53u8, 53u8, 32u8, 50u8, 53u8, 53u8, 10u8,
        ],
{
    reveal_with_fuel(dec_rec, 4);
    assert(channel_byte_of(crate::fix::SCALE as int) == 255);
    assert(dec_rec(255) =~= seq![50u8, 53u8, 53u8]);
    assert(pix_bytes(crate::color::white_v3()) =~= seq![
        50u8, 53u8, 53u8, 32u8, 50u8, 53u8, 53u8, 32u8, 50u8, 53u8, 53u8, 10u8,
    ]);
}

/// A pure black pixel encodes as the line `0 0 0`.
pub proof fn lemma_pix_bytes_black()
    ensures
        pix_bytes(crate::color::black_v3()) == seq![48u8, 32u8, 48u8, 32u8, 48u8, 10u8],
{
    reveal_with_fuel(dec_rec, 2);
    assert(channel_byte_of(0) == 0);
    assert(dec_rec(0) =~= seq![48u8]);
    assert(pix_bytes(crate::color::black_v3()) =~= seq![48u8, 32u8, 48u8, 32u8, 48u8, 10u8]);
}

/// Append the decimal digits of `n`.
fn push_dec(out: &mut Vec<u8>, n: u64)
    ensures
        final(out)@ == old(out)@ + dec_rec(n as nat),
    decreases n,
{
    if n < 10 {
        out.push(48 + n as u8);
        proof {
            assert(out@ =~= old(out)@ + dec_rec(n as nat));
        }
    } else {
        push_dec(out, n / 10);
        out.push(48 + (n % 10) as u8);
        proof {
            assert(out@ =~= old(out)@ + dec_rec(n as nat));
        }
    }
}

/// A fixed-size grid of colors collecting rows as workers finish them,
/// with lease and return counters for progress reporting.
pub struct Buffer {
    width: usize,
    height: usize,
    data: Vec<Vec<Color>>,
    leased_lines: usize,
    returned_lines: usize,
}

impl View for Buffer {
    type V = BufferModel;

    closed spec fn view(&self) -> BufferModel {
        BufferModel {
            width: self.width as int,
            height: self.height as int,
            data: Seq::new(
                self.data@.len(),
                |i: int| Seq::new(self.data@[i]@.len(), |j: int| self.data@[i]@[j]@),
            ),
            leased: self.leased_lines as int,
            returned: self.returned_lines as int,
        }
    }
}

impl Buffer {
    /// The buffer keeps one slot per row, and rows are returned only
    /// after being leased.
    pub open spec fn well_formed(self) -> bool {
        &&& self@.data.len() == self@.height
        &&& 0 <= self@.returned <= self@.leased <= self@.height
    }

    /// Every row holds exactly one color per column.
    pub open spec fn rows_full(self) -> bool {
        forall|i: int| 0 <= i < self@.data.len() ==> #[trigger] self@.data[i].len() == self@.width
    }

    /// An empty buffer of the given dimensions.
    pub fn new(width: usize, height: usize) -> (r: Self)
        ensures
            r.well_formed(),
            r@.width == width,
            r@.height == height,
            r@.leased == 0,
            r@.returned == 0,
            forall|i: int| 0 <= i < height ==> #[trigger] r@.data[i].len() == 0,
    {
        let mut data: Vec<Vec<Color>> = Vec::new();
        let mut i: usize = 0;
        while i < height
            invariant
                i <= height,
                data@.len() == i,
                forall|k: int| 0 <= k < i ==> #[trigger] data@[k]@.len() == 0,
            decreases height - i,
        {
            data.push(Vec::new());
            i = i + 1;
        }
        Self { width, height, data, leased_lines: 0, returned_lines: 0 }
    }

    /// Lease the next unleased row: its index and an empty line to fill.
    /// Every call leases a fresh index, so no row is ever leased twice;
    /// `None` once every row is leased.
    pub fn get_line(&mut self) -> (r: Option<(usize, Vec<Color>)>)
        requires
            old(self).well_formed(),
        ensures
            final(self).well_formed(),
            final(self)@.width == old(self)@.width,
            final(self)@.height == old(self)@.height,
            final(self)@.data == old(self)@.data,
            final(self)@.returned == old(self)@.returned,
            old(self)@.leased < old(self)@.height ==> {
                &&& r is Some
                &&& (r->Some_0).0 == old(self)@.leased
                &&& (r->Some_0).1@.len() == 0
                &&& final(self)@.leased == old(self)@.leased + 1
            },
            old(self)@.leased >= old(self)@.height ==> {
                &&& r is None
                &&& final(self)@.leased == old(self)@.leased
            },
    {
        if self.leased_lines < self.height {
            let row = self.leased_lines;
            self.leased_lines = self.leased_lines + 1;
            Some((row, Vec::new()))
        } else {
            None
        }
    }

    /// Return a computed row: store it at its index and count it.
    pub fn push_line(&mut self, height: usize, line: Vec<Color>)
        requires
            old(self).well_formed(),
            height < old(self)@.height,
            old(self)@.returned < old(self)@.leased,
        ensures
            final(self).well_formed(),
            final(self)@.width == old(self)@.width,
            final(self)@.height == old(self)@.height,
            final(self)@.leased == old(self)@.leased,
            final(self)@.returned == old(self)@.returned + 1,
            final(self)@.data == old(self)@.data.update(
                height as int,
                Seq::new(line@.len(), |j: int| line@[j]@),
            ),
    {
        self.returned_lines = self.returned_lines + 1;
        let ghost line_model = Seq::new(line@.len(), |j: int| line@[j]@);
        self.data[height] = line;
        proof {
            assert(final(self)@.data =~= old(self)@.data.update(height as int, line_model));
        }
    }

    /// How many rows have been leased.
    pub fn leased_lines(&self) -> (r: usize)
        ensures
            r == self@.leased,
    {
        self.leased_lines
    }

    /// How many rows have been returned.
    pub fn returned_lines(&self) -> (r: usize)
        ensures
            r == self@.returned,
    {
        self.returned_lines
    }

    /// How many columns the image has.
    pub fn width(&self) -> (r: usize)
        ensures
            r == self@.width,
    {
        self.width
    }

    /// How many rows the image has.
    pub fn height(&self) -> (r: usize)
        ensures
            r == self@.height,
    {
        self.height
    }

    /// Whether every row has been returned.
    pub fn complete(&self) -> (r: bool)
        ensures
            r == (self@.returned == self@.height),
    {
        self.returned_lines == self.height
    }

    /// Serialize the image: header, then rows top-to-bottom, one line of
    /// three channel values per pixel.
    #[verifier::rlimit(60)]
    pub fn encode(&self) -> (out: Vec<u8>)
        requires
            self.well_formed(),
            self.rows_full(),
        ensures
            out@ == encode_bytes(self@),
    {
        let mut out: Vec<u8> = Vec::new();
        out.push(80);
        out.push(51);
        out.push(10);
        push_dec(&mut out, self.width as u64);
        out.push(32);
        push_dec(&mut out, self.height as u64);
        out.push(10);
        out.push(50);
        out.push(53);
        out.push(54);
        out.push(10);
        proof {
            assert(out@ =~= header_bytes(self@.width, self@.height));
        }
        let mut k: usize = 0;
        while k < self.height
            invariant
                self.well_formed(),
                self.rows_full(),
                k <= self@.height,
                out@ == header_bytes(self@.width, self@.height) + rows_emit(self@.data, k as int),
            decreases self.height - k,
        {
            let row = &self.data[self.height - 1 - k];
            let ghost row_model = self@.data[self@.height - 1 - k];
            let ghost out_before = out@;
            let mut j: usize = 0;
            while j < row.len()
                invariant
                    row_model.len() == row@.len(),
                    forall|t: int| 0 <= t < row@.len() ==> row_model[t] == #[trigger] row@[t]@,
                    j <= row@.len(),
                    out@ == out_before + row_bytes_upto(row_model, j as int),
                decreases row.len() - j,
            {
                let (rb, gb, bb) = color_bytes(&row[j]);
                push_dec(&mut out, rb as u64);
                out.push(32);
                push_dec(&mut out, gb as u64);
                out.push(32);
                push_dec(&mut out, bb as u64);
                out.push(10);
                proof {
                    assert(out@ =~= out_before + row_bytes_upto(row_model, j + 1));
                }
                j = j + 1;
            }
            proof {
                assert(row_bytes_upto(row_model, row_model.len() as int) == row_bytes(row_model));
                assert(self@.data.len() - (k + 1) == self@.height - 1 - k);
                assert(out@ =~= header_bytes(self@.width, self@.height) + rows_emit(
                    self@.data,
                    k + 1,
                ));
            }
            k = k + 1;
        }
        out
    }
}

} // verus!
