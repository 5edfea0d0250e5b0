//! Camera frames: `rows × cols × channels` arrays of bytes held in an
//! `ndarray` shared array, with the pixel operations the camera performs on them.
use vstd::prelude::*;
use vstd::arithmetic::div_mod::{
    lemma_fundamental_div_mod,
    lemma_fundamental_div_mod_converse,
    lemma_multiply_divide_lt,
};
use vstd::arithmetic::mul::lemma_mul_is_associative;

verus! {

/// A camera frame: a three-dimensional `ndarray` array of bytes
/// (rows, columns, channels), shared and copied on write.
///
/// Its elements are described by `frame_pixels` in row-major order
/// (the order in which `ndarray` iterates them) and its shape by `frame_dims`.
#[verifier::external_body]
pub struct Frame {
    array: ndarray::ArcArray<u8, ndarray::Ix3>,
}

/// The elements of a frame, in row-major order: the element at
/// `(i, j, k)` stands at `flat_index(i, j, k, cols, channels)`.
pub uninterp spec fn frame_pixels(frame: Frame) -> Seq<u8>;

/// The shape `(rows, cols, channels)` that a frame was made with.
pub uninterp spec fn frame_dims(frame: Frame) -> (usize, usize, usize);

/// Position of element `(i, j, k)` in the row-major order of a frame
/// with `cols` columns and `channels` channels.
pub open spec fn flat_index(i: int, j: int, k: int, cols: int, channels: int) -> int {
    (i * cols + j) * channels + k
}

/// An axis length as it counts towards `ndarray`'s size limit (empty axes do not count).
pub open spec fn counted_len(d: usize) -> int {
    if d == 0 { 1 } else { d as int }
}

/// `ndarray` accepts a shape when the product of its non-zero axis lengths fits in `isize`.
pub open spec fn shape_fits(rows: usize, cols: usize, channels: usize) -> bool {
    counted_len(rows) * counted_len(cols) * counted_len(channels) <= isize::MAX
}

impl Frame {
    pub open spec fn rows(self) -> usize {
        frame_dims(self).0
    }

    pub open spec fn cols(self) -> usize {
        frame_dims(self).1
    }

    pub open spec fn channels(self) -> usize {
        frame_dims(self).2
    }

    pub open spec fn pixels(self) -> Seq<u8> {
        frame_pixels(self)
    }

    /// The byte at `(i, j, k)`.
    pub open spec fn at(self, i: int, j: int, k: int) -> u8 {
        frame_pixels(self)[flat_index(i, j, k, self.cols() as int, self.channels() as int)]
    }

    /// A frame of the given shape with every element set to `value`
    /// (`ndarray::ArcArray::from_elem`).
    #[verifier::external_body]
    pub(crate) fn from_elem(rows: usize, cols: usize, channels: usize, value: u8) -> (r: Frame)
        requires
            shape_fits(rows, cols, channels),
        ensures
            frame_dims(r) == (rows, cols, channels),
            frame_pixels(r) == Seq::new((rows * cols * channels) as nat, |_i: int| value),
    {
        Frame { array: ndarray::ArcArray::from_elem((rows, cols, channels), value) }
    }

    /// A frame of the given shape filled with zeros (`ndarray::ArcArray::zeros`).
    #[verifier::external_body]
    pub(crate) fn zeros(rows: usize, cols: usize, channels: usize) -> (r: Frame)
        requires
            shape_fits(rows, cols, channels),
        ensures
            frame_dims(r) == (rows, cols, channels),
            frame_pixels(r) == Seq::new((rows * cols * channels) as nat, |_i: int| 0u8),
    {
        Frame { array: ndarray::ArcArray::zeros((rows, cols, channels)) }
    }

    /// The shape `(rows, cols, channels)` (`ArrayBase::dim`); the array holds
    /// exactly `rows * cols * channels` elements, which `ndarray` keeps within `isize`.
    #[verifier::external_body]
    pub(crate) fn dim(&self) -> (r: (usize, usize, usize))
        ensures
            r == frame_dims(*self),
            frame_pixels(*self).len() == r.0 * r.1 * r.2,
            shape_fits(r.0, r.1, r.2),
    {
        self.array.dim()
    }

    /// A second handle on the same elements (`ArcArray::clone`).
    #[verifier::external_body]
    fn duplicate(&self) -> (r: Frame)
        ensures
            frame_dims(r) == frame_dims(*self),
            frame_pixels(r) == frame_pixels(*self),
    {
        Frame { array: self.array.clone() }
    }

    /// The shape `(rows, cols, channels)`; the frame holds `rows * cols * channels` bytes.
    pub fn shape(&self) -> (r: (usize, usize, usize))
        ensures
            r == frame_dims(*self),
            self.pixels().len() == r.0 * r.1 * r.2,
    {
        self.dim()
    }

    /// The byte at `(i, j, k)` (`Index<[usize; 3]>`).
    #[verifier::external_body]
    fn get(&self, i: usize, j: usize, k: usize) -> (v: u8)
        requires
            i < self.rows(),
            j < self.cols(),
            k < self.channels(),
        ensures
            v == self.at(i as int, j as int, k as int),
    {
        self.array[[i, j, k]]
    }

    /// Writes the byte at `(i, j, k)` (`IndexMut<[usize; 3]>`).
    #[verifier::external_body]
    fn set(&mut self, i: usize, j: usize, k: usize, value: u8)
        requires
            i < old(self).rows(),
            j < old(self).cols(),
            k < old(self).channels(),
        ensures
            frame_dims(*final(self)) == frame_dims(*old(self)),
            frame_pixels(*final(self)) == frame_pixels(*old(self)).update(
                flat_index(i as int, j as int, k as int, old(self).cols() as int, old(self).channels() as int),
                value,
            ),
    {
        self.array[[i, j, k]] = value;
    }

    /// Overwrites the first `bytes.len()` elements, in row-major order, with `bytes`;
    /// the rest keep their values.
    pub fn copy_from_bytes(&mut self, bytes: &[u8])
        requires
            bytes@.len() <= old(self).pixels().len(),
        ensures
            frame_dims(*final(self)) == frame_dims(*old(self)),
            final(self).pixels() == bytes@ + old(self).pixels().skip(bytes@.len() as int),
    {
        let (rows, cols, channels) = self.dim();
        let n = bytes.len();
        let ghost start = self.pixels();
        let mut t: usize = 0;
        while t < n
            invariant
                t <= n,
                n == bytes@.len(),
                n <= start.len(),
                start.len() == rows * cols * channels,
                frame_dims(*self) == (rows, cols, channels),
                self.pixels().len() == start.len(),
                forall|u: int| 0 <= u < t ==> self.pixels()[u] == bytes@[u],
                forall|u: int| t <= u < start.len() ==> self.pixels()[u] == start[u],
            decreases n - t,
        {
            proof {
                lemma_decompose(t as int, rows as int, cols as int, channels as int);
            }
            let i = t / channels / cols;
            let j = (t / channels) % cols;
            let k = t % channels;
            self.set(i, j, k, bytes[t]);
            t = t + 1;
        }
        assert(self.pixels() =~= bytes@ + start.skip(n as int));
    }

    /// Sets channel `channel` of every pixel to `value`; the other channels keep their values.
    pub fn fill_channel(&mut self, channel: usize, value: u8)
        requires
            channel < old(self).channels(),
        ensures
            frame_dims(*final(self)) == frame_dims(*old(self)),
            final(self).pixels().len() == old(self).pixels().len(),
            forall|u: int|
                0 <= u < old(self).pixels().len() ==> #[trigger] final(self).pixels()[u] == if u
                    % (old(self).channels() as int) == channel {
                    value
                } else {
                    old(self).pixels()[u]
                },
    {
        let (rows, cols, channels) = self.dim();
        proof {
            lemma_shape_fits_products(rows, cols, channels);
        }
        let n = rows * cols * channels;
        let ghost start = self.pixels();
        let mut t: usize = 0;
        while t < n
            invariant
                t <= n,
                channel < channels,
                n == rows * cols * channels,
                start.len() == n,
                frame_dims(*self) == (rows, cols, channels),
                self.pixels().len() == n,
                forall|u: int|
                    0 <= u < t ==> #[trigger] self.pixels()[u] == if u % (channels as int)
                        == channel {
                        value
                    } else {
                        start[u]
                    },
                forall|u: int| t <= u < n ==> self.pixels()[u] == start[u],
            decreases n - t,
        {
            proof {
                lemma_decompose(t as int, rows as int, cols as int, channels as int);
            }
            let k = t % channels;
            if k == channel {
                let i = t / channels / cols;
                let j = (t / channels) % cols;
                self.set(i, j, k, value);
            }
            t = t + 1;
        }
    }

    /// All elements in row-major order.
    pub fn to_pixels(&self) -> (r: Vec<u8>)
        ensures
            r@ == self.pixels(),
            r@.len() == self.rows() * self.cols() * self.channels(),
    {
        let (rows, cols, channels) = self.dim();
        proof {
            lemma_shape_fits_products(rows, cols, channels);
        }
        let n = rows * cols * channels;
        let mut out: Vec<u8> = Vec::new();
        let mut t: usize = 0;
        while t < n
            invariant
                t <= n,
                n == rows * cols * channels,
                frame_dims(*self) == (rows, cols, channels),
                self.pixels().len() == n,
                out@.len() == t,
                forall|u: int| 0 <= u < t ==> out@[u] == self.pixels()[u],
            decreases n - t,
        {
            proof {
                lemma_decompose(t as int, rows as int, cols as int, channels as int);
            }
            let i = t / channels / cols;
            let j = (t / channels) % cols;
            let k = t % channels;
            let v = self.get(i, j, k);
            out.push(v);
            t = t + 1;
        }
        assert(out@ =~= self.pixels());
        out
    }
}

/// A shape that `ndarray` accepts has products of its lengths that fit in `isize`.
pub proof fn lemma_shape_fits_products(rows: usize, cols: usize, channels: usize)
    requires
        shape_fits(rows, cols, channels),
    ensures
        rows * cols <= isize::MAX,
        rows * cols * channels <= isize::MAX,
{
    let a = counted_len(rows);
    let b = counted_len(cols);
    let c = counted_len(channels);
    assert(rows * cols <= a * b && a * b <= a * b * c && rows * cols * channels <= a * b * c)
        by (nonlinear_arith)
        requires
            1 <= a,
            1 <= b,
            1 <= c,
            0 <= rows <= a,
            0 <= cols <= b,
            0 <= channels <= c,
    ;
}

impl Clone for Frame {
    /// A frame of the same shape holding the same bytes.
    fn clone(&self) -> (r: Frame)
        ensures
            frame_dims(r) == frame_dims(*self),
            frame_pixels(r) == frame_pixels(*self),
    {
        self.duplicate()
    }
}

/// Every position below `rows * cols * channels` is the row-major position of
/// exactly the element `(t / channels / cols, (t / channels) % cols, t % channels)`.
pub proof fn lemma_decompose(t: int, rows: int, cols: int, channels: int)
    requires
        0 <= t < rows * cols * channels,
        0 <= rows,
        0 <= cols,
        0 <= channels,
    ensures
        channels > 0,
        cols > 0,
        0 <= t / channels / cols < rows,
        0 <= (t / channels) % cols < cols,
        0 <= t % channels < channels,
        flat_index(t / channels / cols, (t / channels) % cols, t % channels, cols, channels) == t,
{
    assert(channels > 0 && cols > 0 && rows > 0) by (nonlinear_arith)
        requires
            0 <= t < rows * cols * channels,
            0 <= rows,
            0 <= cols,
            0 <= channels,
    ;
    let q = t / channels;
    lemma_fundamental_div_mod(t, channels);
    lemma_fundamental_div_mod(q, cols);
    lemma_mul_is_associative(rows, cols, channels);
    assert(t < channels * (rows * cols)) by (nonlinear_arith)
        requires
            t < rows * cols * channels,
            rows * cols * channels == rows * (cols * channels),
    ;
    lemma_multiply_divide_lt(t, channels, rows * cols);
    assert(q < cols * rows) by (nonlinear_arith)
        requires
            q < rows * cols,
    ;
    lemma_multiply_divide_lt(q, cols, rows);
    assert(q >= 0) by (nonlinear_arith)
        requires
            q == t / channels,
            t >= 0,
            channels > 0,
    ;
    assert(q / cols >= 0) by (nonlinear_arith)
        requires
            q >= 0,
            cols > 0,
    ;
    assert(flat_index(q / cols, q % cols, t % channels, cols, channels) == t) by (nonlinear_arith)
        requires
            t == channels * q + t % channels,
            q == cols * (q / cols) + q % cols,
    ;
}

/// The row-major position of `(i, j, k)` lies inside the frame, and
/// decomposing it gives back `(i, j, k)`.
pub proof fn lemma_flat_index_inverse(i: int, j: int, k: int, rows: int, cols: int, channels: int)
    requires
        0 <= i < rows,
        0 <= j < cols,
        0 <= k < channels,
    ensures
        0 <= flat_index(i, j, k, cols, channels) < rows * cols * channels,
        flat_index(i, j, k, cols, channels) % channels == k,
        flat_index(i, j, k, cols, channels) / channels / cols == i,
        (flat_index(i, j, k, cols, channels) / channels) % cols == j,
{
    let t = flat_index(i, j, k, cols, channels);
    let q = i * cols + j;
    assert(0 <= q < rows * cols) by (nonlinear_arith)
        requires
            0 <= i < rows,
            0 <= j < cols,
            q == i * cols + j,
    ;
    assert(0 <= t < rows * cols * channels) by (nonlinear_arith)
        requires
            0 <= q < rows * cols,
            0 <= k < channels,
            t == q * channels + k,
    ;
    lemma_fundamental_div_mod_converse(t, channels, q, k);
    lemma_fundamental_div_mod_converse(q, cols, i, j);
}


/// Writing one element of a frame changes that element only: it then reads back the
/// written value, and every other element reads back what it held before.
pub proof fn law_write_then_read(
    pixels: Seq<u8>,
    rows: int,
    cols: int,
    channels: int,
    i: int,
    j: int,
    k: int,
    value: u8,
    i2: int,
    j2: int,
    k2: int,
)
    requires
        pixels.len() == rows * cols * channels,
        0 <= i < rows,
        0 <= j < cols,
        0 <= k < channels,
        0 <= i2 < rows,
        0 <= j2 < cols,
        0 <= k2 < channels,
    ensures
        pixels.update(flat_index(i, j, k, cols, channels), value)[flat_index(i, j, k, cols, channels)]
            == value,
        (i2, j2, k2) != (i, j, k) ==> pixels.update(flat_index(i, j, k, cols, channels), value)[flat_index(
            i2,
            j2,
            k2,
            cols,
            channels,
        )] == pixels[flat_index(i2, j2, k2, cols, channels)],
{
    lemma_flat_index_inverse(i, j, k, rows, cols, channels);
    lemma_flat_index_inverse(i2, j2, k2, rows, cols, channels);
}

} // verus!
