//! A width × height raster of pixels, stored in row-major order.
use vstd::prelude::*;

use crate::pixels::{Pixel, zero_channels};

verus! {

/// Position of column `x`, row `y` in the row-major pixel sequence of a raster
/// that is `width` pixels wide.
pub open spec fn pixel_index(width: nat, x: nat, y: nat) -> int {
    (x + y * width) as int
}

/// The channel values of every pixel of `s`, one pixel after the other.
pub open spec fn flat_channels<T: Pixel>(s: Seq<T>) -> Seq<u8>
    decreases s.len(),
{
    if s.len() == 0 {
        Seq::empty()
    } else {
        flat_channels(s.drop_last()) + s.last().channels()
    }
}

/// `flat_channels` holds `channel_count()` values for each pixel.
pub proof fn lemma_flat_channels_len<T: Pixel>(s: Seq<T>)
    ensures
        flat_channels(s).len() == s.len() * T::channel_count(),
    decreases s.len(),
{
    if s.len() > 0 {
        lemma_flat_channels_len(s.drop_last());
        s.last().lemma_channel_count();
        assert(s.len() * T::channel_count() == (s.len() - 1) * T::channel_count()
            + T::channel_count()) by (nonlinear_arith);
    }
}

/// Channel `k` of pixel `i` sits at offset `i * channel_count() + k` of the
/// flattened channels.
pub proof fn lemma_flat_channels_index<T: Pixel>(s: Seq<T>, i: int, k: int)
    requires
        0 <= i < s.len(),
        0 <= k < T::channel_count(),
    ensures
        flat_channels(s)[i * T::channel_count() + k] == s[i].channels()[k],
    decreases s.len(),
{
    let c = T::channel_count() as int;
    let n = s.len() as int;
    let init = s.drop_last();
    lemma_flat_channels_len(init);
    s.last().lemma_channel_count();
    if i < n - 1 {
        assert(i * c + k < (n - 1) * c) by (nonlinear_arith)
            requires
                0 <= i < n - 1,
                0 <= k < c,
        ;
        lemma_flat_channels_index(init, i, k);
    } else {
        assert(i * c == (n - 1) * c);
    }
}

/// Replacing the pixel at column `x`, row `y` changes the flattened channels
/// exactly at that pixel's offset, where the new pixel's channels now stand.
pub proof fn lemma_write_reflected<T: Pixel>(img: Image<T>, x: nat, y: nat, p: T)
    requires
        img.pixels().len() == img.width_spec() * img.height_spec(),
        x < img.width_spec(),
        y < img.height_spec(),
    ensures
        ({
            let c = T::channel_count() as int;
            let i = pixel_index(img.width_spec(), x, y);
            let before = flat_channels(img.pixels());
            let after = flat_channels(img.pixels().update(i, p));
            &&& after.len() == before.len()
            &&& after.subrange(i * c, i * c + c) == p.channels()
            &&& forall|j: int|
                0 <= j < before.len() && !(i * c <= j < i * c + c) ==> after[j] == before[j]
        }),
{
    let c = T::channel_count() as int;
    let (w, h) = (img.width_spec() as int, img.height_spec() as int);
    let i = pixel_index(img.width_spec(), x, y);
    assert(0 <= i < w * h) by (nonlinear_arith)
        requires
            i == x + y * w,
            0 <= x < w,
            0 <= y < h,
    ;
    let s = img.pixels();
    let t = s.update(i, p);
    let before = flat_channels(s);
    let after = flat_channels(t);
    lemma_flat_channels_len(s);
    lemma_flat_channels_len(t);
    p.lemma_channel_count();
    assert(i * c + c <= s.len() * c) by (nonlinear_arith)
        requires
            0 <= i < s.len(),
            0 <= c,
    ;
    assert forall|k: int| 0 <= k < c implies after[i * c + k] == p.channels()[k] by {
        lemma_flat_channels_index(t, i, k);
    }
    assert(after.subrange(i * c, i * c + c) =~= p.channels());
    assert forall|j: int|
        0 <= j < before.len() && !(i * c <= j < i * c + c) implies after[j] == before[j] by {
        let q = j / c;
        let r = j % c;
        vstd::arithmetic::div_mod::lemma_fundamental_div_mod(j, c);
        assert(0 <= r < c);
        assert(0 <= q < s.len()) by (nonlinear_arith)
            requires
                j == c * q + r,
                0 <= r < c,
                0 <= j < s.len() * c,
        ;
        assert(j == q * c + r) by (nonlinear_arith)
            requires
                j == c * q + r,
        ;
        if q == i {
            assert(i * c <= j < i * c + c);
        }
        lemma_flat_channels_index(s, q, r);
        lemma_flat_channels_index(t, q, r);
    }
}

/// A raster of `width * height` pixels of layout `T`.
pub struct Image<T: Pixel> {
    width: u32,
    height: u32,
    buffer: Vec<T>,
}

impl<T: Pixel> Image<T> {
    #[verifier::type_invariant]
    spec fn well_formed(self) -> bool {
        self.buffer@.len() == self.width as int * self.height as int
    }

    /// Number of columns.
    pub closed spec fn width_spec(self) -> nat {
        self.width as nat
    }

    /// Number of rows.
    pub closed spec fn height_spec(self) -> nat {
        self.height as nat
    }

    /// The pixels in row-major order.
    pub closed spec fn pixels(self) -> Seq<T> {
        self.buffer@
    }

    /// A raster of the given size with every pixel's channels zero.
    pub fn new(width: u32, height: u32) -> (img: Image<T>)
        requires
            width as int * height as int <= usize::MAX,
        ensures
            img.width_spec() == width,
            img.height_spec() == height,
            img.pixels().len() == width * height,
            forall|i: int|
                0 <= i < img.pixels().len() ==> (#[trigger] img.pixels()[i]).channels()
                    == zero_channels(T::channel_count()),
    {
        let count: usize = (width as usize) * (height as usize);
        let mut buffer: Vec<T> = Vec::new();
        let mut i: usize = 0;
        while i < count
            invariant
                i <= count,
                buffer@.len() == i,
                forall|j: int|
                    0 <= j < i ==> (#[trigger] buffer@[j]).channels() == zero_channels(
                        T::channel_count(),
                    ),
            decreases count - i,
        {
            buffer.push(T::new());
            i = i + 1;
        }
        Image { width, height, buffer }
    }

    /// Number of columns.
    pub fn width(&self) -> (r: u32)
        ensures
            r == self.width_spec(),
    {
        self.width
    }

    /// Number of rows.
    pub fn height(&self) -> (r: u32)
        ensures
            r == self.height_spec(),
    {
        self.height
    }

    /// The channel values of all pixels, in row-major pixel order.
    pub fn raw_buffer(&self) -> (r: Vec<u8>)
        ensures
            r@ == flat_channels(self.pixels()),
            r@.len() == self.width_spec() * self.height_spec() * T::channel_count(),
    {
        proof {
            use_type_invariant(self);
        }
        let mut r: Vec<u8> = Vec::new();
        let mut i: usize = 0;
        while i < self.buffer.len()
            invariant
                i <= self.buffer@.len(),
                r@ == flat_channels(self.buffer@.take(i as int)),
            decreases self.buffer@.len() - i,
        {
            let mut values = self.buffer[i].values();
            assert(self.buffer@.take(i + 1).drop_last() =~= self.buffer@.take(i as int));
            r.append(&mut values);
            i = i + 1;
        }
        assert(self.buffer@.take(i as int) =~= self.buffer@);
        proof {
            lemma_flat_channels_len(self.buffer@);
        }
        r
    }

    /// The pixel at column `x`, row `y`, for writing; `None` when the
    /// position lies outside the raster.
    pub fn pixel_at_mut(&mut self, x: u32, y: u32) -> (r: Option<&mut T>)
        ensures
            r.is_some() <==> (x < old(self).width_spec() && y < old(self).height_spec()),
            final(self).width_spec() == old(self).width_spec(),
            final(self).height_spec() == old(self).height_spec(),
            match r {
                Some(p) => {
                    let i = pixel_index(old(self).width_spec(), x as nat, y as nat);
                    &&& *p == old(self).pixels()[i]
                    &&& final(self).pixels() == old(self).pixels().update(i, *final(p))
                },
                None => *final(self) == *old(self),
            },
    {
        proof {
            use_type_invariant(&*self);
        }
        if x >= self.width || y >= self.height {
            None
        } else {
            let count: usize = self.buffer.len();
            proof {
                let (w, h) = (self.width as int, self.height as int);
                assert(x + y * w < w * h) by (nonlinear_arith)
                    requires
                        0 <= x < w,
                        0 <= y < h,
                ;
                assert(count == w * h);
            }
            let idx: usize = (x as usize) + (y as usize) * (self.width as usize);
            Some(&mut self.buffer[idx])
        }
    }
}

} // verus!
