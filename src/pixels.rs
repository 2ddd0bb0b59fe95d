//! Pixel layouts: a fixed number of 8-bit channels per pixel.
use vstd::prelude::*;

verus! {

/// `n` channels, all zero.
pub open spec fn zero_channels(n: nat) -> Seq<u8> {
    Seq::new(n, |i: int| 0u8)
}

/// A pixel layout with a fixed number of 8-bit channels.
pub trait Pixel: Sized {
    /// How many channels every pixel of this layout has.
    spec fn channel_count() -> nat;

    /// The channel values of this pixel, in channel order.
    spec fn channels(&self) -> Seq<u8>;

    /// Every pixel of the layout has exactly `channel_count()` channels.
    proof fn lemma_channel_count(&self)
        ensures
            self.channels().len() == Self::channel_count(),
    ;

    /// A pixel with every channel zero.
    fn new() -> (p: Self)
        ensures
            p.channels() == zero_channels(Self::channel_count()),
    ;

    /// The channel values, in channel order.
    fn values(&self) -> (r: Vec<u8>)
        ensures
            r@ == self.channels(),
    ;
}

/// A pixel with alpha: red, green, blue, alpha.
#[derive(Debug, Clone, Copy)]
pub struct RGBAPixel {
    pub r: u8,
    pub g: u8,
    pub b: u8,
    pub a: u8,
}

/// An opaque pixel: red, green, blue.
#[derive(Debug, Clone, Copy)]
pub struct RGBPixel {
    pub r: u8,
    pub g: u8,
    pub b: u8,
}

impl Pixel for RGBPixel {
    open spec fn channel_count() -> nat {
        3
    }

    open spec fn channels(&self) -> Seq<u8> {
        seq![self.r, self.g, self.b]
    }

    proof fn lemma_channel_count(&self) {
    }

    fn new() -> (p: RGBPixel) {
        let p = RGBPixel { r: 0, g: 0, b: 0 };
        assert(p.channels() =~= zero_channels(3));
        p
    }

    fn values(&self) -> (r: Vec<u8>) {
        let r = vec![self.r, self.g, self.b];
        assert(r@ =~= self.channels());
        r
    }
}

impl Pixel for RGBAPixel {
    open spec fn channel_count() -> nat {
        4
    }

    open spec fn channels(&self) -> Seq<u8> {
        seq![self.r, self.g, self.b, self.a]
    }

    proof fn lemma_channel_count(&self) {
    }

    fn new() -> (p: RGBAPixel) {
        let p = RGBAPixel { r: 0, g: 0, b: 0, a: 0 };
        assert(p.channels() =~= zero_channels(4));
        p
    }

    fn values(&self) -> (r: Vec<u8>) {
        let r = vec![self.r, self.g, self.b, self.a];
        assert(r@ =~= self.channels());
        r
    }
}

} // verus!
