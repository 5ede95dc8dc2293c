use vstd::prelude::*;

verus! {

/// An owned buffer of items, as the decoding and encoding functions hand it
/// out.
#[derive(Debug, PartialEq, Eq, PartialOrd, Ord)]
pub struct WebpBox<T> {
    items: Vec<T>,
}

impl<T> WebpBox<T> {
    /// The items of the buffer, in order.
    pub closed spec fn view(&self) -> Seq<T> {
        self.items@
    }

    /// Takes over a vector of items.
    pub fn from_raw(raw: Vec<T>) -> (b: Self)
        ensures
            b@ == raw@,
    {
        WebpBox { items: raw }
    }

    /// Gives up the buffer and hands its items to the caller.
    pub fn into_raw(b: Self) -> (raw: Vec<T>)
        ensures
            raw@ == b@,
    {
        b.items
    }

    /// How many items the buffer holds.
    pub fn len(&self) -> (n: usize)
        ensures
            n == self@.len(),
    {
        self.items.len()
    }

    /// The items, to read.
    pub fn as_slice(&self) -> (s: &[T])
        ensures
            s@ == self@,
    {
        self.items.as_slice()
    }

    /// The items, to change in place. Their number stays.
    pub fn as_mut_slice(&mut self) -> (s: &mut [T])
        ensures
            s@ == old(self)@,
            final(self)@ == final(s)@,
    {
        self.items.as_mut_slice()
    }
}

/// The three planes of a decoded planar image: luma and the two chroma
/// planes.
#[derive(Debug, PartialEq, Eq)]
pub struct WebpYuvBox {
    y: WebpBox<u8>,
    u: Vec<u8>,
    v: Vec<u8>,
}

/// The planes of a planar image as sequences.
pub struct YuvView {
    pub y: Seq<u8>,
    pub u: Seq<u8>,
    pub v: Seq<u8>,
}

impl WebpYuvBox {
    /// The three planes.
    pub closed spec fn view(&self) -> YuvView {
        YuvView { y: self.y@, u: self.u@, v: self.v@ }
    }

    /// Takes over the three planes of an image.
    pub fn from_raw_parts(y: Vec<u8>, u: Vec<u8>, v: Vec<u8>) -> (b: Self)
        ensures
            b@ == (YuvView { y: y@, u: u@, v: v@ }),
    {
        WebpYuvBox { y: WebpBox::from_raw(y), u, v }
    }

    /// The three planes, to read: luma, then the two chroma planes.
    pub fn yuv(&self) -> (r: (&[u8], &[u8], &[u8]))
        ensures
            r.0@ == self@.y,
            r.1@ == self@.u,
            r.2@ == self@.v,
    {
        (self.y.as_slice(), self.u.as_slice(), self.v.as_slice())
    }

    /// The luma plane.
    pub fn y(&self) -> (r: &[u8])
        ensures
            r@ == self@.y,
    {
        self.y.as_slice()
    }

    /// The first chroma plane.
    pub fn u(&self) -> (r: &[u8])
        ensures
            r@ == self@.u,
    {
        self.u.as_slice()
    }

    /// The second chroma plane.
    pub fn v(&self) -> (r: &[u8])
        ensures
            r@ == self@.v,
    {
        self.v.as_slice()
    }

    /// The luma plane, to change in place; the chroma planes stay.
    pub fn y_mut(&mut self) -> (r: &mut [u8])
        ensures
            r@ == old(self)@.y,
            final(self)@ == (YuvView { y: final(r)@, ..old(self)@ }),
    {
        self.y.as_mut_slice()
    }

    /// The first chroma plane, to change in place; the other planes stay.
    pub fn u_mut(&mut self) -> (r: &mut [u8])
        ensures
            r@ == old(self)@.u,
            final(self)@ == (YuvView { u: final(r)@, ..old(self)@ }),
    {
        self.u.as_mut_slice()
    }

    /// The second chroma plane, to change in place; the other planes stay.
    pub fn v_mut(&mut self) -> (r: &mut [u8])
        ensures
            r@ == old(self)@.v,
            final(self)@ == (YuvView { v: final(r)@, ..old(self)@ }),
    {
        self.v.as_mut_slice()
    }

    /// The three planes, to change in place.
    pub fn yuv_mut(&mut self) -> (r: (&mut [u8], &mut [u8], &mut [u8]))
        ensures
            r.0@ == old(self)@.y,
            r.1@ == old(self)@.u,
            r.2@ == old(self)@.v,
            final(self)@ == (YuvView { y: final(r.0)@, u: final(r.1)@, v: final(r.2)@ }),
    {
        (self.y.as_mut_slice(), self.u.as_mut_slice(), self.v.as_mut_slice())
    }
}

} // verus!
