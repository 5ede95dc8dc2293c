use vstd::prelude::*;
use crate::checks::{lemma_stride_quotient, stride_ok};
use crate::decode::{
    bytes_per_pixel, is_rgb_mode, mode_bytes_per_pixel, VP8StatusCode, WebPIsRGBMode,
    WEBP_CSP_MODE,
};
use crate::error::WebpUnknownError;
use crate::rows::{lemma_mul_le, place_rows, rows_fit, write_rows};

verus! {

/// The largest width or height of an image.
pub const MAX_DIMENSION: u32 = 0x4000;

/// A side of a chroma plane, for a side of the image: chroma is sampled at
/// half resolution, rounded up.
pub open spec fn uv_dim(d: int) -> int {
    (d + 1) / 2
}

/// A side of a chroma plane, for a side of the image.
pub fn chroma_dim(d: u32) -> (r: u32)
    requires
        d <= MAX_DIMENSION,
    ensures
        r == uv_dim(d as int),
        d >= 1 ==> r >= 1,
{
    (d + 1) / 2
}

/// An output buffer for decoded pixels: the layout, the size of the image,
/// and the memory that the pixels go to. The memory is the buffer's own, or
/// it was supplied by the caller; a packed layout has one plane, a planar
/// layout has luma, two chroma planes and, with alpha, a fourth.
#[derive(Debug)]
pub struct WebPDecBuffer {
    colorspace: WEBP_CSP_MODE,
    width: u32,
    height: u32,
    is_external_memory: i32,
    private_memory: bool,
    rgba: Vec<u8>,
    stride: u32,
    y: Vec<u8>,
    u: Vec<u8>,
    v: Vec<u8>,
    a: Vec<u8>,
    y_stride: u32,
    u_stride: u32,
    v_stride: u32,
    a_stride: u32,
}

/// What an output buffer is, with its planes as sequences.
pub struct DecBufferView {
    pub colorspace: WEBP_CSP_MODE,
    pub width: u32,
    pub height: u32,
    /// Zero for memory of the buffer's own, one for memory that the caller
    /// supplied, two where that memory is also slow to read back.
    pub is_external_memory: i32,
    /// Whether the buffer has allocated memory of its own.
    pub private_memory: bool,
    pub rgba: Seq<u8>,
    pub stride: u32,
    pub y: Seq<u8>,
    pub u: Seq<u8>,
    pub v: Seq<u8>,
    pub a: Seq<u8>,
    pub y_stride: u32,
    pub u_stride: u32,
    pub v_stride: u32,
    pub a_stride: u32,
}

/// Whether the planes of a buffer hold an image of its width and height in
/// its layout: every plane has exactly as many rows as the image, or as its
/// chroma, and every row has room for the samples of one row. The rows of
/// the two chroma planes are the same distance apart.
pub open spec fn laid_out(b: DecBufferView) -> bool {
    &&& 1 <= b.width <= MAX_DIMENSION
    &&& 1 <= b.height <= MAX_DIMENSION
    &&& if is_rgb_mode(b.colorspace) {
        stride_ok(
            b.rgba.len() as int,
            b.width as int,
            b.height as int,
            b.stride as int,
            mode_bytes_per_pixel(b.colorspace),
        )
    } else {
        &&& b.colorspace != WEBP_CSP_MODE::MODE_LAST
        &&& b.u_stride == b.v_stride
        &&& stride_ok(b.y.len() as int, b.width as int, b.height as int, b.y_stride as int, 1)
        &&& stride_ok(
            b.u.len() as int,
            uv_dim(b.width as int),
            uv_dim(b.height as int),
            b.u_stride as int,
            1,
        )
        &&& stride_ok(
            b.v.len() as int,
            uv_dim(b.width as int),
            uv_dim(b.height as int),
            b.v_stride as int,
            1,
        )
        &&& b.colorspace == WEBP_CSP_MODE::MODE_YUVA ==> stride_ok(
            b.a.len() as int,
            b.width as int,
            b.height as int,
            b.a_stride as int,
            1,
        )
    }
}

/// A plane of `n` zero bytes.
pub open spec fn zeros(n: int) -> Seq<u8> {
    Seq::new(n as nat, |i: int| 0u8)
}

/// The buffer after memory of its own was laid out for an image.
pub open spec fn allocated(b: DecBufferView, width: u32, height: u32) -> DecBufferView {
    if is_rgb_mode(b.colorspace) {
        let stride = width * mode_bytes_per_pixel(b.colorspace);
        DecBufferView {
            width,
            height,
            private_memory: true,
            rgba: zeros(stride * height),
            stride: stride as u32,
            ..b
        }
    } else {
        let uv_width = uv_dim(width as int);
        let uv_height = uv_dim(height as int);
        let with_alpha = b.colorspace == WEBP_CSP_MODE::MODE_YUVA;
        DecBufferView {
            width,
            height,
            private_memory: true,
            y: zeros(width * height),
            u: zeros(uv_width * uv_height),
            v: zeros(uv_width * uv_height),
            a: if with_alpha {
                zeros(width * height)
            } else {
                Seq::<u8>::empty()
            },
            y_stride: width,
            u_stride: uv_width as u32,
            v_stride: uv_width as u32,
            a_stride: if with_alpha {
                width
            } else {
                0
            },
            ..b
        }
    }
}

/// The buffer once it knows the size of the image: memory that the caller
/// supplied stays as it is, memory of the buffer's own is laid out afresh.
pub open spec fn sized(b: DecBufferView, width: u32, height: u32) -> DecBufferView {
    if b.is_external_memory > 0 {
        DecBufferView { width, height, ..b }
    } else {
        allocated(b, width, height)
    }
}

/// A plane of `n` zero bytes.
fn zero_plane(n: usize) -> (v: Vec<u8>)
    ensures
        v@ == zeros(n as int),
{
    let v = vec![0u8; n];
    assert(v@ =~= zeros(n as int));
    v
}

impl WebPDecBuffer {
    /// What the buffer is.
    pub closed spec fn view(&self) -> DecBufferView {
        DecBufferView {
            colorspace: self.colorspace,
            width: self.width,
            height: self.height,
            is_external_memory: self.is_external_memory,
            private_memory: self.private_memory,
            rgba: self.rgba@,
            stride: self.stride,
            y: self.y@,
            u: self.u@,
            v: self.v@,
            a: self.a@,
            y_stride: self.y_stride,
            u_stride: self.u_stride,
            v_stride: self.v_stride,
            a_stride: self.a_stride,
        }
    }

    /// The layout that the pixels are written in.
    pub fn colorspace(&self) -> (c: WEBP_CSP_MODE)
        ensures
            c == self@.colorspace,
    {
        self.colorspace
    }

    /// Whether the layout may be changed to `colorspace`: always for memory
    /// of the buffer's own; for memory that the caller supplied only within
    /// the family, packed or planar, that the memory was supplied for.
    pub open spec fn colorspace_change_allowed(&self, colorspace: WEBP_CSP_MODE) -> bool {
        self@.is_external_memory <= 0 || is_rgb_mode(self@.colorspace) == is_rgb_mode(colorspace)
    }

    /// Whether the layout may be changed to `colorspace`.
    pub fn can_set_colorspace(&self, colorspace: WEBP_CSP_MODE) -> (b: bool)
        ensures
            b == self.colorspace_change_allowed(colorspace),
    {
        self.is_external_memory <= 0 || WebPIsRGBMode(self.colorspace) == WebPIsRGBMode(colorspace)
    }

    /// Changes the layout that the pixels are written in.
    pub fn set_colorspace(&mut self, colorspace: WEBP_CSP_MODE)
        requires
            old(self).colorspace_change_allowed(colorspace),
        ensures
            final(self)@ == (DecBufferView { colorspace, ..old(self)@ }),
    {
        self.colorspace = colorspace;
    }

    /// Width of the image, once it is known; zero before.
    pub fn width(&self) -> (w: u32)
        ensures
            w == self@.width,
    {
        self.width
    }

    /// Height of the image, once it is known; zero before.
    pub fn height(&self) -> (h: u32)
        ensures
            h == self@.height,
    {
        self.height
    }

    /// Whether the memory was supplied by the caller.
    pub fn is_external_memory(&self) -> (b: bool)
        ensures
            b == (self@.is_external_memory > 0),
    {
        self.is_external_memory > 0
    }

    /// Whether the memory was supplied by the caller and is slow to read
    /// back.
    pub fn is_slow_memory(&self) -> (b: bool)
        ensures
            b == (self@.is_external_memory > 1),
    {
        self.is_external_memory > 1
    }

    /// Marks memory that the caller supplied as slow or not; memory of the
    /// buffer's own is left as it is.
    pub fn set_slow_memory(&mut self, is_slow_memory: bool)
        ensures
            final(self)@ == (DecBufferView {
                is_external_memory: if old(self)@.is_external_memory > 0 {
                    if is_slow_memory {
                        2i32
                    } else {
                        1i32
                    }
                } else {
                    old(self)@.is_external_memory
                },
                ..old(self)@
            }),
    {
        if self.is_external_memory > 0 {
            self.is_external_memory = if is_slow_memory {
                2
            } else {
                1
            };
        }
    }

    /// Whether the buffer has allocated memory of its own.
    pub fn has_private_memory(&self) -> (b: bool)
        ensures
            b == self@.private_memory,
    {
        self.private_memory
    }

    /// Binds a packed plane that the caller supplies. A planar layout turns
    /// into `MODE_RGB`; a packed layout stays.
    pub fn set_rgba_buffer(&mut self, rgba: Vec<u8>, stride: u32)
        requires
            !old(self)@.private_memory,
            stride <= i32::MAX,
        ensures
            final(self)@ == (DecBufferView {
                colorspace: if is_rgb_mode(old(self)@.colorspace) {
                    old(self)@.colorspace
                } else {
                    WEBP_CSP_MODE::MODE_RGB
                },
                is_external_memory: if old(self)@.is_external_memory <= 0 {
                    1i32
                } else {
                    old(self)@.is_external_memory
                },
                rgba: rgba@,
                stride,
                ..old(self)@
            }),
    {
        if !WebPIsRGBMode(self.colorspace) {
            self.colorspace = WEBP_CSP_MODE::MODE_RGB;
        }
        if self.is_external_memory <= 0 {
            self.is_external_memory = 1;
        }
        self.rgba = rgba;
        self.stride = stride;
    }

    /// The buffer with a packed plane that the caller supplies.
    pub fn with_rgba_buffer(self, rgba: Vec<u8>, stride: u32) -> (r: WebPDecBuffer)
        requires
            !self@.private_memory,
            stride <= i32::MAX,
        ensures
            r@ == (DecBufferView {
                colorspace: if is_rgb_mode(self@.colorspace) {
                    self@.colorspace
                } else {
                    WEBP_CSP_MODE::MODE_RGB
                },
                is_external_memory: if self@.is_external_memory <= 0 {
                    1i32
                } else {
                    self@.is_external_memory
                },
                rgba: rgba@,
                stride,
                ..self@
            }),
    {
        let mut this = self;
        this.set_rgba_buffer(rgba, stride);
        this
    }

    /// Binds the four planes that the caller supplies for a planar layout. A
    /// packed layout turns into `MODE_YUV`; a planar layout stays.
    pub fn set_yuva_buffer(
        &mut self,
        y: Vec<u8>,
        u: Vec<u8>,
        v: Vec<u8>,
        a: Vec<u8>,
        y_stride: u32,
        u_stride: u32,
        v_stride: u32,
        a_stride: u32,
    )
        requires
            !old(self)@.private_memory,
            y_stride <= i32::MAX,
            u_stride <= i32::MAX,
            v_stride <= i32::MAX,
            a_stride <= i32::MAX,
        ensures
            final(self)@ == (DecBufferView {
                colorspace: if is_rgb_mode(old(self)@.colorspace) {
                    WEBP_CSP_MODE::MODE_YUV
                } else {
                    old(self)@.colorspace
                },
                is_external_memory: if old(self)@.is_external_memory <= 0 {
                    1i32
                } else {
                    old(self)@.is_external_memory
                },
                y: y@,
                u: u@,
                v: v@,
                a: a@,
                y_stride,
                u_stride,
                v_stride,
                a_stride,
                ..old(self)@
            }),
    {
        if WebPIsRGBMode(self.colorspace) {
            self.colorspace = WEBP_CSP_MODE::MODE_YUV;
        }
        if self.is_external_memory <= 0 {
            self.is_external_memory = 1;
        }
        self.y = y;
        self.u = u;
        self.v = v;
        self.a = a;
        self.y_stride = y_stride;
        self.u_stride = u_stride;
        self.v_stride = v_stride;
        self.a_stride = a_stride;
    }

    /// The buffer with the four planes that the caller supplies.
    pub fn with_yuva_buffer(
        self,
        y: Vec<u8>,
        u: Vec<u8>,
        v: Vec<u8>,
        a: Vec<u8>,
        y_stride: u32,
        u_stride: u32,
        v_stride: u32,
        a_stride: u32,
    ) -> (r: WebPDecBuffer)
        requires
            !self@.private_memory,
            y_stride <= i32::MAX,
            u_stride <= i32::MAX,
            v_stride <= i32::MAX,
            a_stride <= i32::MAX,
        ensures
            r@ == (DecBufferView {
                colorspace: if is_rgb_mode(self@.colorspace) {
                    WEBP_CSP_MODE::MODE_YUV
                } else {
                    self@.colorspace
                },
                is_external_memory: if self@.is_external_memory <= 0 {
                    1i32
                } else {
                    self@.is_external_memory
                },
                y: y@,
                u: u@,
                v: v@,
                a: a@,
                y_stride,
                u_stride,
                v_stride,
                a_stride,
                ..self@
            }),
    {
        let mut this = self;
        this.set_yuva_buffer(y, u, v, a, y_stride, u_stride, v_stride, a_stride);
        this
    }

    /// Says that the memory is the buffer's own from now on.
    pub fn set_to_internal(&mut self)
        ensures
            final(self)@ == (DecBufferView { is_external_memory: 0i32, ..old(self)@ }),
    {
        self.is_external_memory = 0;
    }

    /// The buffer with its memory counted as its own.
    pub fn into_internal(self) -> (r: WebPDecBuffer)
        ensures
            r@ == (DecBufferView { is_external_memory: 0i32, ..self@ }),
    {
        let mut this = self;
        this.set_to_internal();
        this
    }

    /// The packed plane and the distance between its rows.
    pub fn rgba(&self) -> (r: (&[u8], u32))
        ensures
            r.0@ == self@.rgba,
            r.1 == self@.stride,
    {
        (self.rgba.as_slice(), self.stride)
    }

    /// The luma plane and the distance between its rows.
    pub fn y_plane(&self) -> (r: (&[u8], u32))
        ensures
            r.0@ == self@.y,
            r.1 == self@.y_stride,
    {
        (self.y.as_slice(), self.y_stride)
    }

    /// The first chroma plane and the distance between its rows.
    pub fn u_plane(&self) -> (r: (&[u8], u32))
        ensures
            r.0@ == self@.u,
            r.1 == self@.u_stride,
    {
        (self.u.as_slice(), self.u_stride)
    }

    /// The second chroma plane and the distance between its rows.
    pub fn v_plane(&self) -> (r: (&[u8], u32))
        ensures
            r.0@ == self@.v,
            r.1 == self@.v_stride,
    {
        (self.v.as_slice(), self.v_stride)
    }

    /// The alpha plane and the distance between its rows.
    pub fn a_plane(&self) -> (r: (&[u8], u32))
        ensures
            r.0@ == self@.a,
            r.1 == self@.a_stride,
    {
        (self.a.as_slice(), self.a_stride)
    }

    /// Gives the packed plane back to the caller.
    pub fn into_rgba(self) -> (r: Vec<u8>)
        ensures
            r@ == self@.rgba,
    {
        self.rgba
    }

    /// Gives the planes of a planar layout back to the caller: luma, the two
    /// chroma planes, alpha.
    pub fn into_yuva(self) -> (r: (Vec<u8>, Vec<u8>, Vec<u8>, Vec<u8>))
        ensures
            r.0@ == self@.y,
            r.1@ == self@.u,
            r.2@ == self@.v,
            r.3@ == self@.a,
    {
        (self.y, self.u, self.v, self.a)
    }

    /// Tells the buffer the size of the image.
    ///
    /// Memory that the caller supplied must fit the image in the buffer's
    /// layout, with both chroma planes of one stride, or the answer is
    /// `VP8_STATUS_INVALID_PARAM` and nothing changes. Memory of the buffer's own is laid out afresh, filled with
    /// zeros, with rows that hold the samples of one row and nothing more.
    /// The layout `MODE_LAST` names no layout and is refused.
    pub fn set_size(&mut self, width: u32, height: u32) -> (status: VP8StatusCode)
        requires
            1 <= width <= MAX_DIMENSION,
            1 <= height <= MAX_DIMENSION,
        ensures
            status == VP8StatusCode::VP8_STATUS_OK || status
                == VP8StatusCode::VP8_STATUS_INVALID_PARAM,
            status == VP8StatusCode::VP8_STATUS_OK <==> laid_out(sized(old(self)@, width, height)),
            status == VP8StatusCode::VP8_STATUS_OK ==> final(self)@ == sized(
                old(self)@,
                width,
                height,
            ),
            status != VP8StatusCode::VP8_STATUS_OK ==> final(self)@ == old(self)@,
    {
        let rgb = WebPIsRGBMode(self.colorspace);
        let planar = match self.colorspace {
            WEBP_CSP_MODE::MODE_YUV | WEBP_CSP_MODE::MODE_YUVA => true,
            _ => false,
        };
        let with_alpha = match self.colorspace {
            WEBP_CSP_MODE::MODE_YUVA => true,
            _ => false,
        };
        if !rgb && !planar {
            return VP8StatusCode::VP8_STATUS_INVALID_PARAM;
        }
        let uv_width = chroma_dim(width);
        let uv_height = chroma_dim(height);
        if self.is_external_memory > 0 {
            let fits = if rgb {
                plane_fits(self.rgba.len(), width, height, self.stride, bytes_per_pixel(self.colorspace))
            } else {
                self.u_stride == self.v_stride && plane_fits(
                    self.y.len(),
                    width,
                    height,
                    self.y_stride,
                    1,
                ) && plane_fits(
                    self.u.len(),
                    uv_width,
                    uv_height,
                    self.u_stride,
                    1,
                ) && plane_fits(self.v.len(), uv_width, uv_height, self.v_stride, 1) && (!with_alpha
                    || plane_fits(self.a.len(), width, height, self.a_stride, 1))
            };
            if !fits {
                return VP8StatusCode::VP8_STATUS_INVALID_PARAM;
            }
            self.width = width;
            self.height = height;
        } else {
            proof {
                lemma_mul_le(width as int, MAX_DIMENSION as int, height as int);
                lemma_mul_le(height as int, MAX_DIMENSION as int, MAX_DIMENSION as int);
                lemma_mul_le(uv_width as int, MAX_DIMENSION as int, uv_height as int);
                lemma_mul_le(uv_height as int, MAX_DIMENSION as int, MAX_DIMENSION as int);
            }
            if rgb {
                let bpp = bytes_per_pixel(self.colorspace);
                let stride = width * bpp;
                proof {
                    lemma_mul_le(stride as int, 4 * MAX_DIMENSION as int, height as int);
                    lemma_mul_le(height as int, MAX_DIMENSION as int, 4 * MAX_DIMENSION as int);
                    lemma_stride_quotient(width as int, stride as int, bpp as int);
                }
                self.rgba = zero_plane(stride as usize * height as usize);
                self.stride = stride;
            } else {
                self.y = zero_plane(width as usize * height as usize);
                self.u = zero_plane(uv_width as usize * uv_height as usize);
                self.v = zero_plane(uv_width as usize * uv_height as usize);
                self.y_stride = width;
                self.u_stride = uv_width;
                self.v_stride = uv_width;
                if with_alpha {
                    self.a = zero_plane(width as usize * height as usize);
                    self.a_stride = width;
                } else {
                    self.a = Vec::new();
                    self.a_stride = 0;
                }
            }
            self.width = width;
            self.height = height;
            self.private_memory = true;
            assert(self@ == sized(old(self)@, width, height));
        }
        VP8StatusCode::VP8_STATUS_OK
    }
}

/// Bytes of the pixels of one row in a packed layout.
pub open spec fn packed_row_bytes(b: DecBufferView) -> int {
    b.width * mode_bytes_per_pixel(b.colorspace)
}

/// Rows of chroma that belong to the luma rows from `first` up to `last`.
pub open spec fn chroma_rows(first: int, last: int) -> int {
    uv_dim(last) - uv_dim(first)
}

/// The buffer after rows of packed pixels were written into it.
pub open spec fn with_rgb_rows(b: DecBufferView, first: int, count: int, rows: Seq<u8>) -> DecBufferView {
    DecBufferView {
        rgba: place_rows(b.rgba, b.stride as int, packed_row_bytes(b), first, rows, count),
        ..b
    }
}

/// The buffer after rows of a planar image were written into it: `count`
/// rows of luma and, where the layout has it, of alpha, from row `first` on,
/// and the rows of chroma that belong to them.
pub open spec fn with_yuva_rows(
    b: DecBufferView,
    first: int,
    count: int,
    y: Seq<u8>,
    u: Seq<u8>,
    v: Seq<u8>,
    a: Seq<u8>,
) -> DecBufferView {
    let uv_width = uv_dim(b.width as int);
    let uv_first = uv_dim(first);
    let uv_count = chroma_rows(first, first + count);
    DecBufferView {
        y: place_rows(b.y, b.y_stride as int, b.width as int, first, y, count),
        u: place_rows(b.u, b.u_stride as int, uv_width, uv_first, u, uv_count),
        v: place_rows(b.v, b.v_stride as int, uv_width, uv_first, v, uv_count),
        a: if b.colorspace == WEBP_CSP_MODE::MODE_YUVA {
            place_rows(b.a, b.a_stride as int, b.width as int, first, a, count)
        } else {
            b.a
        },
        ..b
    }
}

/// Whether planes of rows have the sizes that `count` rows of a planar image
/// from row `first` on call for.
pub open spec fn yuva_rows_sized(
    b: DecBufferView,
    first: int,
    count: int,
    y: Seq<u8>,
    u: Seq<u8>,
    v: Seq<u8>,
    a: Seq<u8>,
) -> bool {
    &&& y.len() == count * b.width
    &&& u.len() == chroma_rows(first, first + count) * uv_dim(b.width as int)
    &&& v.len() == u.len()
    &&& a.len() == if b.colorspace == WEBP_CSP_MODE::MODE_YUVA {
        count * b.width
    } else {
        0
    }
}

/// A plane that holds an image has room for any run of the image's rows.
pub proof fn lemma_plane_rows_fit(
    len: int,
    width: int,
    height: int,
    stride: int,
    bpp: int,
    first: int,
    count: int,
)
    requires
        stride_ok(len, width, height, stride, bpp),
        1 <= width,
        0 <= first,
        0 <= count,
        first + count <= height,
        0 <= stride,
    ensures
        rows_fit(len, stride, width * bpp, first, count),
{
    lemma_stride_quotient(width, stride, bpp);
    lemma_mul_le(first + count, height, stride);
    lemma_mul_le(1, width, bpp);
    assert(stride * height == height * stride) by (nonlinear_arith);
    assert(1 * bpp == bpp);
}

impl WebPDecBuffer {
    /// Writes `count` rows of packed pixels, from row `first` on. Only the
    /// bytes of the pixels of those rows change.
    pub fn put_rgb_rows(&mut self, first: u32, count: u32, rows: &[u8])
        requires
            laid_out(old(self)@),
            is_rgb_mode(old(self)@.colorspace),
            first + count <= old(self)@.height,
            rows@.len() == count * packed_row_bytes(old(self)@),
        ensures
            final(self)@ == with_rgb_rows(old(self)@, first as int, count as int, rows@),
            laid_out(final(self)@),
    {
        let bpp = bytes_per_pixel(self.colorspace);
        let row_bytes = self.width * bpp;
        proof {
            lemma_plane_rows_fit(
                self.rgba@.len() as int,
                self.width as int,
                self.height as int,
                self.stride as int,
                bpp as int,
                first as int,
                count as int,
            );
        }
        write_rows(
            self.rgba.as_mut_slice(),
            self.stride as usize,
            row_bytes as usize,
            first as usize,
            rows,
            count as usize,
        );
    }

    /// Writes `count` rows of a planar image, from row `first` on, and the
    /// rows of chroma that belong to them. Only the bytes of the samples of
    /// those rows change.
    pub fn put_yuva_rows(
        &mut self,
        first: u32,
        count: u32,
        y: &[u8],
        u: &[u8],
        v: &[u8],
        a: &[u8],
    )
        requires
            laid_out(old(self)@),
            !is_rgb_mode(old(self)@.colorspace),
            first + count <= old(self)@.height,
            yuva_rows_sized(old(self)@, first as int, count as int, y@, u@, v@, a@),
        ensures
            final(self)@ == with_yuva_rows(
                old(self)@,
                first as int,
                count as int,
                y@,
                u@,
                v@,
                a@,
            ),
            laid_out(final(self)@),
    {
        let uv_width = chroma_dim(self.width);
        let uv_height = chroma_dim(self.height);
        let uv_first = (first + 1) / 2;
        let uv_count = (first + count + 1) / 2 - uv_first;
        proof {
            lemma_plane_rows_fit(
                self.y@.len() as int,
                self.width as int,
                self.height as int,
                self.y_stride as int,
                1,
                first as int,
                count as int,
            );
            lemma_plane_rows_fit(
                self.u@.len() as int,
                uv_width as int,
                uv_height as int,
                self.u_stride as int,
                1,
                uv_first as int,
                uv_count as int,
            );
            lemma_plane_rows_fit(
                self.v@.len() as int,
                uv_width as int,
                uv_height as int,
                self.v_stride as int,
                1,
                uv_first as int,
                uv_count as int,
            );
        }
        write_rows(
            self.y.as_mut_slice(),
            self.y_stride as usize,
            self.width as usize,
            first as usize,
            y,
            count as usize,
        );
        write_rows(
            self.u.as_mut_slice(),
            self.u_stride as usize,
            uv_width as usize,
            uv_first as usize,
            u,
            uv_count as usize,
        );
        write_rows(
            self.v.as_mut_slice(),
            self.v_stride as usize,
            uv_width as usize,
            uv_first as usize,
            v,
            uv_count as usize,
        );
        let with_alpha = match self.colorspace {
            WEBP_CSP_MODE::MODE_YUVA => true,
            _ => false,
        };
        if with_alpha {
            proof {
                lemma_plane_rows_fit(
                    self.a@.len() as int,
                    self.width as int,
                    self.height as int,
                    self.a_stride as int,
                    1,
                    first as int,
                    count as int,
                );
            }
            write_rows(
                self.a.as_mut_slice(),
                self.a_stride as usize,
                self.width as usize,
                first as usize,
                a,
                count as usize,
            );
        }
    }
}

/// Whether a plane of `len` bytes holds `height` rows of `width` samples of
/// `bpp` bytes, `stride` bytes apart.
fn plane_fits(len: usize, width: u32, height: u32, stride: u32, bpp: u32) -> (b: bool)
    ensures
        b == stride_ok(len as int, width as int, height as int, stride as int, bpp as int),
{
    crate::checks::check_stride(len, width, height, stride, bpp).is_ok()
}

/// The buffer that holds nothing yet: layout `MODE_RGB`, no size, no memory.
pub open spec fn empty_buffer() -> DecBufferView {
    DecBufferView {
        colorspace: WEBP_CSP_MODE::MODE_RGB,
        width: 0,
        height: 0,
        is_external_memory: 0,
        private_memory: false,
        rgba: Seq::<u8>::empty(),
        stride: 0,
        y: Seq::<u8>::empty(),
        u: Seq::<u8>::empty(),
        v: Seq::<u8>::empty(),
        a: Seq::<u8>::empty(),
        y_stride: 0,
        u_stride: 0,
        v_stride: 0,
        a_stride: 0,
    }
}

/// A fresh output buffer: layout `MODE_RGB`, no size yet, memory of its own
/// that is laid out once the size of the image is known.
#[allow(non_snake_case)]
pub fn WebPInitDecBuffer() -> (r: Result<WebPDecBuffer, WebpUnknownError>)
    ensures
        r matches Ok(b) && b@ == empty_buffer(),
{
    Ok(
        WebPDecBuffer {
            colorspace: WEBP_CSP_MODE::MODE_RGB,
            width: 0,
            height: 0,
            is_external_memory: 0,
            private_memory: false,
            rgba: Vec::new(),
            stride: 0,
            y: Vec::new(),
            u: Vec::new(),
            v: Vec::new(),
            a: Vec::new(),
            y_stride: 0,
            u_stride: 0,
            v_stride: 0,
            a_stride: 0,
        },
    )
}

} // verus!
