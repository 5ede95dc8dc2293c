use vstd::prelude::*;
use crate::error::WebpError;

verus! {

/// A pixel buffer of `len` bytes holds exactly `height` rows of `stride`
/// bytes, and a row has room for `width` pixels of `bpp` bytes each.
pub open spec fn stride_ok(len: int, width: int, height: int, stride: int, bpp: int) -> bool {
    &&& bpp > 0
    &&& len == stride * height
    &&& stride / bpp >= width
}

/// Comparing the quotient `stride / bpp` with `width` is the same as comparing
/// `stride` with the bytes of one packed row.
pub proof fn lemma_stride_quotient(width: int, stride: int, bpp: int)
    requires
        bpp > 0,
        0 <= stride,
        0 <= width,
    ensures
        stride / bpp >= width <==> stride >= width * bpp,
{
    assert(stride / bpp >= width <==> stride >= width * bpp) by (nonlinear_arith)
        requires
            bpp > 0,
            0 <= stride,
            0 <= width,
    ;
}

/// Validates the geometry of a caller's pixel buffer.
pub fn check_stride(len: usize, width: u32, height: u32, stride: u32, bpp: u32) -> (r: Result<
    (),
    WebpError,
>)
    ensures
        r.is_ok() <==> stride_ok(len as int, width as int, height as int, stride as int, bpp as int),
        r.is_err() ==> r == Err::<(), WebpError>(WebpError::InvalidArgument),
        r.is_ok() <==> (bpp > 0 && len == stride * height && stride >= width * bpp),
{
    if bpp == 0 {
        return Err(WebpError::InvalidArgument);
    }
    proof {
        lemma_stride_quotient(width as int, stride as int, bpp as int);
        assert(0 <= stride * height <= 0xffff_ffff * 0xffff_ffff) by (nonlinear_arith)
            requires
                0 <= stride <= 0xffff_ffff,
                0 <= height <= 0xffff_ffff,
        ;
    }
    let area: u64 = (stride as u64) * (height as u64);
    if len as u64 != area {
        return Err(WebpError::InvalidArgument);
    }
    if stride / bpp < width {
        return Err(WebpError::InvalidArgument);
    }
    Ok(())
}

/// Narrows an unsigned value to the signed 32-bit range that a codec's
/// interface takes. `name` says which quantity the value is.
pub fn check_int(value: u32, name: &str) -> (r: i32)
    requires
        value <= i32::MAX,
    ensures
        r == value,
{
    value as i32
}

} // verus!
