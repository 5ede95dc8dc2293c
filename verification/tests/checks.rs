use libwebp::{check_int, check_stride, WebpError};

#[test]
fn test_check_stride() {
    assert_eq!(check_stride(1056, 15, 22, 48, 3), Ok(()));
}

#[test]
fn test_check_stride_less_length_is_refused() {
    assert_eq!(check_stride(1055, 15, 22, 48, 3), Err(WebpError::InvalidArgument));
}

#[test]
fn test_check_stride_greater_length_is_refused() {
    assert_eq!(check_stride(1057, 15, 22, 48, 3), Err(WebpError::InvalidArgument));
}

#[test]
fn test_check_stride_overflow_is_refused() {
    assert_eq!(check_stride(1, 2000000, 641, 6700417, 3), Err(WebpError::InvalidArgument));
}

#[test]
fn test_check_stride_greater_stride_is_refused() {
    assert_eq!(check_stride(1056, 15, 22, 48, 4), Err(WebpError::InvalidArgument));
}

#[test]
fn test_check_stride_zero_pixel_size_is_refused() {
    assert_eq!(check_stride(0, 0, 0, 0, 0), Err(WebpError::InvalidArgument));
}

#[test]
fn test_check_int() {
    assert_eq!(check_int(42, "foo"), 42);
    assert_eq!(check_int(0, "foo"), 0);
}
