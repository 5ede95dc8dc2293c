use vstd::prelude::*;
use crate::error::TryFromIntError;

verus! {

/// A conversion between integer types that fails where the value does not
/// fit the target.
pub trait PolyfillTryFrom<T>: Sized {
    type Error;

    /// The value of the source as a number.
    spec fn source(value: T) -> int;

    /// The value of the target as a number.
    spec fn target(converted: Self) -> int;

    /// Whether a number fits the target.
    spec fn fits(n: int) -> bool;

    /// Converts `value`, which keeps its number, or fails where the number
    /// does not fit.
    fn try_from(value: T) -> (r: Result<Self, Self::Error>)
        ensures
            r.is_ok() <==> Self::fits(Self::source(value)),
            r matches Ok(v) ==> Self::target(v) == Self::source(value),
    ;
}

/// The same conversion, seen from the source.
pub trait PolyfillTryInto<T>: Sized {
    type Error;

    /// Whether the value can be converted.
    spec fn convertible(self) -> bool;

    /// Converts this value, or fails where it does not fit.
    fn try_into(self) -> (r: Result<T, Self::Error>)
        ensures
            r.is_ok() <==> self.convertible(),
    ;
}

/// The error of a conversion that cannot fail. No value of it is ever made.
#[derive(Debug, Clone, Copy, PartialEq, Eq)]
pub struct Void(());

impl<T, U> PolyfillTryInto<U> for T where U: PolyfillTryFrom<T> {
    type Error = <U as PolyfillTryFrom<T>>::Error;

    open spec fn convertible(self) -> bool {
        U::fits(U::source(self))
    }

    fn try_into(self) -> (r: Result<U, Self::Error>) {
        U::try_from(self)
    }
}

impl PolyfillTryFrom<i64> for u32 {
    type Error = TryFromIntError;

    open spec fn source(value: i64) -> int {
        value as int
    }

    open spec fn target(converted: u32) -> int {
        converted as int
    }

    open spec fn fits(n: int) -> bool {
        0 <= n < 0x1_0000_0000
    }

    fn try_from(value: i64) -> (r: Result<u32, TryFromIntError>) {
        if value >= 0 && value < 0x1_0000_0000 {
            Ok(value as u32)
        } else {
            Err(TryFromIntError(()))
        }
    }
}

impl PolyfillTryFrom<i32> for u32 {
    type Error = TryFromIntError;

    open spec fn source(value: i32) -> int {
        value as int
    }

    open spec fn target(converted: u32) -> int {
        converted as int
    }

    open spec fn fits(n: int) -> bool {
        0 <= n
    }

    fn try_from(value: i32) -> (r: Result<u32, TryFromIntError>) {
        if value >= 0 {
            Ok(value as u32)
        } else {
            Err(TryFromIntError(()))
        }
    }
}

impl PolyfillTryFrom<i16> for u32 {
    type Error = TryFromIntError;

    open spec fn source(value: i16) -> int {
        value as int
    }

    open spec fn target(converted: u32) -> int {
        converted as int
    }

    open spec fn fits(n: int) -> bool {
        0 <= n
    }

    fn try_from(value: i16) -> (r: Result<u32, TryFromIntError>) {
        if value >= 0 {
            Ok(value as u32)
        } else {
            Err(TryFromIntError(()))
        }
    }
}

impl PolyfillTryFrom<u32> for i64 {
    type Error = Void;

    open spec fn source(value: u32) -> int {
        value as int
    }

    open spec fn target(converted: i64) -> int {
        converted as int
    }

    open spec fn fits(n: int) -> bool {
        true
    }

    fn try_from(value: u32) -> (r: Result<i64, Void>) {
        Ok(value as i64)
    }
}

impl PolyfillTryFrom<u32> for i32 {
    type Error = TryFromIntError;

    open spec fn source(value: u32) -> int {
        value as int
    }

    open spec fn target(converted: i32) -> int {
        converted as int
    }

    open spec fn fits(n: int) -> bool {
        n < 0x8000_0000
    }

    fn try_from(value: u32) -> (r: Result<i32, TryFromIntError>) {
        if value < 0x8000_0000 {
            Ok(value as i32)
        } else {
            Err(TryFromIntError(()))
        }
    }
}

impl PolyfillTryFrom<u32> for i16 {
    type Error = TryFromIntError;

    open spec fn source(value: u32) -> int {
        value as int
    }

    open spec fn target(converted: i16) -> int {
        converted as int
    }

    open spec fn fits(n: int) -> bool {
        n < 0x8000
    }

    fn try_from(value: u32) -> (r: Result<i16, TryFromIntError>) {
        if value < 0x8000 {
            Ok(value as i16)
        } else {
            Err(TryFromIntError(()))
        }
    }
}

} // verus!
