//! What the contracts say of the element type's arithmetic.
//!
//! An operation of the element type need not be a function of its operands
//! (the bits of a floating-point NaN are not), so each predicate here relates
//! the operands to a result that the operation may give.

use vstd::prelude::*;
use core::ops::Add;
use core::ops::Mul;
use core::ops::Sub;

verus! {

/// `z` is a value that `T::default()` may return: the zero of the element type.
pub open spec fn is_zero<T: Default>(z: T) -> bool {
    call_ensures(T::default, (), z)
}

/// `x + y` may be evaluated.
pub open spec fn can_sum<T: Add<Output = T>>(x: T, y: T) -> bool {
    call_requires(T::add, (x, y))
}

/// `s` is a value that `x + y` may give.
pub open spec fn is_sum<T: Add<Output = T>>(x: T, y: T, s: T) -> bool {
    call_ensures(T::add, (x, y), s)
}

/// `x - y` may be evaluated.
pub open spec fn can_subtract<T: Sub<Output = T>>(x: T, y: T) -> bool {
    call_requires(T::sub, (x, y))
}

/// `d` is a value that `x - y` may give.
pub open spec fn is_difference<T: Sub<Output = T>>(x: T, y: T, d: T) -> bool {
    call_ensures(T::sub, (x, y), d)
}

/// `x * y` may be evaluated.
pub open spec fn can_multiply<T: Mul<Output = T>>(x: T, y: T) -> bool {
    call_requires(T::mul, (x, y))
}

/// `p` is a value that `x * y` may give.
pub open spec fn is_product<T: Mul<Output = T>>(x: T, y: T, p: T) -> bool {
    call_ensures(T::mul, (x, y), p)
}

} // verus!
