//! The arithmetic the library is built on.
//!
//! A scalar type brings its own operators. The library does not say what
//! they compute: it says which operations it asks for, in which order and on
//! which operands. So each contract has two sides.
//!
//! * What a function needs is that every operation it comes to accepts its
//!   operands; the predicates that say so begin with `can_`. A type whose
//!   operators accept everything, as those of binary floating-point numbers
//!   do, meets all of them. For the machine integers they say that nothing
//!   overflows and nothing is divided by zero.
//! * What a function returns is an outcome of those operations; the
//!   predicates that say so begin with `is_`. Where each operator has one
//!   outcome only, as with the machine integers, they fix the result.
use std::ops::{Add, Div, Mul, Neg, Sub};
use vstd::prelude::*;
use vstd::std_specs::cmp::{PartialOrdIs, PartialOrdSpec};
use vstd::std_specs::convert::FromSpec;
use vstd::std_specs::ops::{AddSpec, DivSpec, MulSpec, NegSpec, SubSpec};

verus! {

/// The numbers a grid is made of: a copyable type with the four arithmetic
/// operators, negation, an order, and an embedding of the small integers.
pub trait Scalar: Copy + Add<Output = Self> + Sub<Output = Self> + Mul<Output = Self> + Div<
    Output = Self,
> + Neg<Output = Self> + PartialOrd + From<i32> {

}

impl<T> Scalar for T where
    T: Copy + Add<Output = T> + Sub<Output = T> + Mul<Output = T> + Div<Output = T> + Neg<
        Output = T,
    > + PartialOrd + From<i32>,
 {
}

/// `a + b` can be computed.
#[verifier::inline]
pub open spec fn can_add<T: Scalar>(a: T, b: T) -> bool {
    call_requires(<T as Add>::add, (a, b))
}

/// `a - b` can be computed.
#[verifier::inline]
pub open spec fn can_subtract<T: Scalar>(a: T, b: T) -> bool {
    call_requires(<T as Sub>::sub, (a, b))
}

/// `a * b` can be computed.
#[verifier::inline]
pub open spec fn can_multiply<T: Scalar>(a: T, b: T) -> bool {
    call_requires(<T as Mul>::mul, (a, b))
}

/// `a / b` can be computed.
#[verifier::inline]
pub open spec fn can_divide<T: Scalar>(a: T, b: T) -> bool {
    call_requires(<T as Div>::div, (a, b))
}

/// `-a` can be computed.
#[verifier::inline]
pub open spec fn can_negate<T: Scalar>(a: T) -> bool {
    call_requires(<T as Neg>::neg, (a,))
}

/// `sum` is an outcome of `a + b`.
#[verifier::inline]
pub open spec fn is_sum<T: Scalar>(a: T, b: T, sum: T) -> bool {
    call_ensures(<T as Add>::add, (a, b), sum)
}

/// `difference` is an outcome of `a - b`.
#[verifier::inline]
pub open spec fn is_difference<T: Scalar>(a: T, b: T, difference: T) -> bool {
    call_ensures(<T as Sub>::sub, (a, b), difference)
}

/// `product` is an outcome of `a * b`.
#[verifier::inline]
pub open spec fn is_product<T: Scalar>(a: T, b: T, product: T) -> bool {
    call_ensures(<T as Mul>::mul, (a, b), product)
}

/// `quotient` is an outcome of `a / b`.
#[verifier::inline]
pub open spec fn is_quotient<T: Scalar>(a: T, b: T, quotient: T) -> bool {
    call_ensures(<T as Div>::div, (a, b), quotient)
}

/// `opposite` is an outcome of `-a`.
#[verifier::inline]
pub open spec fn is_opposite<T: Scalar>(a: T, opposite: T) -> bool {
    call_ensures(<T as Neg>::neg, (a,), opposite)
}

/// `scalar` is an outcome of embedding the integer `k`.
#[verifier::inline]
pub open spec fn is_number<T: Scalar>(k: i32, scalar: T) -> bool {
    call_ensures(<T as From<i32>>::from, (k,), scalar)
}

/// `answer` is an outcome of the comparison `a >= b`.
#[verifier::inline]
pub open spec fn is_not_below<T: Scalar>(a: T, b: T, answer: bool) -> bool {
    call_ensures(<T as PartialOrd>::ge, (&a, &b), answer)
}

/// Every operator of `T` accepts every operand, so that every computation
/// on `T` can be carried out. Binary floating-point arithmetic is of this
/// kind.
pub open spec fn total_arithmetic<T: Scalar>() -> bool {
    &&& forall|a: T, b: T| #[trigger] can_add(a, b)
    &&& forall|a: T, b: T| #[trigger] can_subtract(a, b)
    &&& forall|a: T, b: T| #[trigger] can_multiply(a, b)
    &&& forall|a: T, b: T| #[trigger] can_divide(a, b)
    &&& forall|a: T| #[trigger] can_negate(a)
}

/// Each of the five operators of `T` returns what its specification
/// function says. The machine integers are of this kind.
pub open spec fn exact_operators<T: Scalar>() -> bool {
    &&& T::obeys_add_spec()
    &&& T::obeys_sub_spec()
    &&& T::obeys_mul_spec()
    &&& T::obeys_div_spec()
    &&& T::obeys_neg_spec()
}

/// The embedding of the integers into `T` returns what its specification
/// function says.
pub open spec fn exact_embedding<T: Scalar>() -> bool {
    <T as FromSpec<i32>>::obeys_from_spec()
}

/// The order of `T` returns what its specification function says.
pub open spec fn exact_order<T: Scalar>() -> bool {
    T::obeys_partial_cmp_spec()
}

/// Where the operators of `T` are exact, each operation has one outcome:
/// the value of its specification function.
pub proof fn exact_operators_have_one_outcome<T: Scalar>()
    requires
        exact_operators::<T>(),
    ensures
        forall|a: T, b: T, sum: T| #[trigger] is_sum(a, b, sum) ==> sum == a.add_spec(b),
        forall|a: T, b: T, difference: T| #[trigger]
            is_difference(a, b, difference) ==> difference == a.sub_spec(b),
        forall|a: T, b: T, product: T| #[trigger]
            is_product(a, b, product) ==> product == a.mul_spec(b),
        forall|a: T, b: T, quotient: T| #[trigger]
            is_quotient(a, b, quotient) ==> quotient == a.div_spec(b),
        forall|a: T, opposite: T| #[trigger] is_opposite(a, opposite) ==> opposite == a.neg_spec(),
{
}

/// Where the embedding of the integers into `T` is exact, it has one
/// outcome: the value of its specification function.
pub proof fn exact_embedding_has_one_outcome<T: Scalar>()
    requires
        exact_embedding::<T>(),
    ensures
        forall|k: i32, scalar: T| #[trigger] is_number(k, scalar) ==> scalar == T::from_spec(k),
{
}

/// Where the order of `T` is exact, a comparison has one outcome: what its
/// specification function says.
pub proof fn exact_order_has_one_outcome<T: Scalar>()
    requires
        exact_order::<T>(),
    ensures
        forall|a: T, b: T, answer: bool| #[trigger]
            is_not_below(a, b, answer) ==> answer == a.is_ge(&b),
{
}

/// The width of one limb in [`is_index`].
pub const LIMB: usize = 0x4000_0000;

/// `scalar` is an outcome of embedding the natural number `i`.
///
/// The embedding takes an `i32`. A larger number is put together from limbs
/// of thirty bits: the embedded higher limbs, times the embedded width of a
/// limb, plus the embedded lowest limb.
pub open spec fn is_index<T: Scalar>(i: nat, scalar: T) -> bool
    decreases i,
{
    if i <= i32::MAX {
        is_number(i as i32, scalar)
    } else {
        exists|high: T, width: T, shifted: T, low: T|
            {
                &&& is_index::<T>(i / (LIMB as nat), high)
                &&& is_number(LIMB as i32, width)
                &&& is_product(high, width, shifted)
                &&& is_number((i % (LIMB as nat)) as i32, low)
                &&& is_sum(shifted, low, scalar)
            }
    }
}

/// Each operation behind [`is_index`] accepts its operands.
pub open spec fn can_index<T: Scalar>(i: nat) -> bool
    decreases i,
{
    i <= i32::MAX || {
        &&& can_index::<T>(i / (LIMB as nat))
        &&& forall|high: T, width: T|
            is_index::<T>(i / (LIMB as nat), high) && is_number(LIMB as i32, width)
                ==> can_multiply(high, width)
        &&& forall|high: T, width: T, shifted: T, low: T|
            {
                &&& is_index::<T>(i / (LIMB as nat), high)
                &&& is_number(LIMB as i32, width)
                &&& is_product(high, width, shifted)
                &&& is_number((i % (LIMB as nat)) as i32, low)
            } ==> can_add(shifted, low)
    }
}

/// Where arithmetic is total, every natural number can be embedded.
pub proof fn total_arithmetic_allows_index<T: Scalar>(i: nat)
    requires
        total_arithmetic::<T>(),
    ensures
        can_index::<T>(i),
    decreases i,
{
    if i > i32::MAX {
        total_arithmetic_allows_index::<T>(i / (LIMB as nat));
    }
}

/// Converts a position in a sequence into a scalar.
pub fn scalar_from_index<T: Scalar>(i: usize) -> (scalar: T)
    requires
        can_index::<T>(i as nat),
    ensures
        is_index::<T>(i as nat, scalar),
    decreases i,
{
    if i <= 0x7fff_ffff {
        T::from(i as i32)
    } else {
        let high: T = scalar_from_index::<T>(i / LIMB);
        let width: T = T::from(LIMB as i32);
        let low: T = T::from((i % LIMB) as i32);
        let shifted: T = high * width;
        shifted + low
    }
}

} // verus!
