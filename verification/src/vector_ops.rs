//! Component-wise operators on [`Vector2`]: each one applies the component type's own
//! operator to the two horizontal components and to the two vertical components.
//!
//! The specification of each operator is that of the component type, applied
//! component-wise; where a borrowed operand's components are cloned, it holds when cloning
//! the component type gives back an equal value.

use vstd::prelude::*;
use vstd::std_specs::ops::{
    AddSpec, SubSpec, MulSpec, DivSpec, RemSpec, BitAndSpec, BitOrSpec, BitXorSpec, ShlSpec,
    ShrSpec, NegSpec, NotSpec,
};
use core::ops::{
    Add, AddAssign, Sub, SubAssign, Mul, MulAssign, Div, DivAssign, Rem, RemAssign, BitAnd,
    BitAndAssign, BitOr, BitOrAssign, BitXor, BitXorAssign, Shl, ShlAssign, Shr, ShrAssign, Neg,
    Not,
};
use crate::vector2::{Vector2, clone_is_exact};

verus! {

// ---- Add ----

impl<T: Add<U, Output = S>, U, S> vstd::std_specs::ops::AddSpecImpl<Vector2<U>> for Vector2<T> {
    open spec fn obeys_add_spec() -> bool {
        <T as AddSpec<U>>::obeys_add_spec()
    }

    open spec fn add_req(self, rhs: Vector2<U>) -> bool {
        self.x.add_req(rhs.x) && self.y.add_req(rhs.y)
    }

    open spec fn add_spec(self, rhs: Vector2<U>) -> Vector2<S> {
        Vector2 { x: self.x.add_spec(rhs.x), y: self.y.add_spec(rhs.y) }
    }
}

/// Component-wise the sum.
impl<T: Add<U, Output = S>, U, S> Add<Vector2<U>> for Vector2<T> {
    type Output = Vector2<S>;

    fn add(self, rhs: Vector2<U>) -> (r: Vector2<S>)
        ensures
            <T as AddSpec<U>>::obeys_add_spec() ==> r.x == self.x.add_spec(rhs.x),
            <T as AddSpec<U>>::obeys_add_spec() ==> r.y == self.y.add_spec(rhs.y),
    {
        Vector2 { x: self.x.add(rhs.x), y: self.y.add(rhs.y) }
    }
}

impl<T: Add<U, Output = S>, U: Clone, S> vstd::std_specs::ops::AddSpecImpl<&Vector2<U>> for Vector2<T> {
    open spec fn obeys_add_spec() -> bool {
        <T as AddSpec<U>>::obeys_add_spec() && clone_is_exact::<U>()
    }

    open spec fn add_req(self, rhs: &Vector2<U>) -> bool {
        &&& forall|c: U| cloned::<U>(rhs.x, c) ==> #[trigger] self.x.add_req(c)
        &&& forall|c: U| cloned::<U>(rhs.y, c) ==> #[trigger] self.y.add_req(c)
    }

    open spec fn add_spec(self, rhs: &Vector2<U>) -> Vector2<S> {
        Vector2 { x: self.x.add_spec(rhs.x), y: self.y.add_spec(rhs.y) }
    }
}

/// Component-wise the sum, with a borrowed right-hand side whose components are cloned.
impl<T: Add<U, Output = S>, U: Clone, S> Add<&Vector2<U>> for Vector2<T> {
    type Output = Vector2<S>;

    fn add(self, rhs: &Vector2<U>) -> (r: Vector2<S>)
        ensures
            <T as AddSpec<U>>::obeys_add_spec() && clone_is_exact::<U>() ==> r.x == self.x.add_spec(rhs.x),
            <T as AddSpec<U>>::obeys_add_spec() && clone_is_exact::<U>() ==> r.y == self.y.add_spec(rhs.y),
    {
        let rx = rhs.x.clone();
        let ry = rhs.y.clone();
        assert(cloned::<U>(rhs.x, rx) && cloned::<U>(rhs.y, ry));
        Vector2 { x: self.x.add(rx), y: self.y.add(ry) }
    }
}

impl<T: Add<U, Output = S> + Clone, U: Clone, S> vstd::std_specs::ops::AddSpecImpl<&Vector2<U>> for &Vector2<T> {
    open spec fn obeys_add_spec() -> bool {
        <T as AddSpec<U>>::obeys_add_spec() && clone_is_exact::<T>() && clone_is_exact::<U>()
    }

    open spec fn add_req(self, rhs: &Vector2<U>) -> bool {
        &&& forall|a: T, b: U| cloned::<T>(self.x, a) && cloned::<U>(rhs.x, b) ==> #[trigger] a.add_req(b)
        &&& forall|a: T, b: U| cloned::<T>(self.y, a) && cloned::<U>(rhs.y, b) ==> #[trigger] a.add_req(b)
    }

    open spec fn add_spec(self, rhs: &Vector2<U>) -> Vector2<S> {
        Vector2 { x: self.x.add_spec(rhs.x), y: self.y.add_spec(rhs.y) }
    }
}

/// Component-wise the sum of two borrowed vectors, whose components are cloned.
impl<T: Add<U, Output = S> + Clone, U: Clone, S> Add<&Vector2<U>> for &Vector2<T> {
    type Output = Vector2<S>;

    fn add(self, rhs: &Vector2<U>) -> (r: Vector2<S>)
        ensures
            <T as AddSpec<U>>::obeys_add_spec() && clone_is_exact::<T>() && clone_is_exact::<U>() ==> r.x == self.x.add_spec(rhs.x),
            <T as AddSpec<U>>::obeys_add_spec() && clone_is_exact::<T>() && clone_is_exact::<U>() ==> r.y == self.y.add_spec(rhs.y),
    {
        let lx = self.x.clone();
        let ly = self.y.clone();
        let rx = rhs.x.clone();
        let ry = rhs.y.clone();
        assert(cloned::<T>(self.x, lx) && cloned::<T>(self.y, ly));
        assert(cloned::<U>(rhs.x, rx) && cloned::<U>(rhs.y, ry));
        Vector2 { x: lx.add(rx), y: ly.add(ry) }
    }
}

/// In-place component-wise the sum.
impl<T: Add<U, Output = T> + Copy, U> AddAssign<Vector2<U>> for Vector2<T> {
    fn add_assign(&mut self, rhs: Vector2<U>)
        requires
            old(self).x.add_req(rhs.x),
            old(self).y.add_req(rhs.y),
        ensures
            <T as AddSpec<U>>::obeys_add_spec() ==> final(self).x == old(self).x.add_spec(rhs.x),
            <T as AddSpec<U>>::obeys_add_spec() ==> final(self).y == old(self).y.add_spec(rhs.y),
    {
        self.x = self.x.add(rhs.x);
        self.y = self.y.add(rhs.y);
    }
}

/// In-place component-wise the sum, with a borrowed right-hand side whose components are cloned.
impl<T: Add<U, Output = T> + Copy, U: Clone> AddAssign<&Vector2<U>> for Vector2<T> {
    fn add_assign(&mut self, rhs: &Vector2<U>)
        requires
            forall|c: U| cloned::<U>(rhs.x, c) ==> #[trigger] old(self).x.add_req(c),
            forall|c: U| cloned::<U>(rhs.y, c) ==> #[trigger] old(self).y.add_req(c),
        ensures
            <T as AddSpec<U>>::obeys_add_spec() && clone_is_exact::<U>() ==> final(self).x == old(self).x.add_spec(rhs.x),
            <T as AddSpec<U>>::obeys_add_spec() && clone_is_exact::<U>() ==> final(self).y == old(self).y.add_spec(rhs.y),
    {
        let rx = rhs.x.clone();
        let ry = rhs.y.clone();
        assert(cloned::<U>(rhs.x, rx) && cloned::<U>(rhs.y, ry));
        self.x = self.x.add(rx);
        self.y = self.y.add(ry);
    }
}

/// The sum of two vectors pairs the sum of the horizontal components with the sum of the vertical
/// ones, each taken with the component type's own `+`.
pub proof fn lemma_add_is_componentwise<T: Add<U, Output = S>, U, S>(a: Vector2<T>, b: Vector2<U>)
    ensures
        a.add_spec(b).x == a.x.add_spec(b.x),
        a.add_spec(b).y == a.y.add_spec(b.y),
        a.add_req(b) == (a.x.add_req(b.x) && a.y.add_req(b.y)),
{
}

/// With borrowed operands, the sum is still taken component by component, horizontal with
/// horizontal and vertical with vertical.
pub proof fn lemma_add_by_reference_is_componentwise<T: Add<U, Output = S> + Clone, U: Clone, S>(
    a: Vector2<T>,
    b: Vector2<U>,
)
    ensures
        <Vector2<T> as AddSpec<&Vector2<U>>>::add_spec(a, &b).x == a.x.add_spec(b.x),
        <Vector2<T> as AddSpec<&Vector2<U>>>::add_spec(a, &b).y == a.y.add_spec(b.y),
        <&Vector2<T> as AddSpec<&Vector2<U>>>::add_spec(&a, &b).x == a.x.add_spec(b.x),
        <&Vector2<T> as AddSpec<&Vector2<U>>>::add_spec(&a, &b).y == a.y.add_spec(b.y),
{
}

// ---- Sub ----

impl<T: Sub<U, Output = S>, U, S> vstd::std_specs::ops::SubSpecImpl<Vector2<U>> for Vector2<T> {
    open spec fn obeys_sub_spec() -> bool {
        <T as SubSpec<U>>::obeys_sub_spec()
    }

    open spec fn sub_req(self, rhs: Vector2<U>) -> bool {
        self.x.sub_req(rhs.x) && self.y.sub_req(rhs.y)
    }

    open spec fn sub_spec(self, rhs: Vector2<U>) -> Vector2<S> {
        Vector2 { x: self.x.sub_spec(rhs.x), y: self.y.sub_spec(rhs.y) }
    }
}

/// Component-wise the difference.
impl<T: Sub<U, Output = S>, U, S> Sub<Vector2<U>> for Vector2<T> {
    type Output = Vector2<S>;

    fn sub(self, rhs: Vector2<U>) -> (r: Vector2<S>)
        ensures
            <T as SubSpec<U>>::obeys_sub_spec() ==> r.x == self.x.sub_spec(rhs.x),
            <T as SubSpec<U>>::obeys_sub_spec() ==> r.y == self.y.sub_spec(rhs.y),
    {
        Vector2 { x: self.x.sub(rhs.x), y: self.y.sub(rhs.y) }
    }
}

impl<T: Sub<U, Output = S>, U: Clone, S> vstd::std_specs::ops::SubSpecImpl<&Vector2<U>> for Vector2<T> {
    open spec fn obeys_sub_spec() -> bool {
        <T as SubSpec<U>>::obeys_sub_spec() && clone_is_exact::<U>()
    }

    open spec fn sub_req(self, rhs: &Vector2<U>) -> bool {
        &&& forall|c: U| cloned::<U>(rhs.x, c) ==> #[trigger] self.x.sub_req(c)
        &&& forall|c: U| cloned::<U>(rhs.y, c) ==> #[trigger] self.y.sub_req(c)
    }

    open spec fn sub_spec(self, rhs: &Vector2<U>) -> Vector2<S> {
        Vector2 { x: self.x.sub_spec(rhs.x), y: self.y.sub_spec(rhs.y) }
    }
}

/// Component-wise the difference, with a borrowed right-hand side whose components are cloned.
impl<T: Sub<U, Output = S>, U: Clone, S> Sub<&Vector2<U>> for Vector2<T> {
    type Output = Vector2<S>;

    fn sub(self, rhs: &Vector2<U>) -> (r: Vector2<S>)
        ensures
            <T as SubSpec<U>>::obeys_sub_spec() && clone_is_exact::<U>() ==> r.x == self.x.sub_spec(rhs.x),
            <T as SubSpec<U>>::obeys_sub_spec() && clone_is_exact::<U>() ==> r.y == self.y.sub_spec(rhs.y),
    {
        let rx = rhs.x.clone();
        let ry = rhs.y.clone();
        assert(cloned::<U>(rhs.x, rx) && cloned::<U>(rhs.y, ry));
        Vector2 { x: self.x.sub(rx), y: self.y.sub(ry) }
    }
}

impl<T: Sub<U, Output = S> + Clone, U: Clone, S> vstd::std_specs::ops::SubSpecImpl<&Vector2<U>> for &Vector2<T> {
    open spec fn obeys_sub_spec() -> bool {
        <T as SubSpec<U>>::obeys_sub_spec() && clone_is_exact::<T>() && clone_is_exact::<U>()
    }

    open spec fn sub_req(self, rhs: &Vector2<U>) -> bool {
        &&& forall|a: T, b: U| cloned::<T>(self.x, a) && cloned::<U>(rhs.x, b) ==> #[trigger] a.sub_req(b)
        &&& forall|a: T, b: U| cloned::<T>(self.y, a) && cloned::<U>(rhs.y, b) ==> #[trigger] a.sub_req(b)
    }

    open spec fn sub_spec(self, rhs: &Vector2<U>) -> Vector2<S> {
        Vector2 { x: self.x.sub_spec(rhs.x), y: self.y.sub_spec(rhs.y) }
    }
}

/// Component-wise the difference of two borrowed vectors, whose components are cloned.
impl<T: Sub<U, Output = S> + Clone, U: Clone, S> Sub<&Vector2<U>> for &Vector2<T> {
    type Output = Vector2<S>;

    fn sub(self, rhs: &Vector2<U>) -> (r: Vector2<S>)
        ensures
            <T as SubSpec<U>>::obeys_sub_spec() && clone_is_exact::<T>() && clone_is_exact::<U>() ==> r.x == self.x.sub_spec(rhs.x),
            <T as SubSpec<U>>::obeys_sub_spec() && clone_is_exact::<T>() && clone_is_exact::<U>() ==> r.y == self.y.sub_spec(rhs.y),
    {
        let lx = self.x.clone();
        let ly = self.y.clone();
        let rx = rhs.x.clone();
        let ry = rhs.y.clone();
        assert(cloned::<T>(self.x, lx) && cloned::<T>(self.y, ly));
        assert(cloned::<U>(rhs.x, rx) && cloned::<U>(rhs.y, ry));
        Vector2 { x: lx.sub(rx), y: ly.sub(ry) }
    }
}

/// In-place component-wise the difference.
impl<T: Sub<U, Output = T> + Copy, U> SubAssign<Vector2<U>> for Vector2<T> {
    fn sub_assign(&mut self, rhs: Vector2<U>)
        requires
            old(self).x.sub_req(rhs.x),
            old(self).y.sub_req(rhs.y),
        ensures
            <T as SubSpec<U>>::obeys_sub_spec() ==> final(self).x == old(self).x.sub_spec(rhs.x),
            <T as SubSpec<U>>::obeys_sub_spec() ==> final(self).y == old(self).y.sub_spec(rhs.y),
    {
        self.x = self.x.sub(rhs.x);
        self.y = self.y.sub(rhs.y);
    }
}

/// In-place component-wise the difference, with a borrowed right-hand side whose components are cloned.
impl<T: Sub<U, Output = T> + Copy, U: Clone> SubAssign<&Vector2<U>> for Vector2<T> {
    fn sub_assign(&mut self, rhs: &Vector2<U>)
        requires
            forall|c: U| cloned::<U>(rhs.x, c) ==> #[trigger] old(self).x.sub_req(c),
            forall|c: U| cloned::<U>(rhs.y, c) ==> #[trigger] old(self).y.sub_req(c),
        ensures
            <T as SubSpec<U>>::obeys_sub_spec() && clone_is_exact::<U>() ==> final(self).x == old(self).x.sub_spec(rhs.x),
            <T as SubSpec<U>>::obeys_sub_spec() && clone_is_exact::<U>() ==> final(self).y == old(self).y.sub_spec(rhs.y),
    {
        let rx = rhs.x.clone();
        let ry = rhs.y.clone();
        assert(cloned::<U>(rhs.x, rx) && cloned::<U>(rhs.y, ry));
        self.x = self.x.sub(rx);
        self.y = self.y.sub(ry);
    }
}

/// The difference of two vectors pairs the difference of the horizontal components with the difference of the vertical
/// ones, each taken with the component type's own `-`.
pub proof fn lemma_sub_is_componentwise<T: Sub<U, Output = S>, U, S>(a: Vector2<T>, b: Vector2<U>)
    ensures
        a.sub_spec(b).x == a.x.sub_spec(b.x),
        a.sub_spec(b).y == a.y.sub_spec(b.y),
        a.sub_req(b) == (a.x.sub_req(b.x) && a.y.sub_req(b.y)),
{
}

/// With borrowed operands, the difference is still taken component by component, horizontal with
/// horizontal and vertical with vertical.
pub proof fn lemma_sub_by_reference_is_componentwise<T: Sub<U, Output = S> + Clone, U: Clone, S>(
    a: Vector2<T>,
    b: Vector2<U>,
)
    ensures
        <Vector2<T> as SubSpec<&Vector2<U>>>::sub_spec(a, &b).x == a.x.sub_spec(b.x),
        <Vector2<T> as SubSpec<&Vector2<U>>>::sub_spec(a, &b).y == a.y.sub_spec(b.y),
        <&Vector2<T> as SubSpec<&Vector2<U>>>::sub_spec(&a, &b).x == a.x.sub_spec(b.x),
        <&Vector2<T> as SubSpec<&Vector2<U>>>::sub_spec(&a, &b).y == a.y.sub_spec(b.y),
{
}

// ---- Mul ----

impl<T: Mul<U, Output = S>, U, S> vstd::std_specs::ops::MulSpecImpl<Vector2<U>> for Vector2<T> {
    open spec fn obeys_mul_spec() -> bool {
        <T as MulSpec<U>>::obeys_mul_spec()
    }

    open spec fn mul_req(self, rhs: Vector2<U>) -> bool {
        self.x.mul_req(rhs.x) && self.y.mul_req(rhs.y)
    }

    open spec fn mul_spec(self, rhs: Vector2<U>) -> Vector2<S> {
        Vector2 { x: self.x.mul_spec(rhs.x), y: self.y.mul_spec(rhs.y) }
    }
}

/// Component-wise the product.
impl<T: Mul<U, Output = S>, U, S> Mul<Vector2<U>> for Vector2<T> {
    type Output = Vector2<S>;

    fn mul(self, rhs: Vector2<U>) -> (r: Vector2<S>)
        ensures
            <T as MulSpec<U>>::obeys_mul_spec() ==> r.x == self.x.mul_spec(rhs.x),
            <T as MulSpec<U>>::obeys_mul_spec() ==> r.y == self.y.mul_spec(rhs.y),
    {
        Vector2 { x: self.x.mul(rhs.x), y: self.y.mul(rhs.y) }
    }
}

impl<T: Mul<U, Output = S>, U: Clone, S> vstd::std_specs::ops::MulSpecImpl<&Vector2<U>> for Vector2<T> {
    open spec fn obeys_mul_spec() -> bool {
        <T as MulSpec<U>>::obeys_mul_spec() && clone_is_exact::<U>()
    }

    open spec fn mul_req(self, rhs: &Vector2<U>) -> bool {
        &&& forall|c: U| cloned::<U>(rhs.x, c) ==> #[trigger] self.x.mul_req(c)
        &&& forall|c: U| cloned::<U>(rhs.y, c) ==> #[trigger] self.y.mul_req(c)
    }

    open spec fn mul_spec(self, rhs: &Vector2<U>) -> Vector2<S> {
        Vector2 { x: self.x.mul_spec(rhs.x), y: self.y.mul_spec(rhs.y) }
    }
}

/// Component-wise the product, with a borrowed right-hand side whose components are cloned.
impl<T: Mul<U, Output = S>, U: Clone, S> Mul<&Vector2<U>> for Vector2<T> {
    type Output = Vector2<S>;

    fn mul(self, rhs: &Vector2<U>) -> (r: Vector2<S>)
        ensures
            <T as MulSpec<U>>::obeys_mul_spec() && clone_is_exact::<U>() ==> r.x == self.x.mul_spec(rhs.x),
            <T as MulSpec<U>>::obeys_mul_spec() && clone_is_exact::<U>() ==> r.y == self.y.mul_spec(rhs.y),
    {
        let rx = rhs.x.clone();
        let ry = rhs.y.clone();
        assert(cloned::<U>(rhs.x, rx) && cloned::<U>(rhs.y, ry));
        Vector2 { x: self.x.mul(rx), y: self.y.mul(ry) }
    }
}

impl<T: Mul<U, Output = S> + Clone, U: Clone, S> vstd::std_specs::ops::MulSpecImpl<&Vector2<U>> for &Vector2<T> {
    open spec fn obeys_mul_spec() -> bool {
        <T as MulSpec<U>>::obeys_mul_spec() && clone_is_exact::<T>() && clone_is_exact::<U>()
    }

    open spec fn mul_req(self, rhs: &Vector2<U>) -> bool {
        &&& forall|a: T, b: U| cloned::<T>(self.x, a) && cloned::<U>(rhs.x, b) ==> #[trigger] a.mul_req(b)
        &&& forall|a: T, b: U| cloned::<T>(self.y, a) && cloned::<U>(rhs.y, b) ==> #[trigger] a.mul_req(b)
    }

    open spec fn mul_spec(self, rhs: &Vector2<U>) -> Vector2<S> {
        Vector2 { x: self.x.mul_spec(rhs.x), y: self.y.mul_spec(rhs.y) }
    }
}

/// Component-wise the product of two borrowed vectors, whose components are cloned.
impl<T: Mul<U, Output = S> + Clone, U: Clone, S> Mul<&Vector2<U>> for &Vector2<T> {
    type Output = Vector2<S>;

    fn mul(self, rhs: &Vector2<U>) -> (r: Vector2<S>)
        ensures
            <T as MulSpec<U>>::obeys_mul_spec() && clone_is_exact::<T>() && clone_is_exact::<U>() ==> r.x == self.x.mul_spec(rhs.x),
            <T as MulSpec<U>>::obeys_mul_spec() && clone_is_exact::<T>() && clone_is_exact::<U>() ==> r.y == self.y.mul_spec(rhs.y),
    {
        let lx = self.x.clone();
        let ly = self.y.clone();
        let rx = rhs.x.clone();
        let ry = rhs.y.clone();
        assert(cloned::<T>(self.x, lx) && cloned::<T>(self.y, ly));
        assert(cloned::<U>(rhs.x, rx) && cloned::<U>(rhs.y, ry));
        Vector2 { x: lx.mul(rx), y: ly.mul(ry) }
    }
}

/// In-place component-wise the product.
impl<T: Mul<U, Output = T> + Copy, U> MulAssign<Vector2<U>> for Vector2<T> {
    fn mul_assign(&mut self, rhs: Vector2<U>)
        requires
            old(self).x.mul_req(rhs.x),
            old(self).y.mul_req(rhs.y),
        ensures
            <T as MulSpec<U>>::obeys_mul_spec() ==> final(self).x == old(self).x.mul_spec(rhs.x),
            <T as MulSpec<U>>::obeys_mul_spec() ==> final(self).y == old(self).y.mul_spec(rhs.y),
    {
        self.x = self.x.mul(rhs.x);
        self.y = self.y.mul(rhs.y);
    }
}

/// In-place component-wise the product, with a borrowed right-hand side whose components are cloned.
impl<T: Mul<U, Output = T> + Copy, U: Clone> MulAssign<&Vector2<U>> for Vector2<T> {
    fn mul_assign(&mut self, rhs: &Vector2<U>)
        requires
            forall|c: U| cloned::<U>(rhs.x, c) ==> #[trigger] old(self).x.mul_req(c),
            forall|c: U| cloned::<U>(rhs.y, c) ==> #[trigger] old(self).y.mul_req(c),
        ensures
            <T as MulSpec<U>>::obeys_mul_spec() && clone_is_exact::<U>() ==> final(self).x == old(self).x.mul_spec(rhs.x),
            <T as MulSpec<U>>::obeys_mul_spec() && clone_is_exact::<U>() ==> final(self).y == old(self).y.mul_spec(rhs.y),
    {
        let rx = rhs.x.clone();
        let ry = rhs.y.clone();
        assert(cloned::<U>(rhs.x, rx) && cloned::<U>(rhs.y, ry));
        self.x = self.x.mul(rx);
        self.y = self.y.mul(ry);
    }
}

/// The product of two vectors pairs the product of the horizontal components with the product of the vertical
/// ones, each taken with the component type's own `*`.
pub proof fn lemma_mul_is_componentwise<T: Mul<U, Output = S>, U, S>(a: Vector2<T>, b: Vector2<U>)
    ensures
        a.mul_spec(b).x == a.x.mul_spec(b.x),
        a.mul_spec(b).y == a.y.mul_spec(b.y),
        a.mul_req(b) == (a.x.mul_req(b.x) && a.y.mul_req(b.y)),
{
}

/// With borrowed operands, the product is still taken component by component, horizontal with
/// horizontal and vertical with vertical.
pub proof fn lemma_mul_by_reference_is_componentwise<T: Mul<U, Output = S> + Clone, U: Clone, S>(
    a: Vector2<T>,
    b: Vector2<U>,
)
    ensures
        <Vector2<T> as MulSpec<&Vector2<U>>>::mul_spec(a, &b).x == a.x.mul_spec(b.x),
        <Vector2<T> as MulSpec<&Vector2<U>>>::mul_spec(a, &b).y == a.y.mul_spec(b.y),
        <&Vector2<T> as MulSpec<&Vector2<U>>>::mul_spec(&a, &b).x == a.x.mul_spec(b.x),
        <&Vector2<T> as MulSpec<&Vector2<U>>>::mul_spec(&a, &b).y == a.y.mul_spec(b.y),
{
}

// ---- Div ----

impl<T: Div<U, Output = S>, U, S> vstd::std_specs::ops::DivSpecImpl<Vector2<U>> for Vector2<T> {
    open spec fn obeys_div_spec() -> bool {
        <T as DivSpec<U>>::obeys_div_spec()
    }

    open spec fn div_req(self, rhs: Vector2<U>) -> bool {
        self.x.div_req(rhs.x) && self.y.div_req(rhs.y)
    }

    open spec fn div_spec(self, rhs: Vector2<U>) -> Vector2<S> {
        Vector2 { x: self.x.div_spec(rhs.x), y: self.y.div_spec(rhs.y) }
    }
}

/// Component-wise the quotient.
impl<T: Div<U, Output = S>, U, S> Div<Vector2<U>> for Vector2<T> {
    type Output = Vector2<S>;

    fn div(self, rhs: Vector2<U>) -> (r: Vector2<S>)
        ensures
            <T as DivSpec<U>>::obeys_div_spec() ==> r.x == self.x.div_spec(rhs.x),
            <T as DivSpec<U>>::obeys_div_spec() ==> r.y == self.y.div_spec(rhs.y),
    {
        Vector2 { x: self.x.div(rhs.x), y: self.y.div(rhs.y) }
    }
}

impl<T: Div<U, Output = S>, U: Clone, S> vstd::std_specs::ops::DivSpecImpl<&Vector2<U>> for Vector2<T> {
    open spec fn obeys_div_spec() -> bool {
        <T as DivSpec<U>>::obeys_div_spec() && clone_is_exact::<U>()
    }

    open spec fn div_req(self, rhs: &Vector2<U>) -> bool {
        &&& forall|c: U| cloned::<U>(rhs.x, c) ==> #[trigger] self.x.div_req(c)
        &&& forall|c: U| cloned::<U>(rhs.y, c) ==> #[trigger] self.y.div_req(c)
    }

    open spec fn div_spec(self, rhs: &Vector2<U>) -> Vector2<S> {
        Vector2 { x: self.x.div_spec(rhs.x), y: self.y.div_spec(rhs.y) }
    }
}

/// Component-wise the quotient, with a borrowed right-hand side whose components are cloned.
impl<T: Div<U, Output = S>, U: Clone, S> Div<&Vector2<U>> for Vector2<T> {
    type Output = Vector2<S>;

    fn div(self, rhs: &Vector2<U>) -> (r: Vector2<S>)
        ensures
            <T as DivSpec<U>>::obeys_div_spec() && clone_is_exact::<U>() ==> r.x == self.x.div_spec(rhs.x),
            <T as DivSpec<U>>::obeys_div_spec() && clone_is_exact::<U>() ==> r.y == self.y.div_spec(rhs.y),
    {
        let rx = rhs.x.clone();
        let ry = rhs.y.clone();
        assert(cloned::<U>(rhs.x, rx) && cloned::<U>(rhs.y, ry));
        Vector2 { x: self.x.div(rx), y: self.y.div(ry) }
    }
}

impl<T: Div<U, Output = S> + Clone, U: Clone, S> vstd::std_specs::ops::DivSpecImpl<&Vector2<U>> for &Vector2<T> {
    open spec fn obeys_div_spec() -> bool {
        <T as DivSpec<U>>::obeys_div_spec() && clone_is_exact::<T>() && clone_is_exact::<U>()
    }

    open spec fn div_req(self, rhs: &Vector2<U>) -> bool {
        &&& forall|a: T, b: U| cloned::<T>(self.x, a) && cloned::<U>(rhs.x, b) ==> #[trigger] a.div_req(b)
        &&& forall|a: T, b: U| cloned::<T>(self.y, a) && cloned::<U>(rhs.y, b) ==> #[trigger] a.div_req(b)
    }

    open spec fn div_spec(self, rhs: &Vector2<U>) -> Vector2<S> {
        Vector2 { x: self.x.div_spec(rhs.x), y: self.y.div_spec(rhs.y) }
    }
}

/// Component-wise the quotient of two borrowed vectors, whose components are cloned.
impl<T: Div<U, Output = S> + Clone, U: Clone, S> Div<&Vector2<U>> for &Vector2<T> {
    type Output = Vector2<S>;

    fn div(self, rhs: &Vector2<U>) -> (r: Vector2<S>)
        ensures
            <T as DivSpec<U>>::obeys_div_spec() && clone_is_exact::<T>() && clone_is_exact::<U>() ==> r.x == self.x.div_spec(rhs.x),
            <T as DivSpec<U>>::obeys_div_spec() && clone_is_exact::<T>() && clone_is_exact::<U>() ==> r.y == self.y.div_spec(rhs.y),
    {
        let lx = self.x.clone();
        let ly = self.y.clone();
        let rx = rhs.x.clone();
        let ry = rhs.y.clone();
        assert(cloned::<T>(self.x, lx) && cloned::<T>(self.y, ly));
        assert(cloned::<U>(rhs.x, rx) && cloned::<U>(rhs.y, ry));
        Vector2 { x: lx.div(rx), y: ly.div(ry) }
    }
}

/// In-place component-wise the quotient.
impl<T: Div<U, Output = T> + Copy, U> DivAssign<Vector2<U>> for Vector2<T> {
    fn div_assign(&mut self, rhs: Vector2<U>)
        requires
            old(self).x.div_req(rhs.x),
            old(self).y.div_req(rhs.y),
        ensures
            <T as DivSpec<U>>::obeys_div_spec() ==> final(self).x == old(self).x.div_spec(rhs.x),
            <T as DivSpec<U>>::obeys_div_spec() ==> final(self).y == old(self).y.div_spec(rhs.y),
    {
        self.x = self.x.div(rhs.x);
        self.y = self.y.div(rhs.y);
    }
}

/// In-place component-wise the quotient, with a borrowed right-hand side whose components are cloned.
impl<T: Div<U, Output = T> + Copy, U: Clone> DivAssign<&Vector2<U>> for Vector2<T> {
    fn div_assign(&mut self, rhs: &Vector2<U>)
        requires
            forall|c: U| cloned::<U>(rhs.x, c) ==> #[trigger] old(self).x.div_req(c),
            forall|c: U| cloned::<U>(rhs.y, c) ==> #[trigger] old(self).y.div_req(c),
        ensures
            <T as DivSpec<U>>::obeys_div_spec() && clone_is_exact::<U>() ==> final(self).x == old(self).x.div_spec(rhs.x),
            <T as DivSpec<U>>::obeys_div_spec() && clone_is_exact::<U>() ==> final(self).y == old(self).y.div_spec(rhs.y),
    {
        let rx = rhs.x.clone();
        let ry = rhs.y.clone();
        assert(cloned::<U>(rhs.x, rx) && cloned::<U>(rhs.y, ry));
        self.x = self.x.div(rx);
        self.y = self.y.div(ry);
    }
}

/// The quotient of two vectors pairs the quotient of the horizontal components with the quotient of the vertical
/// ones, each taken with the component type's own `/`.
pub proof fn lemma_div_is_componentwise<T: Div<U, Output = S>, U, S>(a: Vector2<T>, b: Vector2<U>)
    ensures
        a.div_spec(b).x == a.x.div_spec(b.x),
        a.div_spec(b).y == a.y.div_spec(b.y),
        a.div_req(b) == (a.x.div_req(b.x) && a.y.div_req(b.y)),
{
}

/// With borrowed operands, the quotient is still taken component by component, horizontal with
/// horizontal and vertical with vertical.
pub proof fn lemma_div_by_reference_is_componentwise<T: Div<U, Output = S> + Clone, U: Clone, S>(
    a: Vector2<T>,
    b: Vector2<U>,
)
    ensures
        <Vector2<T> as DivSpec<&Vector2<U>>>::div_spec(a, &b).x == a.x.div_spec(b.x),
        <Vector2<T> as DivSpec<&Vector2<U>>>::div_spec(a, &b).y == a.y.div_spec(b.y),
        <&Vector2<T> as DivSpec<&Vector2<U>>>::div_spec(&a, &b).x == a.x.div_spec(b.x),
        <&Vector2<T> as DivSpec<&Vector2<U>>>::div_spec(&a, &b).y == a.y.div_spec(b.y),
{
}

// ---- Rem ----

impl<T: Rem<U, Output = S>, U, S> vstd::std_specs::ops::RemSpecImpl<Vector2<U>> for Vector2<T> {
    open spec fn obeys_rem_spec() -> bool {
        <T as RemSpec<U>>::obeys_rem_spec()
    }

    open spec fn rem_req(self, rhs: Vector2<U>) -> bool {
        self.x.rem_req(rhs.x) && self.y.rem_req(rhs.y)
    }

    open spec fn rem_spec(self, rhs: Vector2<U>) -> Vector2<S> {
        Vector2 { x: self.x.rem_spec(rhs.x), y: self.y.rem_spec(rhs.y) }
    }
}

/// Component-wise the remainder.
impl<T: Rem<U, Output = S>, U, S> Rem<Vector2<U>> for Vector2<T> {
    type Output = Vector2<S>;

    fn rem(self, rhs: Vector2<U>) -> (r: Vector2<S>)
        ensures
            <T as RemSpec<U>>::obeys_rem_spec() ==> r.x == self.x.rem_spec(rhs.x),
            <T as RemSpec<U>>::obeys_rem_spec() ==> r.y == self.y.rem_spec(rhs.y),
    {
        Vector2 { x: self.x.rem(rhs.x), y: self.y.rem(rhs.y) }
    }
}

impl<T: Rem<U, Output = S>, U: Clone, S> vstd::std_specs::ops::RemSpecImpl<&Vector2<U>> for Vector2<T> {
    open spec fn obeys_rem_spec() -> bool {
        <T as RemSpec<U>>::obeys_rem_spec() && clone_is_exact::<U>()
    }

    open spec fn rem_req(self, rhs: &Vector2<U>) -> bool {
        &&& forall|c: U| cloned::<U>(rhs.x, c) ==> #[trigger] self.x.rem_req(c)
        &&& forall|c: U| cloned::<U>(rhs.y, c) ==> #[trigger] self.y.rem_req(c)
    }

    open spec fn rem_spec(self, rhs: &Vector2<U>) -> Vector2<S> {
        Vector2 { x: self.x.rem_spec(rhs.x), y: self.y.rem_spec(rhs.y) }
    }
}

/// Component-wise the remainder, with a borrowed right-hand side whose components are cloned.
impl<T: Rem<U, Output = S>, U: Clone, S> Rem<&Vector2<U>> for Vector2<T> {
    type Output = Vector2<S>;

    fn rem(self, rhs: &Vector2<U>) -> (r: Vector2<S>)
        ensures
            <T as RemSpec<U>>::obeys_rem_spec() && clone_is_exact::<U>() ==> r.x == self.x.rem_spec(rhs.x),
            <T as RemSpec<U>>::obeys_rem_spec() && clone_is_exact::<U>() ==> r.y == self.y.rem_spec(rhs.y),
    {
        let rx = rhs.x.clone();
        let ry = rhs.y.clone();
        assert(cloned::<U>(rhs.x, rx) && cloned::<U>(rhs.y, ry));
        Vector2 { x: self.x.rem(rx), y: self.y.rem(ry) }
    }
}

impl<T: Rem<U, Output = S> + Clone, U: Clone, S> vstd::std_specs::ops::RemSpecImpl<&Vector2<U>> for &Vector2<T> {
    open spec fn obeys_rem_spec() -> bool {
        <T as RemSpec<U>>::obeys_rem_spec() && clone_is_exact::<T>() && clone_is_exact::<U>()
    }

    open spec fn rem_req(self, rhs: &Vector2<U>) -> bool {
        &&& forall|a: T, b: U| cloned::<T>(self.x, a) && cloned::<U>(rhs.x, b) ==> #[trigger] a.rem_req(b)
        &&& forall|a: T, b: U| cloned::<T>(self.y, a) && cloned::<U>(rhs.y, b) ==> #[trigger] a.rem_req(b)
    }

    open spec fn rem_spec(self, rhs: &Vector2<U>) -> Vector2<S> {
        Vector2 { x: self.x.rem_spec(rhs.x), y: self.y.rem_spec(rhs.y) }
    }
}

/// Component-wise the remainder of two borrowed vectors, whose components are cloned.
impl<T: Rem<U, Output = S> + Clone, U: Clone, S> Rem<&Vector2<U>> for &Vector2<T> {
    type Output = Vector2<S>;

    fn rem(self, rhs: &Vector2<U>) -> (r: Vector2<S>)
        ensures
            <T as RemSpec<U>>::obeys_rem_spec() && clone_is_exact::<T>() && clone_is_exact::<U>() ==> r.x == self.x.rem_spec(rhs.x),
            <T as RemSpec<U>>::obeys_rem_spec() && clone_is_exact::<T>() && clone_is_exact::<U>() ==> r.y == self.y.rem_spec(rhs.y),
    {
        let lx = self.x.clone();
        let ly = self.y.clone();
        let rx = rhs.x.clone();
        let ry = rhs.y.clone();
        assert(cloned::<T>(self.x, lx) && cloned::<T>(self.y, ly));
        assert(cloned::<U>(rhs.x, rx) && cloned::<U>(rhs.y, ry));
        Vector2 { x: lx.rem(rx), y: ly.rem(ry) }
    }
}

/// In-place component-wise the remainder.
impl<T: Rem<U, Output = T> + Copy, U> RemAssign<Vector2<U>> for Vector2<T> {
    fn rem_assign(&mut self, rhs: Vector2<U>)
        requires
            old(self).x.rem_req(rhs.x),
            old(self).y.rem_req(rhs.y),
        ensures
            <T as RemSpec<U>>::obeys_rem_spec() ==> final(self).x == old(self).x.rem_spec(rhs.x),
            <T as RemSpec<U>>::obeys_rem_spec() ==> final(self).y == old(self).y.rem_spec(rhs.y),
    {
        self.x = self.x.rem(rhs.x);
        self.y = self.y.rem(rhs.y);
    }
}

/// In-place component-wise the remainder, with a borrowed right-hand side whose components are cloned.
impl<T: Rem<U, Output = T> + Copy, U: Clone> RemAssign<&Vector2<U>> for Vector2<T> {
    fn rem_assign(&mut self, rhs: &Vector2<U>)
        requires
            forall|c: U| cloned::<U>(rhs.x, c) ==> #[trigger] old(self).x.rem_req(c),
            forall|c: U| cloned::<U>(rhs.y, c) ==> #[trigger] old(self).y.rem_req(c),
        ensures
            <T as RemSpec<U>>::obeys_rem_spec() && clone_is_exact::<U>() ==> final(self).x == old(self).x.rem_spec(rhs.x),
            <T as RemSpec<U>>::obeys_rem_spec() && clone_is_exact::<U>() ==> final(self).y == old(self).y.rem_spec(rhs.y),
    {
        let rx = rhs.x.clone();
        let ry = rhs.y.clone();
        assert(cloned::<U>(rhs.x, rx) && cloned::<U>(rhs.y, ry));
        self.x = self.x.rem(rx);
        self.y = self.y.rem(ry);
    }
}

/// The remainder of two vectors pairs the remainder of the horizontal components with the remainder of the vertical
/// ones, each taken with the component type's own `%`.
pub proof fn lemma_rem_is_componentwise<T: Rem<U, Output = S>, U, S>(a: Vector2<T>, b: Vector2<U>)
    ensures
        a.rem_spec(b).x == a.x.rem_spec(b.x),
        a.rem_spec(b).y == a.y.rem_spec(b.y),
        a.rem_req(b) == (a.x.rem_req(b.x) && a.y.rem_req(b.y)),
{
}

/// With borrowed operands, the remainder is still taken component by component, horizontal with
/// horizontal and vertical with vertical.
pub proof fn lemma_rem_by_reference_is_componentwise<T: Rem<U, Output = S> + Clone, U: Clone, S>(
    a: Vector2<T>,
    b: Vector2<U>,
)
    ensures
        <Vector2<T> as RemSpec<&Vector2<U>>>::rem_spec(a, &b).x == a.x.rem_spec(b.x),
        <Vector2<T> as RemSpec<&Vector2<U>>>::rem_spec(a, &b).y == a.y.rem_spec(b.y),
        <&Vector2<T> as RemSpec<&Vector2<U>>>::rem_spec(&a, &b).x == a.x.rem_spec(b.x),
        <&Vector2<T> as RemSpec<&Vector2<U>>>::rem_spec(&a, &b).y == a.y.rem_spec(b.y),
{
}

// ---- BitAnd ----

impl<T: BitAnd<U, Output = S>, U, S> vstd::std_specs::ops::BitAndSpecImpl<Vector2<U>> for Vector2<T> {
    open spec fn obeys_bitand_spec() -> bool {
        <T as BitAndSpec<U>>::obeys_bitand_spec()
    }

    open spec fn bitand_req(self, rhs: Vector2<U>) -> bool {
        self.x.bitand_req(rhs.x) && self.y.bitand_req(rhs.y)
    }

    open spec fn bitand_spec(self, rhs: Vector2<U>) -> Vector2<S> {
        Vector2 { x: self.x.bitand_spec(rhs.x), y: self.y.bitand_spec(rhs.y) }
    }
}

/// Component-wise the bitwise and.
impl<T: BitAnd<U, Output = S>, U, S> BitAnd<Vector2<U>> for Vector2<T> {
    type Output = Vector2<S>;

    fn bitand(self, rhs: Vector2<U>) -> (r: Vector2<S>)
        ensures
            <T as BitAndSpec<U>>::obeys_bitand_spec() ==> r.x == self.x.bitand_spec(rhs.x),
            <T as BitAndSpec<U>>::obeys_bitand_spec() ==> r.y == self.y.bitand_spec(rhs.y),
    {
        Vector2 { x: self.x.bitand(rhs.x), y: self.y.bitand(rhs.y) }
    }
}

impl<T: BitAnd<U, Output = S>, U: Clone, S> vstd::std_specs::ops::BitAndSpecImpl<&Vector2<U>> for Vector2<T> {
    open spec fn obeys_bitand_spec() -> bool {
        <T as BitAndSpec<U>>::obeys_bitand_spec() && clone_is_exact::<U>()
    }

    open spec fn bitand_req(self, rhs: &Vector2<U>) -> bool {
        &&& forall|c: U| cloned::<U>(rhs.x, c) ==> #[trigger] self.x.bitand_req(c)
        &&& forall|c: U| cloned::<U>(rhs.y, c) ==> #[trigger] self.y.bitand_req(c)
    }

    open spec fn bitand_spec(self, rhs: &Vector2<U>) -> Vector2<S> {
        Vector2 { x: self.x.bitand_spec(rhs.x), y: self.y.bitand_spec(rhs.y) }
    }
}

/// Component-wise the bitwise and, with a borrowed right-hand side whose components are cloned.
impl<T: BitAnd<U, Output = S>, U: Clone, S> BitAnd<&Vector2<U>> for Vector2<T> {
    type Output = Vector2<S>;

    fn bitand(self, rhs: &Vector2<U>) -> (r: Vector2<S>)
        ensures
            <T as BitAndSpec<U>>::obeys_bitand_spec() && clone_is_exact::<U>() ==> r.x == self.x.bitand_spec(rhs.x),
            <T as BitAndSpec<U>>::obeys_bitand_spec() && clone_is_exact::<U>() ==> r.y == self.y.bitand_spec(rhs.y),
    {
        let rx = rhs.x.clone();
        let ry = rhs.y.clone();
        assert(cloned::<U>(rhs.x, rx) && cloned::<U>(rhs.y, ry));
        Vector2 { x: self.x.bitand(rx), y: self.y.bitand(ry) }
    }
}

impl<T: BitAnd<U, Output = S> + Clone, U: Clone, S> vstd::std_specs::ops::BitAndSpecImpl<&Vector2<U>> for &Vector2<T> {
    open spec fn obeys_bitand_spec() -> bool {
        <T as BitAndSpec<U>>::obeys_bitand_spec() && clone_is_exact::<T>() && clone_is_exact::<U>()
    }

    open spec fn bitand_req(self, rhs: &Vector2<U>) -> bool {
        &&& forall|a: T, b: U| cloned::<T>(self.x, a) && cloned::<U>(rhs.x, b) ==> #[trigger] a.bitand_req(b)
        &&& forall|a: T, b: U| cloned::<T>(self.y, a) && cloned::<U>(rhs.y, b) ==> #[trigger] a.bitand_req(b)
    }

    open spec fn bitand_spec(self, rhs: &Vector2<U>) -> Vector2<S> {
        Vector2 { x: self.x.bitand_spec(rhs.x), y: self.y.bitand_spec(rhs.y) }
    }
}

/// Component-wise the bitwise and of two borrowed vectors, whose components are cloned.
impl<T: BitAnd<U, Output = S> + Clone, U: Clone, S> BitAnd<&Vector2<U>> for &Vector2<T> {
    type Output = Vector2<S>;

    fn bitand(self, rhs: &Vector2<U>) -> (r: Vector2<S>)
        ensures
            <T as BitAndSpec<U>>::obeys_bitand_spec() && clone_is_exact::<T>() && clone_is_exact::<U>() ==> r.x == self.x.bitand_spec(rhs.x),
            <T as BitAndSpec<U>>::obeys_bitand_spec() && clone_is_exact::<T>() && clone_is_exact::<U>() ==> r.y == self.y.bitand_spec(rhs.y),
    {
        let lx = self.x.clone();
        let ly = self.y.clone();
        let rx = rhs.x.clone();
        let ry = rhs.y.clone();
        assert(cloned::<T>(self.x, lx) && cloned::<T>(self.y, ly));
        assert(cloned::<U>(rhs.x, rx) && cloned::<U>(rhs.y, ry));
        Vector2 { x: lx.bitand(rx), y: ly.bitand(ry) }
    }
}

/// In-place component-wise the bitwise and.
impl<T: BitAnd<U, Output = T> + Copy, U> BitAndAssign<Vector2<U>> for Vector2<T> {
    fn bitand_assign(&mut self, rhs: Vector2<U>)
        requires
            old(self).x.bitand_req(rhs.x),
            old(self).y.bitand_req(rhs.y),
        ensures
            <T as BitAndSpec<U>>::obeys_bitand_spec() ==> final(self).x == old(self).x.bitand_spec(rhs.x),
            <T as BitAndSpec<U>>::obeys_bitand_spec() ==> final(self).y == old(self).y.bitand_spec(rhs.y),
    {
        self.x = self.x.bitand(rhs.x);
        self.y = self.y.bitand(rhs.y);
    }
}

/// In-place component-wise the bitwise and, with a borrowed right-hand side whose components are cloned.
impl<T: BitAnd<U, Output = T> + Copy, U: Clone> BitAndAssign<&Vector2<U>> for Vector2<T> {
    fn bitand_assign(&mut self, rhs: &Vector2<U>)
        requires
            forall|c: U| cloned::<U>(rhs.x, c) ==> #[trigger] old(self).x.bitand_req(c),
            forall|c: U| cloned::<U>(rhs.y, c) ==> #[trigger] old(self).y.bitand_req(c),
        ensures
            <T as BitAndSpec<U>>::obeys_bitand_spec() && clone_is_exact::<U>() ==> final(self).x == old(self).x.bitand_spec(rhs.x),
            <T as BitAndSpec<U>>::obeys_bitand_spec() && clone_is_exact::<U>() ==> final(self).y == old(self).y.bitand_spec(rhs.y),
    {
        let rx = rhs.x.clone();
        let ry = rhs.y.clone();
        assert(cloned::<U>(rhs.x, rx) && cloned::<U>(rhs.y, ry));
        self.x = self.x.bitand(rx);
        self.y = self.y.bitand(ry);
    }
}

/// The bitwise and of two vectors pairs the bitwise and of the horizontal components with the bitwise and of the vertical
/// ones, each taken with the component type's own `&`.
pub proof fn lemma_bitand_is_componentwise<T: BitAnd<U, Output = S>, U, S>(a: Vector2<T>, b: Vector2<U>)
    ensures
        a.bitand_spec(b).x == a.x.bitand_spec(b.x),
        a.bitand_spec(b).y == a.y.bitand_spec(b.y),
        a.bitand_req(b) == (a.x.bitand_req(b.x) && a.y.bitand_req(b.y)),
{
}

/// With borrowed operands, the bitwise and is still taken component by component, horizontal with
/// horizontal and vertical with vertical.
pub proof fn lemma_bitand_by_reference_is_componentwise<T: BitAnd<U, Output = S> + Clone, U: Clone, S>(
    a: Vector2<T>,
    b: Vector2<U>,
)
    ensures
        <Vector2<T> as BitAndSpec<&Vector2<U>>>::bitand_spec(a, &b).x == a.x.bitand_spec(b.x),
        <Vector2<T> as BitAndSpec<&Vector2<U>>>::bitand_spec(a, &b).y == a.y.bitand_spec(b.y),
        <&Vector2<T> as BitAndSpec<&Vector2<U>>>::bitand_spec(&a, &b).x == a.x.bitand_spec(b.x),
        <&Vector2<T> as BitAndSpec<&Vector2<U>>>::bitand_spec(&a, &b).y == a.y.bitand_spec(b.y),
{
}

// ---- BitOr ----

impl<T: BitOr<U, Output = S>, U, S> vstd::std_specs::ops::BitOrSpecImpl<Vector2<U>> for Vector2<T> {
    open spec fn obeys_bitor_spec() -> bool {
        <T as BitOrSpec<U>>::obeys_bitor_spec()
    }

    open spec fn bitor_req(self, rhs: Vector2<U>) -> bool {
        self.x.bitor_req(rhs.x) && self.y.bitor_req(rhs.y)
    }

    open spec fn bitor_spec(self, rhs: Vector2<U>) -> Vector2<S> {
        Vector2 { x: self.x.bitor_spec(rhs.x), y: self.y.bitor_spec(rhs.y) }
    }
}

/// Component-wise the bitwise or.
impl<T: BitOr<U, Output = S>, U, S> BitOr<Vector2<U>> for Vector2<T> {
    type Output = Vector2<S>;

    fn bitor(self, rhs: Vector2<U>) -> (r: Vector2<S>)
        ensures
            <T as BitOrSpec<U>>::obeys_bitor_spec() ==> r.x == self.x.bitor_spec(rhs.x),
            <T as BitOrSpec<U>>::obeys_bitor_spec() ==> r.y == self.y.bitor_spec(rhs.y),
    {
        Vector2 { x: self.x.bitor(rhs.x), y: self.y.bitor(rhs.y) }
    }
}

impl<T: BitOr<U, Output = S>, U: Clone, S> vstd::std_specs::ops::BitOrSpecImpl<&Vector2<U>> for Vector2<T> {
    open spec fn obeys_bitor_spec() -> bool {
        <T as BitOrSpec<U>>::obeys_bitor_spec() && clone_is_exact::<U>()
    }

    open spec fn bitor_req(self, rhs: &Vector2<U>) -> bool {
        &&& forall|c: U| cloned::<U>(rhs.x, c) ==> #[trigger] self.x.bitor_req(c)
        &&& forall|c: U| cloned::<U>(rhs.y, c) ==> #[trigger] self.y.bitor_req(c)
    }

    open spec fn bitor_spec(self, rhs: &Vector2<U>) -> Vector2<S> {
        Vector2 { x: self.x.bitor_spec(rhs.x), y: self.y.bitor_spec(rhs.y) }
    }
}

/// Component-wise the bitwise or, with a borrowed right-hand side whose components are cloned.
impl<T: BitOr<U, Output = S>, U: Clone, S> BitOr<&Vector2<U>> for Vector2<T> {
    type Output = Vector2<S>;

    fn bitor(self, rhs: &Vector2<U>) -> (r: Vector2<S>)
        ensures
            <T as BitOrSpec<U>>::obeys_bitor_spec() && clone_is_exact::<U>() ==> r.x == self.x.bitor_spec(rhs.x),
            <T as BitOrSpec<U>>::obeys_bitor_spec() && clone_is_exact::<U>() ==> r.y == self.y.bitor_spec(rhs.y),
    {
        let rx = rhs.x.clone();
        let ry = rhs.y.clone();
        assert(cloned::<U>(rhs.x, rx) && cloned::<U>(rhs.y, ry));
        Vector2 { x: self.x.bitor(rx), y: self.y.bitor(ry) }
    }
}

impl<T: BitOr<U, Output = S> + Clone, U: Clone, S> vstd::std_specs::ops::BitOrSpecImpl<&Vector2<U>> for &Vector2<T> {
    open spec fn obeys_bitor_spec() -> bool {
        <T as BitOrSpec<U>>::obeys_bitor_spec() && clone_is_exact::<T>() && clone_is_exact::<U>()
    }

    open spec fn bitor_req(self, rhs: &Vector2<U>) -> bool {
        &&& forall|a: T, b: U| cloned::<T>(self.x, a) && cloned::<U>(rhs.x, b) ==> #[trigger] a.bitor_req(b)
        &&& forall|a: T, b: U| cloned::<T>(self.y, a) && cloned::<U>(rhs.y, b) ==> #[trigger] a.bitor_req(b)
    }

    open spec fn bitor_spec(self, rhs: &Vector2<U>) -> Vector2<S> {
        Vector2 { x: self.x.bitor_spec(rhs.x), y: self.y.bitor_spec(rhs.y) }
    }
}

/// Component-wise the bitwise or of two borrowed vectors, whose components are cloned.
impl<T: BitOr<U, Output = S> + Clone, U: Clone, S> BitOr<&Vector2<U>> for &Vector2<T> {
    type Output = Vector2<S>;

    fn bitor(self, rhs: &Vector2<U>) -> (r: Vector2<S>)
        ensures
            <T as BitOrSpec<U>>::obeys_bitor_spec() && clone_is_exact::<T>() && clone_is_exact::<U>() ==> r.x == self.x.bitor_spec(rhs.x),
            <T as BitOrSpec<U>>::obeys_bitor_spec() && clone_is_exact::<T>() && clone_is_exact::<U>() ==> r.y == self.y.bitor_spec(rhs.y),
    {
        let lx = self.x.clone();
        let ly = self.y.clone();
        let rx = rhs.x.clone();
        let ry = rhs.y.clone();
        assert(cloned::<T>(self.x, lx) && cloned::<T>(self.y, ly));
        assert(cloned::<U>(rhs.x, rx) && cloned::<U>(rhs.y, ry));
        Vector2 { x: lx.bitor(rx), y: ly.bitor(ry) }
    }
}

/// In-place component-wise the bitwise or.
impl<T: BitOr<U, Output = T> + Copy, U> BitOrAssign<Vector2<U>> for Vector2<T> {
    fn bitor_assign(&mut self, rhs: Vector2<U>)
        requires
            old(self).x.bitor_req(rhs.x),
            old(self).y.bitor_req(rhs.y),
        ensures
            <T as BitOrSpec<U>>::obeys_bitor_spec() ==> final(self).x == old(self).x.bitor_spec(rhs.x),
            <T as BitOrSpec<U>>::obeys_bitor_spec() ==> final(self).y == old(self).y.bitor_spec(rhs.y),
    {
        self.x = self.x.bitor(rhs.x);
        self.y = self.y.bitor(rhs.y);
    }
}

/// In-place component-wise the bitwise or, with a borrowed right-hand side whose components are cloned.
impl<T: BitOr<U, Output = T> + Copy, U: Clone> BitOrAssign<&Vector2<U>> for Vector2<T> {
    fn bitor_assign(&mut self, rhs: &Vector2<U>)
        requires
            forall|c: U| cloned::<U>(rhs.x, c) ==> #[trigger] old(self).x.bitor_req(c),
            forall|c: U| cloned::<U>(rhs.y, c) ==> #[trigger] old(self).y.bitor_req(c),
        ensures
            <T as BitOrSpec<U>>::obeys_bitor_spec() && clone_is_exact::<U>() ==> final(self).x == old(self).x.bitor_spec(rhs.x),
            <T as BitOrSpec<U>>::obeys_bitor_spec() && clone_is_exact::<U>() ==> final(self).y == old(self).y.bitor_spec(rhs.y),
    {
        let rx = rhs.x.clone();
        let ry = rhs.y.clone();
        assert(cloned::<U>(rhs.x, rx) && cloned::<U>(rhs.y, ry));
        self.x = self.x.bitor(rx);
        self.y = self.y.bitor(ry);
    }
}

/// The bitwise or of two vectors pairs the bitwise or of the horizontal components with the bitwise or of the vertical
/// ones, each taken with the component type's own `|`.
pub proof fn lemma_bitor_is_componentwise<T: BitOr<U, Output = S>, U, S>(a: Vector2<T>, b: Vector2<U>)
    ensures
        a.bitor_spec(b).x == a.x.bitor_spec(b.x),
        a.bitor_spec(b).y == a.y.bitor_spec(b.y),
        a.bitor_req(b) == (a.x.bitor_req(b.x) && a.y.bitor_req(b.y)),
{
}

/// With borrowed operands, the bitwise or is still taken component by component, horizontal with
/// horizontal and vertical with vertical.
pub proof fn lemma_bitor_by_reference_is_componentwise<T: BitOr<U, Output = S> + Clone, U: Clone, S>(
    a: Vector2<T>,
    b: Vector2<U>,
)
    ensures
        <Vector2<T> as BitOrSpec<&Vector2<U>>>::bitor_spec(a, &b).x == a.x.bitor_spec(b.x),
        <Vector2<T> as BitOrSpec<&Vector2<U>>>::bitor_spec(a, &b).y == a.y.bitor_spec(b.y),
        <&Vector2<T> as BitOrSpec<&Vector2<U>>>::bitor_spec(&a, &b).x == a.x.bitor_spec(b.x),
        <&Vector2<T> as BitOrSpec<&Vector2<U>>>::bitor_spec(&a, &b).y == a.y.bitor_spec(b.y),
{
}

// ---- BitXor ----

impl<T: BitXor<U, Output = S>, U, S> vstd::std_specs::ops::BitXorSpecImpl<Vector2<U>> for Vector2<T> {
    open spec fn obeys_bitxor_spec() -> bool {
        <T as BitXorSpec<U>>::obeys_bitxor_spec()
    }

    open spec fn bitxor_req(self, rhs: Vector2<U>) -> bool {
        self.x.bitxor_req(rhs.x) && self.y.bitxor_req(rhs.y)
    }

    open spec fn bitxor_spec(self, rhs: Vector2<U>) -> Vector2<S> {
        Vector2 { x: self.x.bitxor_spec(rhs.x), y: self.y.bitxor_spec(rhs.y) }
    }
}

/// Component-wise the bitwise exclusive or.
impl<T: BitXor<U, Output = S>, U, S> BitXor<Vector2<U>> for Vector2<T> {
    type Output = Vector2<S>;

    fn bitxor(self, rhs: Vector2<U>) -> (r: Vector2<S>)
        ensures
            <T as BitXorSpec<U>>::obeys_bitxor_spec() ==> r.x == self.x.bitxor_spec(rhs.x),
            <T as BitXorSpec<U>>::obeys_bitxor_spec() ==> r.y == self.y.bitxor_spec(rhs.y),
    {
        Vector2 { x: self.x.bitxor(rhs.x), y: self.y.bitxor(rhs.y) }
    }
}

impl<T: BitXor<U, Output = S>, U: Clone, S> vstd::std_specs::ops::BitXorSpecImpl<&Vector2<U>> for Vector2<T> {
    open spec fn obeys_bitxor_spec() -> bool {
        <T as BitXorSpec<U>>::obeys_bitxor_spec() && clone_is_exact::<U>()
    }

    open spec fn bitxor_req(self, rhs: &Vector2<U>) -> bool {
        &&& forall|c: U| cloned::<U>(rhs.x, c) ==> #[trigger] self.x.bitxor_req(c)
        &&& forall|c: U| cloned::<U>(rhs.y, c) ==> #[trigger] self.y.bitxor_req(c)
    }

    open spec fn bitxor_spec(self, rhs: &Vector2<U>) -> Vector2<S> {
        Vector2 { x: self.x.bitxor_spec(rhs.x), y: self.y.bitxor_spec(rhs.y) }
    }
}

/// Component-wise the bitwise exclusive or, with a borrowed right-hand side whose components are cloned.
impl<T: BitXor<U, Output = S>, U: Clone, S> BitXor<&Vector2<U>> for Vector2<T> {
    type Output = Vector2<S>;

    fn bitxor(self, rhs: &Vector2<U>) -> (r: Vector2<S>)
        ensures
            <T as BitXorSpec<U>>::obeys_bitxor_spec() && clone_is_exact::<U>() ==> r.x == self.x.bitxor_spec(rhs.x),
            <T as BitXorSpec<U>>::obeys_bitxor_spec() && clone_is_exact::<U>() ==> r.y == self.y.bitxor_spec(rhs.y),
    {
        let rx = rhs.x.clone();
        let ry = rhs.y.clone();
        assert(cloned::<U>(rhs.x, rx) && cloned::<U>(rhs.y, ry));
        Vector2 { x: self.x.bitxor(rx), y: self.y.bitxor(ry) }
    }
}

impl<T: BitXor<U, Output = S> + Clone, U: Clone, S> vstd::std_specs::ops::BitXorSpecImpl<&Vector2<U>> for &Vector2<T> {
    open spec fn obeys_bitxor_spec() -> bool {
        <T as BitXorSpec<U>>::obeys_bitxor_spec() && clone_is_exact::<T>() && clone_is_exact::<U>()
    }

    open spec fn bitxor_req(self, rhs: &Vector2<U>) -> bool {
        &&& forall|a: T, b: U| cloned::<T>(self.x, a) && cloned::<U>(rhs.x, b) ==> #[trigger] a.bitxor_req(b)
        &&& forall|a: T, b: U| cloned::<T>(self.y, a) && cloned::<U>(rhs.y, b) ==> #[trigger] a.bitxor_req(b)
    }

    open spec fn bitxor_spec(self, rhs: &Vector2<U>) -> Vector2<S> {
        Vector2 { x: self.x.bitxor_spec(rhs.x), y: self.y.bitxor_spec(rhs.y) }
    }
}

/// Component-wise the bitwise exclusive or of two borrowed vectors, whose components are cloned.
impl<T: BitXor<U, Output = S> + Clone, U: Clone, S> BitXor<&Vector2<U>> for &Vector2<T> {
    type Output = Vector2<S>;

    fn bitxor(self, rhs: &Vector2<U>) -> (r: Vector2<S>)
        ensures
            <T as BitXorSpec<U>>::obeys_bitxor_spec() && clone_is_exact::<T>() && clone_is_exact::<U>() ==> r.x == self.x.bitxor_spec(rhs.x),
            <T as BitXorSpec<U>>::obeys_bitxor_spec() && clone_is_exact::<T>() && clone_is_exact::<U>() ==> r.y == self.y.bitxor_spec(rhs.y),
    {
        let lx = self.x.clone();
        let ly = self.y.clone();
        let rx = rhs.x.clone();
        let ry = rhs.y.clone();
        assert(cloned::<T>(self.x, lx) && cloned::<T>(self.y, ly));
        assert(cloned::<U>(rhs.x, rx) && cloned::<U>(rhs.y, ry));
        Vector2 { x: lx.bitxor(rx), y: ly.bitxor(ry) }
    }
}

/// In-place component-wise the bitwise exclusive or.
impl<T: BitXor<U, Output = T> + Copy, U> BitXorAssign<Vector2<U>> for Vector2<T> {
    fn bitxor_assign(&mut self, rhs: Vector2<U>)
        requires
            old(self).x.bitxor_req(rhs.x),
            old(self).y.bitxor_req(rhs.y),
        ensures
            <T as BitXorSpec<U>>::obeys_bitxor_spec() ==> final(self).x == old(self).x.bitxor_spec(rhs.x),
            <T as BitXorSpec<U>>::obeys_bitxor_spec() ==> final(self).y == old(self).y.bitxor_spec(rhs.y),
    {
        self.x = self.x.bitxor(rhs.x);
        self.y = self.y.bitxor(rhs.y);
    }
}

/// In-place component-wise the bitwise exclusive or, with a borrowed right-hand side whose components are cloned.
impl<T: BitXor<U, Output = T> + Copy, U: Clone> BitXorAssign<&Vector2<U>> for Vector2<T> {
    fn bitxor_assign(&mut self, rhs: &Vector2<U>)
        requires
            forall|c: U| cloned::<U>(rhs.x, c) ==> #[trigger] old(self).x.bitxor_req(c),
            forall|c: U| cloned::<U>(rhs.y, c) ==> #[trigger] old(self).y.bitxor_req(c),
        ensures
            <T as BitXorSpec<U>>::obeys_bitxor_spec() && clone_is_exact::<U>() ==> final(self).x == old(self).x.bitxor_spec(rhs.x),
            <T as BitXorSpec<U>>::obeys_bitxor_spec() && clone_is_exact::<U>() ==> final(self).y == old(self).y.bitxor_spec(rhs.y),
    {
        let rx = rhs.x.clone();
        let ry = rhs.y.clone();
        assert(cloned::<U>(rhs.x, rx) && cloned::<U>(rhs.y, ry));
        self.x = self.x.bitxor(rx);
        self.y = self.y.bitxor(ry);
    }
}

/// The bitwise exclusive or of two vectors pairs the bitwise exclusive or of the horizontal components with the bitwise exclusive or of the vertical
/// ones, each taken with the component type's own `^`.
pub proof fn lemma_bitxor_is_componentwise<T: BitXor<U, Output = S>, U, S>(a: Vector2<T>, b: Vector2<U>)
    ensures
        a.bitxor_spec(b).x == a.x.bitxor_spec(b.x),
        a.bitxor_spec(b).y == a.y.bitxor_spec(b.y),
        a.bitxor_req(b) == (a.x.bitxor_req(b.x) && a.y.bitxor_req(b.y)),
{
}

/// With borrowed operands, the bitwise exclusive or is still taken component by component, horizontal with
/// horizontal and vertical with vertical.
pub proof fn lemma_bitxor_by_reference_is_componentwise<T: BitXor<U, Output = S> + Clone, U: Clone, S>(
    a: Vector2<T>,
    b: Vector2<U>,
)
    ensures
        <Vector2<T> as BitXorSpec<&Vector2<U>>>::bitxor_spec(a, &b).x == a.x.bitxor_spec(b.x),
        <Vector2<T> as BitXorSpec<&Vector2<U>>>::bitxor_spec(a, &b).y == a.y.bitxor_spec(b.y),
        <&Vector2<T> as BitXorSpec<&Vector2<U>>>::bitxor_spec(&a, &b).x == a.x.bitxor_spec(b.x),
        <&Vector2<T> as BitXorSpec<&Vector2<U>>>::bitxor_spec(&a, &b).y == a.y.bitxor_spec(b.y),
{
}

// ---- Shl ----

impl<T: Shl<U, Output = S>, U, S> vstd::std_specs::ops::ShlSpecImpl<Vector2<U>> for Vector2<T> {
    open spec fn obeys_shl_spec() -> bool {
        <T as ShlSpec<U>>::obeys_shl_spec()
    }

    open spec fn shl_req(self, rhs: Vector2<U>) -> bool {
        self.x.shl_req(rhs.x) && self.y.shl_req(rhs.y)
    }

    open spec fn shl_spec(self, rhs: Vector2<U>) -> Vector2<S> {
        Vector2 { x: self.x.shl_spec(rhs.x), y: self.y.shl_spec(rhs.y) }
    }
}

/// Component-wise the left shift.
impl<T: Shl<U, Output = S>, U, S> Shl<Vector2<U>> for Vector2<T> {
    type Output = Vector2<S>;

    fn shl(self, rhs: Vector2<U>) -> (r: Vector2<S>)
        ensures
            <T as ShlSpec<U>>::obeys_shl_spec() ==> r.x == self.x.shl_spec(rhs.x),
            <T as ShlSpec<U>>::obeys_shl_spec() ==> r.y == self.y.shl_spec(rhs.y),
    {
        Vector2 { x: self.x.shl(rhs.x), y: self.y.shl(rhs.y) }
    }
}

impl<T: Shl<U, Output = S>, U: Clone, S> vstd::std_specs::ops::ShlSpecImpl<&Vector2<U>> for Vector2<T> {
    open spec fn obeys_shl_spec() -> bool {
        <T as ShlSpec<U>>::obeys_shl_spec() && clone_is_exact::<U>()
    }

    open spec fn shl_req(self, rhs: &Vector2<U>) -> bool {
        &&& forall|c: U| cloned::<U>(rhs.x, c) ==> #[trigger] self.x.shl_req(c)
        &&& forall|c: U| cloned::<U>(rhs.y, c) ==> #[trigger] self.y.shl_req(c)
    }

    open spec fn shl_spec(self, rhs: &Vector2<U>) -> Vector2<S> {
        Vector2 { x: self.x.shl_spec(rhs.x), y: self.y.shl_spec(rhs.y) }
    }
}

/// Component-wise the left shift, with a borrowed right-hand side whose components are cloned.
impl<T: Shl<U, Output = S>, U: Clone, S> Shl<&Vector2<U>> for Vector2<T> {
    type Output = Vector2<S>;

    fn shl(self, rhs: &Vector2<U>) -> (r: Vector2<S>)
        ensures
            <T as ShlSpec<U>>::obeys_shl_spec() && clone_is_exact::<U>() ==> r.x == self.x.shl_spec(rhs.x),
            <T as ShlSpec<U>>::obeys_shl_spec() && clone_is_exact::<U>() ==> r.y == self.y.shl_spec(rhs.y),
    {
        let rx = rhs.x.clone();
        let ry = rhs.y.clone();
        assert(cloned::<U>(rhs.x, rx) && cloned::<U>(rhs.y, ry));
        Vector2 { x: self.x.shl(rx), y: self.y.shl(ry) }
    }
}

impl<T: Shl<U, Output = S> + Clone, U: Clone, S> vstd::std_specs::ops::ShlSpecImpl<&Vector2<U>> for &Vector2<T> {
    open spec fn obeys_shl_spec() -> bool {
        <T as ShlSpec<U>>::obeys_shl_spec() && clone_is_exact::<T>() && clone_is_exact::<U>()
    }

    open spec fn shl_req(self, rhs: &Vector2<U>) -> bool {
        &&& forall|a: T, b: U| cloned::<T>(self.x, a) && cloned::<U>(rhs.x, b) ==> #[trigger] a.shl_req(b)
        &&& forall|a: T, b: U| cloned::<T>(self.y, a) && cloned::<U>(rhs.y, b) ==> #[trigger] a.shl_req(b)
    }

    open spec fn shl_spec(self, rhs: &Vector2<U>) -> Vector2<S> {
        Vector2 { x: self.x.shl_spec(rhs.x), y: self.y.shl_spec(rhs.y) }
    }
}

/// Component-wise the left shift of two borrowed vectors, whose components are cloned.
impl<T: Shl<U, Output = S> + Clone, U: Clone, S> Shl<&Vector2<U>> for &Vector2<T> {
    type Output = Vector2<S>;

    fn shl(self, rhs: &Vector2<U>) -> (r: Vector2<S>)
        ensures
            <T as ShlSpec<U>>::obeys_shl_spec() && clone_is_exact::<T>() && clone_is_exact::<U>() ==> r.x == self.x.shl_spec(rhs.x),
            <T as ShlSpec<U>>::obeys_shl_spec() && clone_is_exact::<T>() && clone_is_exact::<U>() ==> r.y == self.y.shl_spec(rhs.y),
    {
        let lx = self.x.clone();
        let ly = self.y.clone();
        let rx = rhs.x.clone();
        let ry = rhs.y.clone();
        assert(cloned::<T>(self.x, lx) && cloned::<T>(self.y, ly));
        assert(cloned::<U>(rhs.x, rx) && cloned::<U>(rhs.y, ry));
        Vector2 { x: lx.shl(rx), y: ly.shl(ry) }
    }
}

/// In-place component-wise the left shift.
impl<T: Shl<U, Output = T> + Copy, U> ShlAssign<Vector2<U>> for Vector2<T> {
    fn shl_assign(&mut self, rhs: Vector2<U>)
        requires
            old(self).x.shl_req(rhs.x),
            old(self).y.shl_req(rhs.y),
        ensures
            <T as ShlSpec<U>>::obeys_shl_spec() ==> final(self).x == old(self).x.shl_spec(rhs.x),
            <T as ShlSpec<U>>::obeys_shl_spec() ==> final(self).y == old(self).y.shl_spec(rhs.y),
    {
        self.x = self.x.shl(rhs.x);
        self.y = self.y.shl(rhs.y);
    }
}

/// In-place component-wise the left shift, with a borrowed right-hand side whose components are cloned.
impl<T: Shl<U, Output = T> + Copy, U: Clone> ShlAssign<&Vector2<U>> for Vector2<T> {
    fn shl_assign(&mut self, rhs: &Vector2<U>)
        requires
            forall|c: U| cloned::<U>(rhs.x, c) ==> #[trigger] old(self).x.shl_req(c),
            forall|c: U| cloned::<U>(rhs.y, c) ==> #[trigger] old(self).y.shl_req(c),
        ensures
            <T as ShlSpec<U>>::obeys_shl_spec() && clone_is_exact::<U>() ==> final(self).x == old(self).x.shl_spec(rhs.x),
            <T as ShlSpec<U>>::obeys_shl_spec() && clone_is_exact::<U>() ==> final(self).y == old(self).y.shl_spec(rhs.y),
    {
        let rx = rhs.x.clone();
        let ry = rhs.y.clone();
        assert(cloned::<U>(rhs.x, rx) && cloned::<U>(rhs.y, ry));
        self.x = self.x.shl(rx);
        self.y = self.y.shl(ry);
    }
}

/// The left shift of two vectors pairs the left shift of the horizontal components with the left shift of the vertical
/// ones, each taken with the component type's own `<<`.
pub proof fn lemma_shl_is_componentwise<T: Shl<U, Output = S>, U, S>(a: Vector2<T>, b: Vector2<U>)
    ensures
        a.shl_spec(b).x == a.x.shl_spec(b.x),
        a.shl_spec(b).y == a.y.shl_spec(b.y),
        a.shl_req(b) == (a.x.shl_req(b.x) && a.y.shl_req(b.y)),
{
}

/// With borrowed operands, the left shift is still taken component by component, horizontal with
/// horizontal and vertical with vertical.
pub proof fn lemma_shl_by_reference_is_componentwise<T: Shl<U, Output = S> + Clone, U: Clone, S>(
    a: Vector2<T>,
    b: Vector2<U>,
)
    ensures
        <Vector2<T> as ShlSpec<&Vector2<U>>>::shl_spec(a, &b).x == a.x.shl_spec(b.x),
        <Vector2<T> as ShlSpec<&Vector2<U>>>::shl_spec(a, &b).y == a.y.shl_spec(b.y),
        <&Vector2<T> as ShlSpec<&Vector2<U>>>::shl_spec(&a, &b).x == a.x.shl_spec(b.x),
        <&Vector2<T> as ShlSpec<&Vector2<U>>>::shl_spec(&a, &b).y == a.y.shl_spec(b.y),
{
}

// ---- Shr ----

impl<T: Shr<U, Output = S>, U, S> vstd::std_specs::ops::ShrSpecImpl<Vector2<U>> for Vector2<T> {
    open spec fn obeys_shr_spec() -> bool {
        <T as ShrSpec<U>>::obeys_shr_spec()
    }

    open spec fn shr_req(self, rhs: Vector2<U>) -> bool {
        self.x.shr_req(rhs.x) && self.y.shr_req(rhs.y)
    }

    open spec fn shr_spec(self, rhs: Vector2<U>) -> Vector2<S> {
        Vector2 { x: self.x.shr_spec(rhs.x), y: self.y.shr_spec(rhs.y) }
    }
}

/// Component-wise the right shift.
impl<T: Shr<U, Output = S>, U, S> Shr<Vector2<U>> for Vector2<T> {
    type Output = Vector2<S>;

    fn shr(self, rhs: Vector2<U>) -> (r: Vector2<S>)
        ensures
            <T as ShrSpec<U>>::obeys_shr_spec() ==> r.x == self.x.shr_spec(rhs.x),
            <T as ShrSpec<U>>::obeys_shr_spec() ==> r.y == self.y.shr_spec(rhs.y),
    {
        Vector2 { x: self.x.shr(rhs.x), y: self.y.shr(rhs.y) }
    }
}

impl<T: Shr<U, Output = S>, U: Clone, S> vstd::std_specs::ops::ShrSpecImpl<&Vector2<U>> for Vector2<T> {
    open spec fn obeys_shr_spec() -> bool {
        <T as ShrSpec<U>>::obeys_shr_spec() && clone_is_exact::<U>()
    }

    open spec fn shr_req(self, rhs: &Vector2<U>) -> bool {
        &&& forall|c: U| cloned::<U>(rhs.x, c) ==> #[trigger] self.x.shr_req(c)
        &&& forall|c: U| cloned::<U>(rhs.y, c) ==> #[trigger] self.y.shr_req(c)
    }

    open spec fn shr_spec(self, rhs: &Vector2<U>) -> Vector2<S> {
        Vector2 { x: self.x.shr_spec(rhs.x), y: self.y.shr_spec(rhs.y) }
    }
}

/// Component-wise the right shift, with a borrowed right-hand side whose components are cloned.
impl<T: Shr<U, Output = S>, U: Clone, S> Shr<&Vector2<U>> for Vector2<T> {
    type Output = Vector2<S>;

    fn shr(self, rhs: &Vector2<U>) -> (r: Vector2<S>)
        ensures
            <T as ShrSpec<U>>::obeys_shr_spec() && clone_is_exact::<U>() ==> r.x == self.x.shr_spec(rhs.x),
            <T as ShrSpec<U>>::obeys_shr_spec() && clone_is_exact::<U>() ==> r.y == self.y.shr_spec(rhs.y),
    {
        let rx = rhs.x.clone();
        let ry = rhs.y.clone();
        assert(cloned::<U>(rhs.x, rx) && cloned::<U>(rhs.y, ry));
        Vector2 { x: self.x.shr(rx), y: self.y.shr(ry) }
    }
}

impl<T: Shr<U, Output = S> + Clone, U: Clone, S> vstd::std_specs::ops::ShrSpecImpl<&Vector2<U>> for &Vector2<T> {
    open spec fn obeys_shr_spec() -> bool {
        <T as ShrSpec<U>>::obeys_shr_spec() && clone_is_exact::<T>() && clone_is_exact::<U>()
    }

    open spec fn shr_req(self, rhs: &Vector2<U>) -> bool {
        &&& forall|a: T, b: U| cloned::<T>(self.x, a) && cloned::<U>(rhs.x, b) ==> #[trigger] a.shr_req(b)
        &&& forall|a: T, b: U| cloned::<T>(self.y, a) && cloned::<U>(rhs.y, b) ==> #[trigger] a.shr_req(b)
    }

    open spec fn shr_spec(self, rhs: &Vector2<U>) -> Vector2<S> {
        Vector2 { x: self.x.shr_spec(rhs.x), y: self.y.shr_spec(rhs.y) }
    }
}

/// Component-wise the right shift of two borrowed vectors, whose components are cloned.
impl<T: Shr<U, Output = S> + Clone, U: Clone, S> Shr<&Vector2<U>> for &Vector2<T> {
    type Output = Vector2<S>;

    fn shr(self, rhs: &Vector2<U>) -> (r: Vector2<S>)
        ensures
            <T as ShrSpec<U>>::obeys_shr_spec() && clone_is_exact::<T>() && clone_is_exact::<U>() ==> r.x == self.x.shr_spec(rhs.x),
            <T as ShrSpec<U>>::obeys_shr_spec() && clone_is_exact::<T>() && clone_is_exact::<U>() ==> r.y == self.y.shr_spec(rhs.y),
    {
        let lx = self.x.clone();
        let ly = self.y.clone();
        let rx = rhs.x.clone();
        let ry = rhs.y.clone();
        assert(cloned::<T>(self.x, lx) && cloned::<T>(self.y, ly));
        assert(cloned::<U>(rhs.x, rx) && cloned::<U>(rhs.y, ry));
        Vector2 { x: lx.shr(rx), y: ly.shr(ry) }
    }
}

/// In-place component-wise the right shift.
impl<T: Shr<U, Output = T> + Copy, U> ShrAssign<Vector2<U>> for Vector2<T> {
    fn shr_assign(&mut self, rhs: Vector2<U>)
        requires
            old(self).x.shr_req(rhs.x),
            old(self).y.shr_req(rhs.y),
        ensures
            <T as ShrSpec<U>>::obeys_shr_spec() ==> final(self).x == old(self).x.shr_spec(rhs.x),
            <T as ShrSpec<U>>::obeys_shr_spec() ==> final(self).y == old(self).y.shr_spec(rhs.y),
    {
        self.x = self.x.shr(rhs.x);
        self.y = self.y.shr(rhs.y);
    }
}

/// In-place component-wise the right shift, with a borrowed right-hand side whose components are cloned.
impl<T: Shr<U, Output = T> + Copy, U: Clone> ShrAssign<&Vector2<U>> for Vector2<T> {
    fn shr_assign(&mut self, rhs: &Vector2<U>)
        requires
            forall|c: U| cloned::<U>(rhs.x, c) ==> #[trigger] old(self).x.shr_req(c),
            forall|c: U| cloned::<U>(rhs.y, c) ==> #[trigger] old(self).y.shr_req(c),
        ensures
            <T as ShrSpec<U>>::obeys_shr_spec() && clone_is_exact::<U>() ==> final(self).x == old(self).x.shr_spec(rhs.x),
            <T as ShrSpec<U>>::obeys_shr_spec() && clone_is_exact::<U>() ==> final(self).y == old(self).y.shr_spec(rhs.y),
    {
        let rx = rhs.x.clone();
        let ry = rhs.y.clone();
        assert(cloned::<U>(rhs.x, rx) && cloned::<U>(rhs.y, ry));
        self.x = self.x.shr(rx);
        self.y = self.y.shr(ry);
    }
}

/// The right shift of two vectors pairs the right shift of the horizontal components with the right shift of the vertical
/// ones, each taken with the component type's own `>>`.
pub proof fn lemma_shr_is_componentwise<T: Shr<U, Output = S>, U, S>(a: Vector2<T>, b: Vector2<U>)
    ensures
        a.shr_spec(b).x == a.x.shr_spec(b.x),
        a.shr_spec(b).y == a.y.shr_spec(b.y),
        a.shr_req(b) == (a.x.shr_req(b.x) && a.y.shr_req(b.y)),
{
}

/// With borrowed operands, the right shift is still taken component by component, horizontal with
/// horizontal and vertical with vertical.
pub proof fn lemma_shr_by_reference_is_componentwise<T: Shr<U, Output = S> + Clone, U: Clone, S>(
    a: Vector2<T>,
    b: Vector2<U>,
)
    ensures
        <Vector2<T> as ShrSpec<&Vector2<U>>>::shr_spec(a, &b).x == a.x.shr_spec(b.x),
        <Vector2<T> as ShrSpec<&Vector2<U>>>::shr_spec(a, &b).y == a.y.shr_spec(b.y),
        <&Vector2<T> as ShrSpec<&Vector2<U>>>::shr_spec(&a, &b).x == a.x.shr_spec(b.x),
        <&Vector2<T> as ShrSpec<&Vector2<U>>>::shr_spec(&a, &b).y == a.y.shr_spec(b.y),
{
}

// ---- Neg ----

impl<T: Neg<Output = U>, U> vstd::std_specs::ops::NegSpecImpl for Vector2<T> {
    open spec fn obeys_neg_spec() -> bool {
        <T as NegSpec>::obeys_neg_spec()
    }

    open spec fn neg_req(self) -> bool {
        self.x.neg_req() && self.y.neg_req()
    }

    open spec fn neg_spec(self) -> Vector2<U> {
        Vector2 { x: self.x.neg_spec(), y: self.y.neg_spec() }
    }
}

/// Component-wise negation.
impl<T: Neg<Output = U>, U> Neg for Vector2<T> {
    type Output = Vector2<U>;

    fn neg(self) -> (r: Vector2<U>)
        ensures
            <T as NegSpec>::obeys_neg_spec() ==> r.x == self.x.neg_spec(),
            <T as NegSpec>::obeys_neg_spec() ==> r.y == self.y.neg_spec(),
    {
        Vector2 { x: self.x.neg(), y: self.y.neg() }
    }
}

/// The negation of a vector is the negation of each component, each in its place.
pub proof fn lemma_neg_is_componentwise<T: Neg<Output = U>, U>(a: Vector2<T>)
    ensures
        a.neg_spec().x == a.x.neg_spec(),
        a.neg_spec().y == a.y.neg_spec(),
        a.neg_req() == (a.x.neg_req() && a.y.neg_req()),
{
}

// ---- Not ----

impl<T: Not<Output = U>, U> vstd::std_specs::ops::NotSpecImpl for Vector2<T> {
    open spec fn obeys_not_spec() -> bool {
        <T as NotSpec>::obeys_not_spec()
    }

    open spec fn not_req(self) -> bool {
        self.x.not_req() && self.y.not_req()
    }

    open spec fn not_spec(self) -> Vector2<U> {
        Vector2 { x: self.x.not_spec(), y: self.y.not_spec() }
    }
}

/// Component-wise complement.
impl<T: Not<Output = U>, U> Not for Vector2<T> {
    type Output = Vector2<U>;

    fn not(self) -> (r: Vector2<U>)
        ensures
            <T as NotSpec>::obeys_not_spec() ==> r.x == self.x.not_spec(),
            <T as NotSpec>::obeys_not_spec() ==> r.y == self.y.not_spec(),
    {
        Vector2 { x: self.x.not(), y: self.y.not() }
    }
}

/// The complement of a vector is the complement of each component, each in its place.
pub proof fn lemma_not_is_componentwise<T: Not<Output = U>, U>(a: Vector2<T>)
    ensures
        a.not_spec().x == a.x.not_spec(),
        a.not_spec().y == a.y.not_spec(),
        a.not_req() == (a.x.not_req() && a.y.not_req()),
{
}

} // verus!
