//! A two-component vector: construction, conversions and higher-order helpers.

use vstd::prelude::*;
use vstd::std_specs::convert::FromSpecImpl;

verus! {

/// A pair of values of the same type, read as the horizontal and vertical components.
#[derive(Debug, Clone, Copy, PartialEq, Eq, Hash, Default)]
pub struct Vector2<T> {
    pub x: T,
    pub y: T,
}

/// Cloning a `T` always gives back a value equal to the original.
pub open spec fn clone_is_exact<T: Clone>() -> bool {
    forall|a: T, b: T| #[trigger] cloned::<T>(a, b) ==> a == b
}

/// `s` holds, in order, clones of the horizontal components of `vecs`.
pub open spec fn clones_of_xs<T: Clone>(vecs: Seq<Vector2<T>>, s: Seq<T>) -> bool {
    &&& s.len() == vecs.len()
    &&& forall|i: int| 0 <= i < s.len() ==> cloned::<T>(#[trigger] vecs[i].x, s[i])
}

/// `s` holds, in order, clones of the vertical components of `vecs`.
pub open spec fn clones_of_ys<T: Clone>(vecs: Seq<Vector2<T>>, s: Seq<T>) -> bool {
    &&& s.len() == vecs.len()
    &&& forall|i: int| 0 <= i < s.len() ==> cloned::<T>(#[trigger] vecs[i].y, s[i])
}

/// The vector with its two components swapped.
pub open spec fn swapped<T>(v: Vector2<T>) -> Vector2<T> {
    Vector2 { x: v.y, y: v.x }
}

/// Swapping the components twice gives back the vector.
pub proof fn lemma_swapped_twice<T>(v: Vector2<T>)
    ensures
        swapped(swapped(v)) == v,
{
}

/// Turning a vector into an array and back, or an array into a vector and back, gives back
/// what it started from.
pub proof fn lemma_array_round_trip<T>(v: Vector2<T>, a: [T; 2])
    ensures
        <Vector2<T> as vstd::std_specs::convert::FromSpec<[T; 2]>>::from_spec(
            <[T; 2] as vstd::std_specs::convert::FromSpec<Vector2<T>>>::from_spec(v),
        ) == v,
        <[T; 2] as vstd::std_specs::convert::FromSpec<Vector2<T>>>::from_spec(
            <Vector2<T> as vstd::std_specs::convert::FromSpec<[T; 2]>>::from_spec(a),
        )@ == a@,
{
    let w = <Vector2<T> as vstd::std_specs::convert::FromSpec<[T; 2]>>::from_spec(a);
    assert(<[T; 2] as vstd::std_specs::convert::FromSpec<Vector2<T>>>::from_spec(w)@ =~= a@);
}

impl<T> Vector2<T> {
    /// Builds a vector from its two components.
    pub fn new(new_x: T, new_y: T) -> (r: Vector2<T>)
        ensures
            r.x == new_x,
            r.y == new_y,
    {
        Vector2 { x: new_x, y: new_y }
    }

    /// Combines the two components with `func`, horizontal first.
    pub fn fold<U: Fn(T, T) -> T>(self, func: U) -> (r: T)
        requires
            call_requires(func, (self.x, self.y)),
        ensures
            call_ensures(func, (self.x, self.y), r),
    {
        func(self.x, self.y)
    }

    /// Applies `func` to each component.
    pub fn map<U, F: Fn(T) -> U>(self, func: F) -> (r: Vector2<U>)
        requires
            call_requires(func, (self.x,)),
            call_requires(func, (self.y,)),
        ensures
            call_ensures(func, (self.x,), r.x),
            call_ensures(func, (self.y,), r.y),
    {
        Vector2 { x: func(self.x), y: func(self.y) }
    }

    /// Combines this vector with `other` component by component.
    pub fn apply_two<U, S, F: Fn(T, U) -> S>(self, other: Vector2<U>, func: F) -> (r: Vector2<S>)
        requires
            call_requires(func, (self.x, other.x)),
            call_requires(func, (self.y, other.y)),
        ensures
            call_ensures(func, (self.x, other.x), r.x),
            call_ensures(func, (self.y, other.y), r.y),
    {
        Vector2 { x: func(self.x, other.x), y: func(self.y, other.y) }
    }

    /// Swaps the two components in place.
    pub fn reciprocate_in_place(&mut self)
        ensures
            *final(self) == swapped(*old(self)),
    {
        core::mem::swap(&mut self.x, &mut self.y);
    }
}

impl<T: Clone> Vector2<T> {
    /// Gathers the horizontal components of `vecs` into one slice and the vertical
    /// components into another, and applies `func` to each slice.
    pub fn apply_n<U, F: Fn(&[T]) -> U>(vecs: &[Vector2<T>], func: F) -> (r: Vector2<U>)
        requires
            forall|s: &[T]| clones_of_xs(vecs@, s@) ==> #[trigger] call_requires(func, (s,)),
            forall|s: &[T]| clones_of_ys(vecs@, s@) ==> #[trigger] call_requires(func, (s,)),
        ensures
            exists|s: &[T]| clones_of_xs(vecs@, s@) && #[trigger] call_ensures(func, (s,), r.x),
            exists|s: &[T]| clones_of_ys(vecs@, s@) && #[trigger] call_ensures(func, (s,), r.y),
    {
        let mut xs: Vec<T> = Vec::new();
        let mut ys: Vec<T> = Vec::new();
        let n = vecs.len();
        for i in 0..n
            invariant
                n == vecs@.len(),
                xs@.len() == i,
                ys@.len() == i,
                forall|j: int| 0 <= j < i ==> cloned::<T>(#[trigger] vecs@[j].x, xs@[j]),
                forall|j: int| 0 <= j < i ==> cloned::<T>(#[trigger] vecs@[j].y, ys@[j]),
        {
            let (x, y) = <(T, T)>::from(&vecs[i]);
            xs.push(x);
            ys.push(y);
        }
        let xs_slice = xs.as_slice();
        let ys_slice = ys.as_slice();
        assert(clones_of_xs(vecs@, xs_slice@));
        assert(clones_of_ys(vecs@, ys_slice@));
        let rx = func(xs_slice);
        let ry = func(ys_slice);
        assert(clones_of_xs(vecs@, xs_slice@) && call_ensures(func, (xs_slice,), rx));
        assert(clones_of_ys(vecs@, ys_slice@) && call_ensures(func, (ys_slice,), ry));
        let r = Vector2 { x: rx, y: ry };
        assert(r.x == rx && r.y == ry);
        r
    }

    /// A vector with the two components swapped, each one cloned.
    pub fn reciprocal(&self) -> (r: Vector2<T>)
        ensures
            cloned::<T>(self.y, r.x),
            cloned::<T>(self.x, r.y),
    {
        let (new_x, new_y) = <(T, T)>::from(self);
        Vector2 { x: new_y, y: new_x }
    }
}

/// `text` is what `to_string` gives for `v`, through its `Display`.
pub open spec fn displays_as<T: core::fmt::Display>(v: &T, text: Seq<char>) -> bool {
    exists|s: String| #[trigger] vstd::string::to_string_from_display_ensures::<T>(v, s) && s@ == text
}

impl<T: core::fmt::Display> Vector2<T> {
    /// The vector as text: `(x, y)`, each component as its `Display` writes it.
    pub fn to_string(&self) -> (r: String)
        ensures
            exists|xs: Seq<char>, ys: Seq<char>|
                #![trigger displays_as(&self.x, xs), displays_as(&self.y, ys)]
                displays_as(&self.x, xs) && displays_as(&self.y, ys)
                && r@ == "("@ + xs + ", "@ + ys + ")"@,
    {
        let xs = self.x.to_string();
        let ys = self.y.to_string();
        let mut text = String::from_str("(");
        text.append(xs.as_str());
        text.append(", ");
        text.append(ys.as_str());
        text.append(")");
        assert(displays_as(&self.x, xs@));
        assert(displays_as(&self.y, ys@));
        text
    }
}

/// Conversion of a vector of one component type into a vector of another, through `From`.
pub trait VectorFrom<T>: Sized {
    fn vector_from(other: T) -> Self;
}

impl<T, U: From<T>> VectorFrom<Vector2<T>> for Vector2<U> {
    /// Converts each component with `U::from`.
    fn vector_from(other: Vector2<T>) -> (r: Vector2<U>)
        ensures
            call_ensures(U::from, (other.x,), r.x),
            call_ensures(U::from, (other.y,), r.y),
    {
        Vector2 { x: other.x.into(), y: other.y.into() }
    }
}

/// The outcome of a fallible conversion of both components: the first error, horizontal
/// component first, or both converted components.
pub open spec fn combine_conversions<U, E>(rx: Result<U, E>, ry: Result<U, E>) -> Result<Vector2<U>, E> {
    match rx {
        Ok(x) => match ry {
            Ok(y) => Ok(Vector2 { x, y }),
            Err(e) => Err(e),
        },
        Err(e) => Err(e),
    }
}

/// Conversion of a vector of one component type into a vector of another, through `TryFrom`.
pub trait VectorTryFrom<T>: Sized {
    type Error;

    fn vector_try_from(other: T) -> Result<Self, Self::Error>;
}

impl<T, U: TryFrom<T>> VectorTryFrom<Vector2<T>> for Vector2<U> {
    type Error = <U as TryFrom<T>>::Error;

    /// Converts both components with `U::try_from`; fails with the horizontal component's
    /// error if that conversion fails, else with the vertical one's.
    fn vector_try_from(other: Vector2<T>) -> (r: Result<Vector2<U>, <U as TryFrom<T>>::Error>)
        ensures
            exists|rx: Result<U, <U as TryFrom<T>>::Error>, ry: Result<U, <U as TryFrom<T>>::Error>|
                #![trigger call_ensures(U::try_from, (other.x,), rx), call_ensures(U::try_from, (other.y,), ry)]
                call_ensures(U::try_from, (other.x,), rx)
                && call_ensures(U::try_from, (other.y,), ry)
                && r == combine_conversions(rx, ry),
    {
        let x_result: Result<U, <U as TryFrom<T>>::Error> = other.x.try_into();
        let y_result: Result<U, <U as TryFrom<T>>::Error> = other.y.try_into();

        match x_result {
            Ok(x) => match y_result {
                Ok(y) => Ok(Vector2 { x, y }),
                Err(y) => Err(y),
            },
            Err(x) => Err(x),
        }
    }
}

impl<T> FromSpecImpl<[T; 2]> for Vector2<T> {
    open spec fn obeys_from_spec() -> bool {
        true
    }

    open spec fn from_spec(v: [T; 2]) -> Vector2<T> {
        Vector2 { x: v@[0], y: v@[1] }
    }
}

/// The first element becomes the horizontal component, the second the vertical one.
impl<T> From<[T; 2]> for Vector2<T> {
    fn from(value: [T; 2]) -> (r: Vector2<T>) {
        let (new_x, new_y) = <(T, T)>::from(value);
        Vector2 { x: new_x, y: new_y }
    }
}

impl<T> FromSpecImpl<Vector2<T>> for [T; 2] {
    open spec fn obeys_from_spec() -> bool {
        true
    }

    open spec fn from_spec(v: Vector2<T>) -> [T; 2] {
        [v.x, v.y]
    }
}

/// The horizontal component first, then the vertical one.
impl<T> From<Vector2<T>> for [T; 2] {
    fn from(value: Vector2<T>) -> (r: [T; 2]) {
        [value.x, value.y]
    }
}

impl<T> FromSpecImpl<Vector2<T>> for (T, T) {
    open spec fn obeys_from_spec() -> bool {
        true
    }

    open spec fn from_spec(v: Vector2<T>) -> (T, T) {
        (v.x, v.y)
    }
}

/// The horizontal component first, then the vertical one.
impl<T> From<Vector2<T>> for (T, T) {
    fn from(value: Vector2<T>) -> (r: (T, T)) {
        (value.x, value.y)
    }
}

impl<T: Clone> FromSpecImpl<&Vector2<T>> for [T; 2] {
    open spec fn obeys_from_spec() -> bool {
        clone_is_exact::<T>()
    }

    open spec fn from_spec(v: &Vector2<T>) -> [T; 2] {
        [v.x, v.y]
    }
}

/// Clones of the horizontal component, then of the vertical one.
impl<T: Clone> From<&Vector2<T>> for [T; 2] {
    fn from(value: &Vector2<T>) -> (r: [T; 2])
        ensures
            cloned::<T>(value.x, r@[0]),
            cloned::<T>(value.y, r@[1]),
    {
        let x = value.x.clone();
        let y = value.y.clone();
        assert(cloned::<T>(value.x, x) && cloned::<T>(value.y, y));
        [x, y]
    }
}

impl<T: Clone> FromSpecImpl<&Vector2<T>> for (T, T) {
    open spec fn obeys_from_spec() -> bool {
        clone_is_exact::<T>()
    }

    open spec fn from_spec(v: &Vector2<T>) -> (T, T) {
        (v.x, v.y)
    }
}

/// Clones of the horizontal component, then of the vertical one.
impl<T: Clone> From<&Vector2<T>> for (T, T) {
    fn from(value: &Vector2<T>) -> (r: (T, T))
        ensures
            cloned::<T>(value.x, r.0),
            cloned::<T>(value.y, r.1),
    {
        let x = value.x.clone();
        let y = value.y.clone();
        assert(cloned::<T>(value.x, x) && cloned::<T>(value.y, y));
        (x, y)
    }
}

impl<T: Clone> FromSpecImpl<&[T; 2]> for Vector2<T> {
    open spec fn obeys_from_spec() -> bool {
        clone_is_exact::<T>()
    }

    open spec fn from_spec(v: &[T; 2]) -> Vector2<T> {
        Vector2 { x: v@[0], y: v@[1] }
    }
}

/// Clones of the first element and of the second one.
impl<T: Clone> From<&[T; 2]> for Vector2<T> {
    fn from(value: &[T; 2]) -> (r: Vector2<T>)
        ensures
            cloned::<T>(value@[0], r.x),
            cloned::<T>(value@[1], r.y),
    {
        let x = value[0].clone();
        let y = value[1].clone();
        assert(cloned::<T>(value@[0], x) && cloned::<T>(value@[1], y));
        Vector2 { x, y }
    }
}

impl<T: Clone> FromSpecImpl<T> for Vector2<T> {
    open spec fn obeys_from_spec() -> bool {
        clone_is_exact::<T>()
    }

    open spec fn from_spec(v: T) -> Vector2<T> {
        Vector2 { x: v, y: v }
    }
}

/// Both components are clones of `value`.
impl<T: Clone> From<T> for Vector2<T> {
    fn from(value: T) -> (r: Vector2<T>)
        ensures
            cloned::<T>(value, r.x),
            cloned::<T>(value, r.y),
    {
        let x = value.clone();
        let y = value.clone();
        assert(cloned::<T>(value, x) && cloned::<T>(value, y));
        Vector2 { x, y }
    }
}

/// `From<[E; 2]>` for pairs, from std: the pair holds the array's first element, then its second.
pub assume_specification<Elem>[<(Elem, Elem) as std::convert::From<[Elem; 2]>>::from](value: [Elem; 2]) -> (r: (Elem, Elem))
    ensures
        r.0 == value@[0],
        r.1 == value@[1],
;

} // verus!
