use vstd::prelude::*;
use vstd::std_specs::ops::{AddSpec, SubSpec, MulSpec, DivSpec, NegSpec};

verus! {

/// One pixel: a tuple of four channel values with strictly element-wise
/// arithmetic. Channels never interact; the arity is fixed by the type, so a
/// length mismatch between two operands is impossible by construction.
#[derive(Clone, Copy, Debug)]
pub struct Vector<T> {
    pub data: [T; 4],
}

impl<T: Copy> Vector<T> {
    pub fn new(data: [T; 4]) -> (r: Vector<T>)
        ensures
            r.data == data,
    {
        Vector { data }
    }

    /// The vector whose four channels all hold `value`.
    pub fn splat(value: T) -> (r: Vector<T>)
        ensures
            forall|i: int| 0 <= i < 4 ==> r.data@[i] == value,
    {
        Vector { data: [value, value, value, value] }
    }

    /// Apply `f` to every channel independently.
    pub fn map<F: Fn(T) -> T>(self, f: F) -> (r: Vector<T>)
        requires
            forall|i: int| 0 <= i < 4 ==> call_requires(f, (self.data@[i],)),
        ensures
            forall|i: int|
                0 <= i < 4 ==> call_ensures(f, (self.data@[i],), #[trigger] r.data@[i]),
    {
        Vector { data: [f(self.data[0]), f(self.data[1]), f(self.data[2]), f(self.data[3])] }
    }

    /// Combine with `other`, channel by channel: channel `i` of the result
    /// comes from `f` applied to channel `i` of `self` and of `other`.
    pub fn map_with<F: Fn(T, T) -> T>(self, other: Vector<T>, f: F) -> (r: Vector<T>)
        requires
            forall|i: int| 0 <= i < 4 ==> call_requires(f, (self.data@[i], other.data@[i])),
        ensures
            forall|i: int|
                0 <= i < 4 ==> call_ensures(
                    f,
                    (self.data@[i], other.data@[i]),
                    #[trigger] r.data@[i],
                ),
    {
        Vector {
            data: [
                f(self.data[0], other.data[0]),
                f(self.data[1], other.data[1]),
                f(self.data[2], other.data[2]),
                f(self.data[3], other.data[3]),
            ],
        }
    }
}

/// All four channels hold one shared default value.
impl<T: Copy + Default> Default for Vector<T> {
    fn default() -> (r: Vector<T>)
        ensures
            forall|i: int, j: int| 0 <= i < 4 && 0 <= j < 4 ==> r.data@[i] == r.data@[j],
    {
        let d = T::default();
        Vector { data: [d, d, d, d] }
    }
}

impl<T: Copy + core::ops::Add<Output = T>> vstd::std_specs::ops::AddSpecImpl for Vector<T> {
    open spec fn obeys_add_spec() -> bool {
        T::obeys_add_spec()
    }

    open spec fn add_req(self, rhs: Vector<T>) -> bool {
        forall|i: int| 0 <= i < 4 ==> self.data@[i].add_req(rhs.data@[i])
    }

    open spec fn add_spec(self, rhs: Vector<T>) -> Vector<T> {
        Vector {
            data: [
                self.data@[0].add_spec(rhs.data@[0]),
                self.data@[1].add_spec(rhs.data@[1]),
                self.data@[2].add_spec(rhs.data@[2]),
                self.data@[3].add_spec(rhs.data@[3]),
            ],
        }
    }
}

/// Channel-wise addition; a length mismatch cannot arise.
impl<T: Copy + core::ops::Add<Output = T>> core::ops::Add for Vector<T> {
    type Output = Vector<T>;

    fn add(self, rhs: Vector<T>) -> (r: Vector<T>) {
        Vector {
            data: [
                self.data[0] + rhs.data[0],
                self.data[1] + rhs.data[1],
                self.data[2] + rhs.data[2],
                self.data[3] + rhs.data[3],
            ],
        }
    }
}

impl<T: Copy + core::ops::Sub<Output = T>> vstd::std_specs::ops::SubSpecImpl for Vector<T> {
    open spec fn obeys_sub_spec() -> bool {
        T::obeys_sub_spec()
    }

    open spec fn sub_req(self, rhs: Vector<T>) -> bool {
        forall|i: int| 0 <= i < 4 ==> self.data@[i].sub_req(rhs.data@[i])
    }

    open spec fn sub_spec(self, rhs: Vector<T>) -> Vector<T> {
        Vector {
            data: [
                self.data@[0].sub_spec(rhs.data@[0]),
                self.data@[1].sub_spec(rhs.data@[1]),
                self.data@[2].sub_spec(rhs.data@[2]),
                self.data@[3].sub_spec(rhs.data@[3]),
            ],
        }
    }
}

/// Channel-wise subtraction.
impl<T: Copy + core::ops::Sub<Output = T>> core::ops::Sub for Vector<T> {
    type Output = Vector<T>;

    fn sub(self, rhs: Vector<T>) -> (r: Vector<T>) {
        Vector {
            data: [
                self.data[0] - rhs.data[0],
                self.data[1] - rhs.data[1],
                self.data[2] - rhs.data[2],
                self.data[3] - rhs.data[3],
            ],
        }
    }
}

impl<T: Copy + core::ops::Mul<Output = T>> vstd::std_specs::ops::MulSpecImpl for Vector<T> {
    open spec fn obeys_mul_spec() -> bool {
        T::obeys_mul_spec()
    }

    open spec fn mul_req(self, rhs: Vector<T>) -> bool {
        forall|i: int| 0 <= i < 4 ==> self.data@[i].mul_req(rhs.data@[i])
    }

    open spec fn mul_spec(self, rhs: Vector<T>) -> Vector<T> {
        Vector {
            data: [
                self.data@[0].mul_spec(rhs.data@[0]),
                self.data@[1].mul_spec(rhs.data@[1]),
                self.data@[2].mul_spec(rhs.data@[2]),
                self.data@[3].mul_spec(rhs.data@[3]),
            ],
        }
    }
}

/// Channel-wise multiplication.
impl<T: Copy + core::ops::Mul<Output = T>> core::ops::Mul for Vector<T> {
    type Output = Vector<T>;

    fn mul(self, rhs: Vector<T>) -> (r: Vector<T>) {
        Vector {
            data: [
                self.data[0] * rhs.data[0],
                self.data[1] * rhs.data[1],
                self.data[2] * rhs.data[2],
                self.data[3] * rhs.data[3],
            ],
        }
    }
}

impl<T: Copy + core::ops::Div<Output = T>> vstd::std_specs::ops::DivSpecImpl for Vector<T> {
    open spec fn obeys_div_spec() -> bool {
        T::obeys_div_spec()
    }

    open spec fn div_req(self, rhs: Vector<T>) -> bool {
        forall|i: int| 0 <= i < 4 ==> self.data@[i].div_req(rhs.data@[i])
    }

    open spec fn div_spec(self, rhs: Vector<T>) -> Vector<T> {
        Vector {
            data: [
                self.data@[0].div_spec(rhs.data@[0]),
                self.data@[1].div_spec(rhs.data@[1]),
                self.data@[2].div_spec(rhs.data@[2]),
                self.data@[3].div_spec(rhs.data@[3]),
            ],
        }
    }
}

/// Channel-wise division.
impl<T: Copy + core::ops::Div<Output = T>> core::ops::Div for Vector<T> {
    type Output = Vector<T>;

    fn div(self, rhs: Vector<T>) -> (r: Vector<T>) {
        Vector {
            data: [
                self.data[0] / rhs.data[0],
                self.data[1] / rhs.data[1],
                self.data[2] / rhs.data[2],
                self.data[3] / rhs.data[3],
            ],
        }
    }
}

impl<T: Copy + core::ops::Neg<Output = T>> vstd::std_specs::ops::NegSpecImpl for Vector<T> {
    open spec fn obeys_neg_spec() -> bool {
        T::obeys_neg_spec()
    }

    open spec fn neg_req(self) -> bool {
        forall|i: int| 0 <= i < 4 ==> self.data@[i].neg_req()
    }

    open spec fn neg_spec(self) -> Vector<T> {
        Vector {
            data: [
                self.data@[0].neg_spec(),
                self.data@[1].neg_spec(),
                self.data@[2].neg_spec(),
                self.data@[3].neg_spec(),
            ],
        }
    }
}

/// Channel-wise negation.
impl<T: Copy + core::ops::Neg<Output = T>> core::ops::Neg for Vector<T> {
    type Output = Vector<T>;

    fn neg(self) -> (r: Vector<T>) {
        Vector {
            data: [
                self.data[0].neg(),
                self.data[1].neg(),
                self.data[2].neg(),
                self.data[3].neg(),
            ],
        }
    }
}

} // verus!
