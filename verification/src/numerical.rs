//! Lists of numbers with arithmetic position by position.
use vstd::prelude::*;
use vstd::std_specs::ops::AddSpec;
use vstd::std_specs::ops::SubSpec;

verus! {

/// What a type needs to count as a number here: the four operations, and
/// copies.
pub trait IsNumeric: core::ops::Add + core::ops::Sub + core::ops::Mul + core::ops::Div + Sized + Copy {

}

impl<T: core::ops::Add + core::ops::Sub + core::ops::Mul + core::ops::Div + Sized + Copy> IsNumeric for T {

}

/// A list of numbers.
pub struct NumericalVec<T> where T: IsNumeric {
    data: Vec<T>,
}

impl<T: IsNumeric> View for NumericalVec<T> {
    type V = Seq<T>;

    closed spec fn view(&self) -> Seq<T> {
        self.data@
    }
}

impl<T: IsNumeric> NumericalVec<T> {
    /// The list that holds `v`.
    pub fn from(v: Vec<T>) -> (r: Self)
        ensures
            r@ == v@,
    {
        NumericalVec { data: v }
    }

    /// The numbers of the list.
    pub fn data(&self) -> (r: &Vec<T>)
        ensures
            r@ == self@,
    {
        &self.data
    }
}

impl<T> NumericalVec<T> where T: IsNumeric, <T as core::ops::Add>::Output: IsNumeric {
    /// The sums of two lists of one length, position by position.
    pub fn add(&self, b: &Self) -> (r: NumericalVec<<T as core::ops::Add>::Output>)
        requires
            self@.len() == b@.len(),
            forall|i: int| 0 <= i < self@.len() ==> #[trigger] self@[i].add_req(b@[i]),
        ensures
            r@.len() == self@.len(),
            T::obeys_add_spec() ==> forall|i: int|
                0 <= i < self@.len() ==> r@[i] == #[trigger] self@[i].add_spec(b@[i]),
    {
        let mut data: Vec<<T as core::ops::Add>::Output> = Vec::new();
        let mut i: usize = 0;
        while i < self.data.len()
            invariant
                i <= self@.len(),
                self@.len() == b@.len(),
                self@ == self.data@,
                b@ == b.data@,
                data@.len() == i,
                forall|k: int| 0 <= k < self@.len() ==> #[trigger] self@[k].add_req(b@[k]),
                T::obeys_add_spec() ==> forall|k: int|
                    0 <= k < i ==> data@[k] == #[trigger] self@[k].add_spec(b@[k]),
            decreases self@.len() - i,
        {
            data.push(self.data[i] + b.data[i]);
            i += 1;
        }
        NumericalVec { data }
    }
}

impl<T> NumericalVec<T> where T: IsNumeric, <T as core::ops::Sub>::Output: IsNumeric {
    /// The differences of two lists of one length, position by position.
    pub fn sub(&self, b: &Self) -> (r: NumericalVec<<T as core::ops::Sub>::Output>)
        requires
            self@.len() == b@.len(),
            forall|i: int| 0 <= i < self@.len() ==> #[trigger] self@[i].sub_req(b@[i]),
        ensures
            r@.len() == self@.len(),
            T::obeys_sub_spec() ==> forall|i: int|
                0 <= i < self@.len() ==> r@[i] == #[trigger] self@[i].sub_spec(b@[i]),
    {
        let mut data: Vec<<T as core::ops::Sub>::Output> = Vec::new();
        let mut i: usize = 0;
        while i < self.data.len()
            invariant
                i <= self@.len(),
                self@.len() == b@.len(),
                self@ == self.data@,
                b@ == b.data@,
                data@.len() == i,
                forall|k: int| 0 <= k < self@.len() ==> #[trigger] self@[k].sub_req(b@[k]),
                T::obeys_sub_spec() ==> forall|k: int|
                    0 <= k < i ==> data@[k] == #[trigger] self@[k].sub_spec(b@[k]),
            decreases self@.len() - i,
        {
            data.push(self.data[i] - b.data[i]);
            i += 1;
        }
        NumericalVec { data }
    }
}

} // verus!
