//! Small helper types shared by the request API.

use vstd::prelude::*;

verus! {

/// Yields a tuple of clones of a value, handing the value itself out as the
/// last component so that no clone is wasted.
pub trait IntoClones<Tuple>: Clone {
    fn into_clones(self) -> Tuple;
}

impl<T: Clone> IntoClones<(T,)> for T {
    fn into_clones(self) -> (T,) {
        (self,)
    }
}

impl<T: Clone> IntoClones<(T, T)> for T {
    fn into_clones(self) -> (T, T) {
        (self.clone(), self)
    }
}

impl<T: Clone> IntoClones<(T, T, T)> for T {
    fn into_clones(self) -> (T, T, T) {
        (self.clone(), self.clone(), self)
    }
}

impl<T: Clone> IntoClones<(T, T, T, T)> for T {
    fn into_clones(self) -> (T, T, T, T) {
        (self.clone(), self.clone(), self.clone(), self)
    }
}

impl<T: Clone> IntoClones<(T, T, T, T, T)> for T {
    fn into_clones(self) -> (T, T, T, T, T) {
        (self.clone(), self.clone(), self.clone(), self.clone(), self)
    }
}

impl<T: Clone> IntoClones<(T, T, T, T, T, T)> for T {
    fn into_clones(self) -> (T, T, T, T, T, T) {
        (self.clone(), self.clone(), self.clone(), self.clone(), self.clone(), self)
    }
}

impl<T: Clone> IntoClones<(T, T, T, T, T, T, T)> for T {
    fn into_clones(self) -> (T, T, T, T, T, T, T) {
        (self.clone(), self.clone(), self.clone(), self.clone(), self.clone(), self.clone(), self)
    }
}

impl<T: Clone> IntoClones<(T, T, T, T, T, T, T, T)> for T {
    fn into_clones(self) -> (T, T, T, T, T, T, T, T) {
        (
            self.clone(),
            self.clone(),
            self.clone(),
            self.clone(),
            self.clone(),
            self.clone(),
            self.clone(),
            self,
        )
    }
}

impl<T: Clone> IntoClones<(T, T, T, T, T, T, T, T, T)> for T {
    fn into_clones(self) -> (T, T, T, T, T, T, T, T, T) {
        (
            self.clone(),
            self.clone(),
            self.clone(),
            self.clone(),
            self.clone(),
            self.clone(),
            self.clone(),
            self.clone(),
            self,
        )
    }
}

impl<T: Clone> IntoClones<(T, T, T, T, T, T, T, T, T, T)> for T {
    fn into_clones(self) -> (T, T, T, T, T, T, T, T, T, T) {
        (
            self.clone(),
            self.clone(),
            self.clone(),
            self.clone(),
            self.clone(),
            self.clone(),
            self.clone(),
            self.clone(),
            self.clone(),
            self,
        )
    }
}

impl<T: Clone> IntoClones<(T, T, T, T, T, T, T, T, T, T, T)> for T {
    fn into_clones(self) -> (T, T, T, T, T, T, T, T, T, T, T) {
        (
            self.clone(),
            self.clone(),
            self.clone(),
            self.clone(),
            self.clone(),
            self.clone(),
            self.clone(),
            self.clone(),
            self.clone(),
            self.clone(),
            self,
        )
    }
}

/// Either a numeric id or a name, for calls that accept both ways of
/// addressing a space or an index.
#[derive(Debug, Clone)]
pub enum NumOrStr {
    Num(u32),
    Str(String),
}

impl From<u32> for NumOrStr {
    fn from(n: u32) -> (r: NumOrStr)
        ensures
            r == NumOrStr::Num(n),
    {
        NumOrStr::Num(n)
    }
}

impl vstd::std_specs::convert::FromSpecImpl<u32> for NumOrStr {
    open spec fn obeys_from_spec() -> bool {
        true
    }

    open spec fn from_spec(n: u32) -> NumOrStr {
        NumOrStr::Num(n)
    }
}

impl From<String> for NumOrStr {
    fn from(s: String) -> (r: NumOrStr)
        ensures
            r == NumOrStr::Str(s),
    {
        NumOrStr::Str(s)
    }
}

impl vstd::std_specs::convert::FromSpecImpl<String> for NumOrStr {
    open spec fn obeys_from_spec() -> bool {
        true
    }

    open spec fn from_spec(s: String) -> NumOrStr {
        NumOrStr::Str(s)
    }
}

impl NumOrStr {
    /// The numeric form, when this is one.
    pub fn as_num(&self) -> (r: Option<u32>)
        ensures
            match r {
                Some(n) => self is Num && self->Num_0 == n,
                None => self is Str,
            },
    {
        match self {
            NumOrStr::Num(n) => Some(*n),
            NumOrStr::Str(_) => None,
        }
    }
}

/// A scalar argument of a request: the only shapes the request API sends.
#[derive(Debug, Clone)]
pub enum Value {
    Num(u32),
    Str(String),
    Bool(bool),
}

/// Whether two byte strings hold the same bytes.
pub fn bytes_eq(a: &Vec<u8>, b: &Vec<u8>) -> (r: bool)
    ensures
        r == (a@ == b@),
{
    let n: usize = a.len();
    if n != b.len() {
        assert(a@ != b@);
        return false;
    }
    let mut i: usize = 0;
    while i < n
        invariant
            n == a@.len() == b@.len(),
            i <= n,
            forall|j: int| 0 <= j < i ==> a@[j] == b@[j],
        decreases n - i,
    {
        if a[i] != b[i] {
            return false;
        }
        i = i + 1;
    }
    proof {
        assert(a@ =~= b@);
    }
    true
}

} // verus!
