//! Mathematical models of the library's data, and exact copies of values.
use vstd::prelude::*;

verus! {

/// A value with a mathematical model; contracts speak of the model.
pub trait Model {
    type M;

    spec fn model(&self) -> Self::M;
}

/// A value that can produce a copy with the same model.
pub trait Duplicate: Model + Sized {
    fn duplicate(&self) -> (r: Self)
        ensures
            r.model() == self.model(),
    ;
}

impl Model for String {
    type M = Seq<char>;

    open spec fn model(&self) -> Seq<char> {
        self@
    }
}

impl Duplicate for String {
    fn duplicate(&self) -> (r: Self) {
        self.clone()
    }
}

impl Model for i32 {
    type M = i32;

    open spec fn model(&self) -> i32 {
        *self
    }
}

impl Duplicate for i32 {
    fn duplicate(&self) -> (r: Self) {
        *self
    }
}

impl Model for usize {
    type M = int;

    open spec fn model(&self) -> int {
        *self as int
    }
}

impl Model for bool {
    type M = bool;

    open spec fn model(&self) -> bool {
        *self
    }
}

impl<T: Model> Model for Option<T> {
    type M = Option<T::M>;

    open spec fn model(&self) -> Option<T::M> {
        match self {
            Some(v) => Some(v.model()),
            None => None,
        }
    }
}

impl<T: Duplicate> Duplicate for Option<T> {
    fn duplicate(&self) -> (r: Self) {
        match self {
            Some(v) => Some(v.duplicate()),
            None => None,
        }
    }
}

impl<T: Model> Model for Vec<T> {
    type M = Seq<T::M>;

    open spec fn model(&self) -> Seq<T::M> {
        self@.map_values(|x: T| x.model())
    }
}

impl<T: Duplicate> Duplicate for Vec<T> {
    fn duplicate(&self) -> (r: Self) {
        let mut out: Vec<T> = Vec::new();
        let n = self.len();
        let mut i: usize = 0;
        while i < n
            invariant
                i <= n == self@.len(),
                out.model() =~= self.model().take(i as int),
            decreases n - i,
        {
            let x = self[i].duplicate();
            let ghost before = out@;
            out.push(x);
            assert(out@ =~= before.push(x));
            assert(self.model().take(i + 1) =~= self.model().take(i as int).push(self@[i as int].model()));
            i = i + 1;
        }
        assert(self.model().take(n as int) =~= self.model());
        out
    }
}

} // verus!
