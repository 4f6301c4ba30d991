//! Configuration sources and the chain that combines them.
use vstd::prelude::*;

use crate::model::{Duplicate, Model};
use crate::text::{decimal, decimal_spec};

verus! {

/// A configuration source (strategy): each origin of configuration data
/// implements it. What a source loads is a function of the source.
pub trait ConfigSource<T: Model> {
    /// The model of what `load` returns.
    spec fn spec_load(&self) -> Option<T::M>;

    fn load(&self) -> (r: Option<T>)
        ensures
            r.model() == self.spec_load(),
    ;
}

/// Configuration data that can be layered: the fields that a higher-priority
/// value sets override those of the lower one.
pub trait Mergeable: Model + Sized {
    /// The model after a value of model `lower` takes the fields that `higher` sets.
    spec fn merge_model(lower: Self::M, higher: Self::M) -> Self::M;

    fn merge_from(&mut self, higher: Self)
        ensures
            final(self).model() == Self::merge_model(old(self).model(), higher.model()),
    ;
}

/// A source whose data was loaded beforehand.
pub struct Preloaded<T>(pub Option<T>);

impl<T: Duplicate> ConfigSource<T> for Preloaded<T> {
    open spec fn spec_load(&self) -> Option<T::M> {
        self.0.model()
    }

    fn load(&self) -> (r: Option<T>) {
        self.0.duplicate()
    }
}

/// The first loaded value, in priority order.
pub open spec fn first_loaded<M>(loads: Seq<Option<M>>) -> Option<M>
    decreases loads.len(),
{
    if loads.len() == 0 {
        None
    } else if loads[0] is Some {
        loads[0]
    } else {
        first_loaded(loads.drop_first())
    }
}

/// Layering of loaded values onto `base`: the lowest priority (last) first,
/// each higher one merged on top.
pub open spec fn fold_merge<T: Mergeable>(loads: Seq<Option<T::M>>, base: T::M) -> T::M
    decreases loads.len(),
{
    if loads.len() == 0 {
        base
    } else {
        let inner = fold_merge::<T>(loads.drop_first(), base);
        match loads[0] {
            Some(p) => T::merge_model(inner, p),
            None => inner,
        }
    }
}

/// Whether some source loaded a value.
pub open spec fn any_loaded<M>(loads: Seq<Option<M>>) -> bool {
    exists|i: int| 0 <= i < loads.len() && #[trigger] loads[i] is Some
}

/// A configuration chain (chain of responsibility): sources in priority order,
/// index 0 the highest.
///
/// - `first()`: short-circuit, the configuration of the first source that has one;
/// - `merge()`: layering, each field taken from the highest source that sets it.
#[verifier::reject_recursive_types(T)]
pub struct ConfigChain<T: Model, S: ConfigSource<T> = Box<dyn ConfigSource<T>>> {
    sources: Vec<S>,
    marker: core::marker::PhantomData<T>,
}

/// A boxed source loads what the source inside loads.
impl<T: Model, S: ConfigSource<T> + ?Sized> ConfigSource<T> for Box<S> {
    open spec fn spec_load(&self) -> Option<T::M> {
        (**self).spec_load()
    }

    fn load(&self) -> (r: Option<T>) {
        (**self).load()
    }
}

impl<T: Model, S: ConfigSource<T>> ConfigChain<T, S> {
    /// What each source loads, in priority order.
    pub closed spec fn loads(&self) -> Seq<Option<T::M>> {
        self.sources@.map_values(|s: S| s.spec_load())
    }

    pub fn new(sources: Vec<S>) -> (c: Self)
        ensures
            c.loads() == sources@.map_values(|s: S| s.spec_load()),
    {
        ConfigChain { sources, marker: core::marker::PhantomData }
    }

    pub fn is_empty(&self) -> (r: bool)
        ensures
            r == (self.loads().len() == 0),
    {
        self.sources.len() == 0
    }

    /// What `{:?}` shows of a chain: the number of its sources.
    pub fn debug_string(&self) -> (r: String)
        ensures
            r@ == "ConfigChain { source_count: "@ + decimal_spec(self.loads().len()) + " }"@,
    {
        let mut r = String::from_str("ConfigChain { source_count: ");
        r.append(decimal(self.sources.len()).as_str());
        r.append(" }");
        r
    }

    /// The configuration of the highest-priority source that has one.
    pub fn first(&self) -> (r: Option<T>)
        ensures
            r.model() == first_loaded(self.loads()),
    {
        let n = self.sources.len();
        let mut i: usize = 0;
        assert(self.loads().skip(0) =~= self.loads());
        while i < n
            invariant
                i <= n == self.sources@.len(),
                self.loads().len() == n,
                first_loaded(self.loads()) == first_loaded(self.loads().skip(i as int)),
            decreases n - i,
        {
            let r = self.sources[i].load();
            assert(self.loads().skip(i as int).drop_first() =~= self.loads().skip(i + 1));
            assert(self.loads()[i as int] == self.sources@[i as int].spec_load());
            if r.is_some() {
                return r;
            }
            i = i + 1;
        }
        assert(self.loads().skip(n as int) =~= Seq::<Option<T::M>>::empty());
        None
    }
}

impl<T: Model + Default + Mergeable, S: ConfigSource<T>> ConfigChain<T, S> {
    /// Layers the loaded configurations onto `T::default()`, the highest
    /// priority last; `None` when no source loads anything.
    pub fn merge(&self) -> (r: Option<T>)
        ensures
            r is None <==> !any_loaded(self.loads()),
            r matches Some(v) ==> exists|base: T|
                call_ensures(T::default, (), base) && v.model() == fold_merge::<T>(
                    self.loads(),
                    base.model(),
                ),
    {
        let n = self.sources.len();
        let mut acc = T::default();
        let ghost base = acc;
        let mut any = false;
        let mut i: usize = n;
        assert(self.loads().skip(n as int) =~= Seq::<Option<T::M>>::empty());
        while i > 0
            invariant
                i <= n == self.sources@.len(),
                self.loads().len() == n,
                call_ensures(T::default, (), base),
                acc.model() == fold_merge::<T>(self.loads().skip(i as int), base.model()),
                any <==> exists|j: int| i <= j < n && #[trigger] self.loads()[j] is Some,
            decreases i,
        {
            i = i - 1;
            assert(self.loads().skip(i as int).drop_first() =~= self.loads().skip(i + 1));
            assert(self.loads()[i as int] == self.sources@[i as int].spec_load());
            assert(self.loads().skip(i as int)[0] == self.loads()[i as int]);
            if let Some(part) = self.sources[i].load() {
                acc.merge_from(part);
                any = true;
            }
        }
        assert(self.loads().skip(0) =~= self.loads());
        if any {
            Some(acc)
        } else {
            None
        }
    }
}

} // verus!
