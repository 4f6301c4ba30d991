//! AI providers: the requests they answer, the provider interface and the
//! registry that dispatches to a provider by name.
pub mod openai;
pub mod prompt;

use vstd::prelude::*;

use crate::config::{AiConfig, Config};
use crate::error::AgcError;
use crate::model::{Duplicate, Model};

verus! {

/// What the model is asked to turn into commit messages.
pub struct Request {
    pub types: Vec<String>,
    pub scopes: Vec<String>,
    pub diff: String,
    pub git_info: String,
    pub extra_context: String,
}

/// The model of a commit-message request.
pub struct RequestModel {
    pub types: Seq<Seq<char>>,
    pub scopes: Seq<Seq<char>>,
    pub diff: Seq<char>,
    pub git_info: Seq<char>,
    pub extra_context: Seq<char>,
}

impl Model for Request {
    type M = RequestModel;

    open spec fn model(&self) -> RequestModel {
        RequestModel {
            types: self.types.model(),
            scopes: self.scopes.model(),
            diff: self.diff@,
            git_info: self.git_info@,
            extra_context: self.extra_context@,
        }
    }
}

/// The commit-message request for a configuration and the collected changes.
pub fn commit_request(config: &Config, diff: &str, git_info: &str, extra_context: &str) -> (r: Request)
    ensures
        r.model() == (RequestModel {
            types: config.types.model(),
            scopes: config.scopes.model(),
            diff: diff@,
            git_info: git_info@,
            extra_context: extra_context@,
        }),
{
    Request {
        types: config.types.duplicate(),
        scopes: config.scopes.duplicate(),
        diff: String::from_str(diff),
        git_info: String::from_str(git_info),
        extra_context: String::from_str(extra_context),
    }
}

/// What the model is asked to turn into a scope list.
pub struct ScopeRequest {
    pub dirs: Vec<String>,
    pub history_scopes: Vec<String>,
    pub existing_yaml: String,
}

/// A language-model provider.
pub trait AiProvider {
    /// The raw answer for a commit-message request.
    fn generate(&self, req: &Request) -> Result<String, AgcError>;

    /// The raw answer for a scope-list request.
    fn generate_scopes(&self, req: &ScopeRequest) -> Result<String, AgcError>;
}

/// Strategy registry: dispatches to a provider factory by name.
pub struct ProviderRegistry<F> {
    factories: Vec<(String, F)>,
}

/// The message for a name that no factory is registered under.
pub open spec fn unknown_provider_message(name: Seq<char>) -> Seq<char> {
    "未知的 AI provider: "@ + name
}

impl<F> ProviderRegistry<F> {
    /// Each name is registered once.
    #[verifier::type_invariant]
    closed spec fn names_unique(&self) -> bool {
        forall|i: int, j: int|
            0 <= i < j < self.factories@.len() ==> (#[trigger] self.factories@[i]).0@
                != (#[trigger] self.factories@[j]).0@
    }

    /// The registered factories by name.
    pub closed spec fn factories_map(&self) -> Map<Seq<char>, F> {
        Map::new(
            |n: Seq<char>| exists|i: int| 0 <= i < self.factories@.len() && self.factories@[i].0@ == n,
            |n: Seq<char>|
                self.factories@[choose|i: int| 0 <= i < self.factories@.len() && self.factories@[i].0@ == n].1,
        )
    }

    /// A registry with nothing registered.
    pub fn empty() -> (r: Self)
        ensures
            r.factories_map() == Map::<Seq<char>, F>::empty(),
    {
        let r = ProviderRegistry { factories: Vec::new() };
        assert(r.factories_map() =~= Map::<Seq<char>, F>::empty());
        r
    }

    /// The position of `name`, if registered.
    fn position(&self, name: &str) -> (r: Option<usize>)
        ensures
            r matches Some(i) ==> i < self.factories@.len() && self.factories@[i as int].0@ == name@,
            r is None ==> forall|i: int| 0 <= i < self.factories@.len() ==> (#[trigger] self.factories@[i]).0@ != name@,
    {
        let n = self.factories.len();
        let mut i: usize = 0;
        while i < n
            invariant
                i <= n == self.factories@.len(),
                forall|k: int| 0 <= k < i ==> (#[trigger] self.factories@[k]).0@ != name@,
            decreases n - i,
        {
            if crate::text::str_eq(self.factories[i].0.as_str(), name) {
                return Some(i);
            }
            i = i + 1;
        }
        None
    }

    /// Registers `factory` under `name`, replacing what was registered there.
    pub fn register(&mut self, name: &str, factory: F)
        ensures
            final(self).factories_map() == old(self).factories_map().insert(name@, factory),
    {
        proof {
            use_type_invariant(&*self);
        }
        let ghost old_map = self.factories_map();
        let ghost old_f = self.factories@;
        match self.position(name) {
            Some(i) => {
                let key = String::from_str(name);
                let mut fs: Vec<(String, F)> = Vec::new();
                std::mem::swap(&mut fs, &mut self.factories);
                fs.set(i, (key, factory));
                proof {
                    assert forall|a: int, b: int| 0 <= a < b < fs@.len() implies (#[trigger] fs@[a]).0@ != (#[trigger] fs@[b]).0@ by {
                        if a != i && b != i {
                            assert(old_f[a] == fs@[a]);
                            assert(old_f[b] == fs@[b]);
                        } else if a == i {
                            assert(old_f[b] == fs@[b]);
                            assert(old_f[a].0@ == name@);
                        } else {
                            assert(old_f[a] == fs@[a]);
                            assert(old_f[b].0@ == name@);
                        }
                    }
                }
                self.factories = fs;
                proof {
                    let m = self.factories_map();
                    let f = self.factories@;
                    assert forall|k: int| 0 <= k < f.len() && k != i implies (#[trigger] f[k]) == old_f[k] by {}
                    assert forall|n: Seq<char>| #[trigger] m.dom().contains(n) <==> old_map.insert(name@, factory).dom().contains(n) by {
                        if n == name@ {
                            assert(f[i as int].0@ == n);
                        } else if old_map.dom().contains(n) {
                            let k = choose|k: int| 0 <= k < old_f.len() && old_f[k].0@ == n;
                            assert(f[k] == old_f[k]);
                        } else if m.dom().contains(n) {
                            let k = choose|k: int| 0 <= k < f.len() && f[k].0@ == n;
                            assert(old_f[k].0@ == n);
                        }
                    }
                    assert forall|n: Seq<char>| #[trigger] m.dom().contains(n) implies m[n] == old_map.insert(name@, factory)[n] by {
                        let k = choose|k: int| 0 <= k < f.len() && f[k].0@ == n;
                        if n == name@ {
                            assert(k == i);
                        } else {
                            let ko = choose|k: int| 0 <= k < old_f.len() && old_f[k].0@ == n;
                            assert(f[ko] == old_f[ko]);
                            assert(k == ko);
                        }
                    }
                    assert(m =~= old_map.insert(name@, factory));
                }
            },
            None => {
                let key = String::from_str(name);
                let mut fs: Vec<(String, F)> = Vec::new();
                std::mem::swap(&mut fs, &mut self.factories);
                fs.push((key, factory));
                proof {
                    assert forall|a: int, b: int| 0 <= a < b < fs@.len() implies (#[trigger] fs@[a]).0@ != (#[trigger] fs@[b]).0@ by {
                        if b == fs@.len() - 1 {
                            assert(old_f[a] == fs@[a]);
                        } else {
                            assert(old_f[a] == fs@[a]);
                            assert(old_f[b] == fs@[b]);
                        }
                    }
                }
                self.factories = fs;
                proof {
                    let m = self.factories_map();
                    let f = self.factories@;
                    let last = f.len() - 1;
                    assert forall|k: int| 0 <= k < old_f.len() implies (#[trigger] f[k]) == old_f[k] by {}
                    assert forall|n: Seq<char>| #[trigger] m.dom().contains(n) <==> old_map.insert(name@, factory).dom().contains(n) by {
                        if n == name@ {
                            assert(f[last].0@ == n);
                        } else if old_map.dom().contains(n) {
                            let k = choose|k: int| 0 <= k < old_f.len() && old_f[k].0@ == n;
                            assert(f[k] == old_f[k]);
                        } else if m.dom().contains(n) {
                            let k = choose|k: int| 0 <= k < f.len() && f[k].0@ == n;
                            assert(old_f[k].0@ == n);
                        }
                    }
                    assert forall|n: Seq<char>| #[trigger] m.dom().contains(n) implies m[n] == old_map.insert(name@, factory)[n] by {
                        let k = choose|k: int| 0 <= k < f.len() && f[k].0@ == n;
                        if n == name@ {
                            assert(k == last);
                        } else {
                            let ko = choose|k: int| 0 <= k < old_f.len() && old_f[k].0@ == n;
                            assert(f[ko] == old_f[ko]);
                            assert(k == ko);
                        }
                    }
                    assert(m =~= old_map.insert(name@, factory));
                }
            },
        }
    }

    /// Whether a factory is registered under `name`.
    pub fn contains(&self, name: &str) -> (r: bool)
        ensures
            r == self.factories_map().dom().contains(name@),
    {
        match self.position(name) {
            Some(i) => {
                assert(self.factories_map().dom().contains(name@));
                true
            },
            None => false,
        }
    }

    /// The factory registered under `name`, or the unknown-provider error.
    pub fn lookup(&self, name: &str) -> (r: Result<&F, AgcError>)
        ensures
            match r {
                Ok(f) => self.factories_map().dom().contains(name@) && *f == self.factories_map()[name@],
                Err(e) => !self.factories_map().dom().contains(name@) && (e matches AgcError::Other(m)
                    && m@ == unknown_provider_message(name@)),
            },
    {
        proof {
            use_type_invariant(self);
        }
        match self.position(name) {
            Some(i) => {
                let ghost k = choose|k: int| 0 <= k < self.factories@.len() && self.factories@[k].0@ == name@;
                assert(k == i as int) by {
                    if k != i as int {
                        if k < i {
                            assert(self.factories@[k].0@ != self.factories@[i as int].0@);
                        } else {
                            assert(self.factories@[i as int].0@ != self.factories@[k].0@);
                        }
                    }
                }
                Ok(&self.factories[i].1)
            },
            None => {
                let mut m = String::from_str("未知的 AI provider: ");
                m.append(name);
                Err(AgcError::Other(m))
            },
        }
    }

    /// Calls the factory registered under `name` with `config`; the
    /// unknown-provider error when there is none.
    pub fn create<P>(&self, name: &str, config: AiConfig) -> (r: Result<P, AgcError>) where
        F: Fn(AiConfig) -> Result<P, AgcError>,
        requires
            self.factories_map().dom().contains(name@) ==> call_requires(
                self.factories_map()[name@],
                (config,),
            ),
        ensures
            !self.factories_map().dom().contains(name@) ==> (r matches Err(AgcError::Other(m))
                && m@ == unknown_provider_message(name@)),
            self.factories_map().dom().contains(name@) ==> call_ensures(
                self.factories_map()[name@],
                (config,),
                r,
            ),
    {
        let f = self.lookup(name)?;
        f(config)
    }
}

/// Law: after `register(name, f)` (taking `before` to `after`), `create` with
/// `name` finds `f` (so it calls `f` with the configuration, never failing as
/// unknown), and every other name finds what it found before.
pub proof fn law_register_then_create<F>(
    before: ProviderRegistry<F>,
    after: ProviderRegistry<F>,
    name: Seq<char>,
    f: F,
)
    requires
        after.factories_map() == before.factories_map().insert(name, f),
    ensures
        after.factories_map().dom().contains(name),
        after.factories_map()[name] == f,
        forall|n: Seq<char>|
            n != name ==> (#[trigger] after.factories_map().dom().contains(n)
                == before.factories_map().dom().contains(n) && (before.factories_map().dom().contains(
                n,
            ) ==> after.factories_map()[n] == before.factories_map()[n])),
{
}

impl<F> ProviderRegistry<F> {
    /// A registry with the `openai` factory registered.
    pub fn new(openai: F) -> (r: Self)
        ensures
            r.factories_map() == Map::<Seq<char>, F>::empty().insert("openai"@, openai),
    {
        let mut r = Self::empty();
        r.register("openai", openai);
        r
    }
}

} // verus!
