//! The providers in use, each under its own name.
use vstd::prelude::*;
use crate::keyed::{KeyedList, distinct_keys, pairs_map};
use crate::text::{append_str, owned};

verus! {

/// The complaint about a second provider under a name already in use.
pub open spec fn duplicate_provider_text(name: Seq<char>) -> Seq<char> {
    "Provider '"@ + name + "' already registered"@
}

/// Providers by name; a name holds at most one provider.
pub struct ProviderRegistry<P> {
    providers: KeyedList<P>,
}

impl<P> ProviderRegistry<P> {
    /// The providers by name.
    pub closed spec fn providers(&self) -> Map<Seq<char>, P> {
        self.providers.map()
    }

    /// The names and providers, in the order they were added.
    pub closed spec fn entries(&self) -> Seq<(String, P)> {
        self.providers.pairs()
    }

    /// A registry without providers.
    pub fn new() -> (r: ProviderRegistry<P>)
        ensures
            r.providers() == Map::<Seq<char>, P>::empty(),
            r.entries().len() == 0,
    {
        ProviderRegistry { providers: KeyedList::new() }
    }

    /// Adds a provider under a name not yet in use; a name in use is refused
    /// and the registry stays as it was.
    pub fn add(&mut self, name: String, provider: P) -> (r: Result<(), String>)
        ensures
            old(self).providers().dom().contains(name@) ==> (r matches Err(m) && m@
                == duplicate_provider_text(name@)),
            old(self).providers().dom().contains(name@) ==> final(self).providers() == old(self).providers(),
            !old(self).providers().dom().contains(name@) ==> r is Ok && final(self).providers()
                == old(self).providers().insert(name@, provider),
    {
        if self.providers.get(name.as_str()).is_some() {
            let mut m = owned("Provider '");
            append_str(&mut m, name.as_str());
            append_str(&mut m, "' already registered");
            return Err(m);
        }
        self.providers.insert(name.as_str(), provider);
        Ok(())
    }

    /// The provider under `name`, if any.
    pub fn get(&self, name: &str) -> (r: Option<&P>)
        ensures
            match r {
                Some(p) => self.providers().dom().contains(name@) && *p == self.providers()[name@],
                None => !self.providers().dom().contains(name@),
            },
    {
        self.providers.get(name)
    }

    /// How many providers the registry holds; its names are distinct and its
    /// map is that of its entries.
    pub fn len(&self) -> (r: usize)
        ensures
            r == self.entries().len(),
            distinct_keys(self.entries()),
            self.providers() == pairs_map(self.entries()),
    {
        self.providers.len()
    }

    /// The providers, in the order they were added.
    pub fn list(&self) -> (r: Vec<&P>)
        ensures
            r@.len() == self.entries().len(),
            forall|i: int| 0 <= i < r@.len() ==> *r@[i] == self.entries()[i].1,
    {
        let n = self.providers.len();
        let mut out: Vec<&P> = Vec::new();
        let mut i: usize = 0;
        while i < n
            invariant
                i <= n,
                n == self.entries().len(),
                out@.len() == i,
                forall|k: int| 0 <= k < i ==> *out@[k] == self.entries()[k].1,
            decreases n - i,
        {
            let (_, p) = self.providers.at(i);
            out.push(p);
            i = i + 1;
        }
        out
    }

    /// The names, in the order they were added.
    pub fn names(&self) -> (r: Vec<String>)
        ensures
            r@.len() == self.entries().len(),
            forall|i: int| 0 <= i < r@.len() ==> r@[i]@ == self.entries()[i].0@,
    {
        let n = self.providers.len();
        let mut out: Vec<String> = Vec::new();
        let mut i: usize = 0;
        while i < n
            invariant
                i <= n,
                n == self.entries().len(),
                out@.len() == i,
                forall|k: int| 0 <= k < i ==> out@[k]@ == self.entries()[k].0@,
            decreases n - i,
        {
            let (name, _) = self.providers.at(i);
            out.push(name.clone());
            i = i + 1;
        }
        out
    }
}

} // verus!
