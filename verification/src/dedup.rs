//! The deduplicating frontier set: records every URL ever admitted to the
//! crawl, so that no URL is scheduled twice. Backed by a prefix-sharing
//! string set; semantically it is just a set of strings.

use vstd::prelude::*;

verus! {

#[verifier::external_type_specification]
#[verifier::external_body]
#[verifier::reject_recursive_types(T)]
pub struct ExGenericPatriciaSet<T>(patricia_tree::GenericPatriciaSet<T>);

/// The set of strings stored in a prefix-sharing set, as sequences of
/// characters (keys that are not valid UTF-8 are not represented; this
/// library only ever stores UTF-8 strings).
pub uninterp spec fn patricia_urls(s: patricia_tree::PatriciaSet) -> Set<Seq<char>>;

/// Relies on patricia_tree::GenericPatriciaSet::new: the returned set is empty.
#[verifier::external_body]
fn patricia_new() -> (s: patricia_tree::PatriciaSet)
    ensures
        patricia_urls(s) == Set::<Seq<char>>::empty(),
{
    patricia_tree::PatriciaSet::new()
}

/// Relies on patricia_tree::GenericPatriciaSet::contains: whether the value's
/// bytes are stored in the set.
#[verifier::external_body]
fn patricia_contains(s: &patricia_tree::PatriciaSet, value: &str) -> (r: bool)
    ensures
        r == patricia_urls(*s).contains(value@),
{
    s.contains(value)
}

/// Relies on patricia_tree::GenericPatriciaSet::insert: stores the value's
/// bytes and returns true exactly when they were absent before the call.
#[verifier::external_body]
fn patricia_insert(s: &mut patricia_tree::PatriciaSet, value: &str) -> (added: bool)
    ensures
        patricia_urls(*final(s)) == patricia_urls(*old(s)).insert(value@),
        added == !patricia_urls(*old(s)).contains(value@),
{
    s.insert(value)
}

/// Records every URL ever admitted; membership guards exactly-once
/// scheduling. URLs are only added, never removed.
pub struct DedupSet {
    inner: patricia_tree::PatriciaSet,
}

impl DedupSet {
    /// The set of URLs recorded so far.
    pub closed spec fn urls(&self) -> Set<Seq<char>> {
        patricia_urls(self.inner)
    }

    pub fn new() -> (s: Self)
        ensures
            s.urls() == Set::<Seq<char>>::empty(),
    {
        DedupSet { inner: patricia_new() }
    }

    pub fn contains(&self, url: &str) -> (r: bool)
        ensures
            r == self.urls().contains(url@),
    {
        patricia_contains(&self.inner, url)
    }

    /// The atomic check-and-insert every task uses: records the URL and
    /// reports whether it was newly admitted.
    pub fn insert_if_absent(&mut self, url: &str) -> (added: bool)
        ensures
            final(self).urls() == old(self).urls().insert(url@),
            added == !old(self).urls().contains(url@),
    {
        patricia_insert(&mut self.inner, url)
    }
}

} // verus!
