//! The registry of endpoints that are notified of pending requests.

use crate::MAX_SUBSCRIBERS;
use vstd::prelude::*;
use vstd::string::*;

verus! {

/// One endpoint that receives notifications.
pub struct SubscriberEndpoint {
    /// The endpoint's URL, without a trailing `/`. It is the entry's key.
    pub url: String,
    /// Where the endpoint's certificate is found; empty when not given.
    pub cert_base_path: String,
}

/// Whether the entry at position `i` is the one with the given URL.
pub open spec fn holds_url(entries: Seq<SubscriberEndpoint>, i: int, url: Seq<char>) -> bool {
    0 <= i < entries.len() && entries[i].url@ == url
}

/// No two entries have the same URL.
pub open spec fn distinct_urls(entries: Seq<SubscriberEndpoint>) -> bool {
    forall|i: int, j: int| 0 <= i < j < entries.len() ==> entries[i].url@ != entries[j].url@
}

/// The entries as a map from URL to certificate base path.
pub open spec fn entries_map(entries: Seq<SubscriberEndpoint>) -> Map<Seq<char>, Seq<char>> {
    Map::new(
        |u: Seq<char>| exists|i: int| holds_url(entries, i, u),
        |u: Seq<char>| entries[choose|i: int| holds_url(entries, i, u)].cert_base_path@,
    )
}

proof fn lemma_entries_map_push(entries: Seq<SubscriberEndpoint>, e: SubscriberEndpoint)
    requires
        distinct_urls(entries),
        !entries_map(entries).contains_key(e.url@),
    ensures
        distinct_urls(entries.push(e)),
        entries_map(entries.push(e)) == entries_map(entries).insert(e.url@, e.cert_base_path@),
{
    let after = entries.push(e);
    assert forall|i: int, j: int| 0 <= i < j < after.len() implies after[i].url@ != after[j].url@ by {
        if j == entries.len() {
            assert(holds_url(entries, i, after[i].url@));
        }
    }
    assert forall|u: Seq<char>| #[trigger]
        entries_map(after).contains_key(u) <==> entries_map(entries).insert(
            e.url@,
            e.cert_base_path@,
        ).contains_key(u) by {
        if entries_map(after).contains_key(u) {
            let i = choose|i: int| holds_url(after, i, u);
            if i < entries.len() {
                assert(holds_url(entries, i, u));
            }
        }
        if entries_map(entries).contains_key(u) {
            let i = choose|i: int| holds_url(entries, i, u);
            assert(holds_url(after, i, u));
        }
        if u == e.url@ {
            assert(holds_url(after, entries.len() as int, u));
        }
    }
    assert forall|u: Seq<char>| #[trigger]
        entries_map(after).contains_key(u) implies entries_map(after)[u] == entries_map(
        entries,
    ).insert(e.url@, e.cert_base_path@)[u] by {
        let i = choose|i: int| holds_url(after, i, u);
        if u == e.url@ {
            assert(holds_url(after, entries.len() as int, u));
            assert(i == entries.len());
        } else {
            assert(holds_url(entries, i, u));
            let k = choose|k: int| holds_url(entries, k, u);
            assert(holds_url(after, k, u));
            assert(k == i);
        }
    }
    assert(entries_map(after) =~= entries_map(entries).insert(e.url@, e.cert_base_path@));
}

proof fn lemma_entries_map_remove(entries: Seq<SubscriberEndpoint>, k: int)
    requires
        distinct_urls(entries),
        0 <= k < entries.len(),
    ensures
        distinct_urls(entries.remove(k)),
        entries_map(entries.remove(k)) == entries_map(entries).remove(entries[k].url@),
        entries_map(entries).contains_key(entries[k].url@),
        entries_map(entries)[entries[k].url@] == entries[k].cert_base_path@,
{
    let after = entries.remove(k);
    let gone = entries[k].url@;
    assert(holds_url(entries, k, gone));
    let c = choose|i: int| holds_url(entries, i, gone);
    assert(c == k);
    assert forall|i: int| 0 <= i < after.len() implies after[i] == entries[if i < k {
        i
    } else {
        i + 1
    }] by {}
    assert(distinct_urls(after));
    assert forall|u: Seq<char>| #[trigger]
        entries_map(after).contains_key(u) <==> entries_map(entries).remove(gone).contains_key(
            u,
        ) by {
        if entries_map(after).contains_key(u) {
            let i = choose|i: int| holds_url(after, i, u);
            let i0 = if i < k {
                i
            } else {
                i + 1
            };
            assert(holds_url(entries, i0, u));
        }
        if entries_map(entries).remove(gone).contains_key(u) {
            let i = choose|i: int| holds_url(entries, i, u);
            assert(i != k);
            let i1 = if i < k {
                i
            } else {
                i - 1
            };
            assert(holds_url(after, i1, u));
        }
    }
    assert forall|u: Seq<char>| #[trigger]
        entries_map(after).contains_key(u) implies entries_map(after)[u] == entries_map(
        entries,
    ).remove(gone)[u] by {
        let i = choose|i: int| holds_url(after, i, u);
        let i0 = if i < k {
            i
        } else {
            i + 1
        };
        assert(holds_url(entries, i0, u));
        let j = choose|j: int| holds_url(entries, j, u);
        assert(j == i0);
    }
    assert(entries_map(after) =~= entries_map(entries).remove(gone));
}

/// The endpoints that are subscribed, each URL at most once, never more than
/// [`MAX_SUBSCRIBERS`] of them.
pub struct SubscriberRegistry {
    entries: Vec<SubscriberEndpoint>,
}

impl View for SubscriberRegistry {
    type V = Map<Seq<char>, Seq<char>>;

    /// The registry as a map from URL to certificate base path.
    closed spec fn view(&self) -> Map<Seq<char>, Seq<char>> {
        entries_map(self.entries@)
    }
}

impl SubscriberRegistry {
    /// The registry's invariant: the URLs are distinct and the bound holds.
    pub closed spec fn wf(&self) -> bool {
        &&& distinct_urls(self.entries@)
        &&& self.entries@.len() <= MAX_SUBSCRIBERS
        &&& self@.dom().finite()
        &&& self@.len() == self.entries@.len()
    }

    /// A well-formed registry holds at most [`MAX_SUBSCRIBERS`] endpoints.
    pub proof fn lemma_bounded(&self)
        requires
            self.wf(),
        ensures
            self@.dom().finite(),
            self@.len() <= MAX_SUBSCRIBERS,
    {
    }

    /// A registry without endpoints.
    pub fn new() -> (r: Self)
        ensures
            r.wf(),
            r@ == Map::<Seq<char>, Seq<char>>::empty(),
    {
        let r = SubscriberRegistry { entries: Vec::new() };
        assert(r@ =~= Map::<Seq<char>, Seq<char>>::empty());
        r
    }

    /// The number of endpoints.
    pub fn len(&self) -> (n: usize)
        requires
            self.wf(),
        ensures
            n == self@.len(),
            n <= MAX_SUBSCRIBERS,
    {
        self.entries.len()
    }

    fn position(&self, url: &str) -> (r: Option<usize>)
        requires
            self.wf(),
        ensures
            match r {
                Some(i) => holds_url(self.entries@, i as int, url@),
                None => !self@.contains_key(url@),
            },
    {
        let key = String::from_str(url);
        let mut i: usize = 0;
        while i < self.entries.len()
            invariant
                i <= self.entries@.len(),
                key@ == url@,
                forall|j: int| 0 <= j < i ==> !holds_url(self.entries@, j, url@),
            decreases self.entries@.len() - i,
        {
            if self.entries[i].url == key {
                return Some(i);
            }
            i += 1;
        }
        None
    }

    /// Whether the URL, exactly as given, is subscribed.
    pub fn contains(&self, url: &str) -> (b: bool)
        requires
            self.wf(),
        ensures
            b == self@.contains_key(url@),
    {
        match self.position(url) {
            Some(_) => true,
            None => false,
        }
    }

    /// The certificate base path of a subscribed URL.
    pub fn get(&self, url: &str) -> (r: Option<&String>)
        requires
            self.wf(),
        ensures
            match r {
                Some(path) => self@.contains_key(url@) && self@[url@] == path@,
                None => !self@.contains_key(url@),
            },
    {
        match self.position(url) {
            Some(i) => {
                proof {
                    lemma_entries_map_remove(self.entries@, i as int);
                }
                Some(&self.entries[i].cert_base_path)
            },
            None => None,
        }
    }

    /// Adds an endpoint under a URL that is not subscribed yet.
    pub(crate) fn insert(&mut self, url: String, cert_base_path: String)
        requires
            old(self).wf(),
            !old(self)@.contains_key(url@),
            old(self)@.len() < MAX_SUBSCRIBERS,
        ensures
            final(self).wf(),
            final(self)@ == old(self)@.insert(url@, cert_base_path@),
    {
        let e = SubscriberEndpoint { url, cert_base_path };
        proof {
            lemma_entries_map_push(self.entries@, e);
        }
        self.entries.push(e);
    }

    /// Removes the endpoint with the URL, exactly as given, and returns its
    /// certificate base path; without such an endpoint nothing changes.
    pub fn remove(&mut self, url: &str) -> (r: Option<String>)
        requires
            old(self).wf(),
        ensures
            final(self).wf(),
            final(self)@ == old(self)@.remove(url@),
            match r {
                Some(path) => old(self)@.contains_key(url@) && old(self)@[url@] == path@,
                None => !old(self)@.contains_key(url@),
            },
    {
        match self.position(url) {
            Some(i) => {
                proof {
                    lemma_entries_map_remove(self.entries@, i as int);
                }
                let e = self.entries.remove(i);
                Some(e.cert_base_path)
            },
            None => {
                assert(self@.remove(url@) =~= self@);
                None
            },
        }
    }
}

} // verus!
