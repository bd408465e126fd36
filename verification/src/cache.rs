//! The identifier cache: a mapping from entry-point strings to stable output
//! identifiers, with get-or-create semantics. A fresh identifier is a random
//! 32-character alphanumeric string, generated once per new entry point and
//! thereafter stable for the lifetime of the cache.

use vstd::prelude::*;
use vstd::string::StringExecFns;

use rand::RngExt;

verus! {

/// The characters an identifier is drawn from: ASCII letters and digits.
pub open spec fn is_ident_char(c: char) -> bool {
    ('a' <= c && c <= 'z') || ('A' <= c && c <= 'Z') || ('0' <= c && c <= '9')
}

/// A 32-character alphanumeric identifier.
pub open spec fn is_identifier(s: Seq<char>) -> bool {
    s.len() == 32 && forall|i: int| 0 <= i < s.len() ==> is_ident_char(#[trigger] s[i])
}

/// The cache's mathematical model: the entry pairs in insertion order.
pub type CacheModel = Seq<(Seq<char>, Seq<char>)>;

/// The character sequences of a list of owned entry pairs.
pub open spec fn entry_views(v: Seq<(String, String)>) -> CacheModel {
    v.map_values(|p: (String, String)| (p.0@, p.1@))
}

/// Whether some entry has the given key.
pub open spec fn cache_contains(es: CacheModel, key: Seq<char>) -> bool {
    exists|i: int| 0 <= i < es.len() && (#[trigger] es[i]).0 == key
}

/// The identifier stored for a key: the first entry that carries it.
pub open spec fn cache_lookup(es: CacheModel, key: Seq<char>) -> Seq<char>
    decreases es.len(),
{
    if es.len() == 0 {
        Seq::empty()
    } else if es[0].0 == key {
        es[0].1
    } else {
        cache_lookup(es.drop_first(), key)
    }
}

/// Well-formedness: exactly one entry per distinct entry-point string.
pub open spec fn cache_wf(es: CacheModel) -> bool {
    forall|i: int, j: int| 0 <= i < j < es.len() ==> (#[trigger] es[i]).0 != (#[trigger] es[j]).0
}

/// What get-or-create does to the model, given the fresh identifier it would
/// assign to an unseen key: a seen key keeps the cache and its stored
/// identifier; an unseen key appends a new entry with the fresh identifier.
pub open spec fn spec_get_or_create(es: CacheModel, key: Seq<char>, fresh: Seq<char>) -> (
    CacheModel,
    Seq<char>,
    bool,
) {
    if cache_contains(es, key) {
        (es, cache_lookup(es, key), false)
    } else {
        (es.push((key, fresh)), fresh, true)
    }
}

/// The persisted mapping from entry point to output identifier.
pub struct BundleCache {
    entries: Vec<(String, String)>,
}

impl View for BundleCache {
    type V = CacheModel;

    closed spec fn view(&self) -> CacheModel {
        entry_views(self.entries@)
    }
}

/// Relies on rand's `Alphanumeric` distribution: every sampled byte is one of
/// the ASCII characters a-z, A-Z, 0-9, so 32 samples converted to characters
/// give a 32-character alphanumeric string.
#[verifier::external_body]
fn fresh_identifier() -> (r: String)
    ensures
        is_identifier(r@),
{
    rand::rng().sample_iter(rand::distr::Alphanumeric).take(32).map(char::from).collect()
}

impl BundleCache {
    /// The empty cache: no entry point has an identifier yet.
    pub fn empty() -> (r: Self)
        ensures
            r@ == Seq::<(Seq<char>, Seq<char>)>::empty(),
            cache_wf(r@),
    {
        let r = BundleCache { entries: Vec::new() };
        assert(r@ =~= Seq::<(Seq<char>, Seq<char>)>::empty());
        r
    }

    /// A cache over the given entries, refused when a key repeats.
    pub fn from_entries(entries: Vec<(String, String)>) -> (r: Option<Self>)
        ensures
            match r {
                Some(c) => c@ == entry_views(entries@) && cache_wf(c@),
                None => !cache_wf(entry_views(entries@)),
            },
    {
        let ghost es = entry_views(entries@);
        let mut i: usize = 0;
        while i < entries.len()
            invariant
                i <= entries.len(),
                es == entry_views(entries@),
                forall|p: int, q: int| 0 <= p < q < i ==> (#[trigger] es[p]).0 != (
                #[trigger] es[q]).0,
            decreases entries.len() - i,
        {
            let mut j: usize = 0;
            while j < i
                invariant
                    j <= i < entries.len(),
                    es == entry_views(entries@),
                    forall|q: int| 0 <= q < j ==> (#[trigger] es[q]).0 != es[i as int].0,
                decreases i - j,
            {
                if entries[j].0 == entries[i].0 {
                    proof {
                        assert(es[j as int].0 == entries@[j as int].0@);
                        assert(es[i as int].0 == entries@[i as int].0@);
                        assert(!cache_wf(es));
                    }
                    return None;
                }
                j += 1;
            }
            i += 1;
        }
        Some(BundleCache { entries })
    }

    /// The number of entries.
    pub fn len(&self) -> (r: usize)
        ensures
            r == self@.len(),
    {
        self.entries.len()
    }

    /// The entries in insertion order, as owned pairs.
    pub fn to_entries(&self) -> (r: Vec<(String, String)>)
        ensures
            entry_views(r@) == self@,
    {
        let mut out: Vec<(String, String)> = Vec::new();
        let mut i: usize = 0;
        while i < self.entries.len()
            invariant
                i <= self.entries.len(),
                out@.len() == i as int,
                forall|q: int| 0 <= q < i ==> ((#[trigger] out@[q]).0@, out@[q].1@) == self@[q],
            decreases self.entries.len() - i,
        {
            let key = self.entries[i].0.clone();
            let value = self.entries[i].1.clone();
            proof {
                assert(self@[i as int] == (self.entries@[i as int].0@, self.entries@[i as int].1@));
            }
            out.push((key, value));
            i += 1;
        }
        assert(entry_views(out@) =~= self@);
        out
    }

    /// The index of the entry holding the key, if any.
    fn find(&self, entry_point: &str) -> (r: Option<usize>)
        ensures
            match r {
                Some(i) => i < self@.len() && self@[i as int].0 == entry_point@,
                None => !cache_contains(self@, entry_point@),
            },
    {
        let key = String::from_str(entry_point);
        let mut i: usize = 0;
        while i < self.entries.len()
            invariant
                i <= self.entries.len(),
                key@ == entry_point@,
                forall|q: int| 0 <= q < i ==> (#[trigger] self@[q]).0 != entry_point@,
            decreases self.entries.len() - i,
        {
            if self.entries[i].0 == key {
                return Some(i);
            }
            i += 1;
        }
        None
    }

    /// Returns the identifier stored for the entry point, or generates a
    /// fresh 32-character alphanumeric one, inserts the mapping and returns
    /// it. The second component says whether the entry point was new.
    pub fn get_or_create(&mut self, entry_point: &str) -> (r: (String, bool))
        requires
            cache_wf(old(self)@),
        ensures
            ({
                let (es, id, is_new) = spec_get_or_create(old(self)@, entry_point@, r.0@);
                final(self)@ == es && r.0@ == id && r.1 == is_new
            }),
            !cache_contains(old(self)@, entry_point@) ==> is_identifier(r.0@),
            cache_wf(final(self)@),
    {
        match self.find(entry_point) {
            Some(i) => {
                proof {
                    lemma_lookup_at(self@, entry_point@, i as int);
                }
                let id = self.entries[i].1.clone();
                (id, false)
            },
            None => {
                let id = fresh_identifier();
                let ghost before = self@;
                self.entries.push((String::from_str(entry_point), id.clone()));
                assert(self@ =~= before.push((entry_point@, id@)));
                proof {
                    lemma_wf_push(before, entry_point@, id@);
                }
                (id, true)
            },
        }
    }
}

/// In a well-formed cache, the identifier looked up for a key is the one
/// stored at any entry that carries the key.
pub proof fn lemma_lookup_at(es: CacheModel, key: Seq<char>, i: int)
    requires
        cache_wf(es),
        0 <= i < es.len(),
        es[i].0 == key,
    ensures
        cache_contains(es, key),
        cache_lookup(es, key) == es[i].1,
    decreases es.len(),
{
    if i == 0 {
    } else {
        assert(es[0].0 != key);
        assert(es.drop_first()[i - 1] == es[i]);
        assert(cache_wf(es.drop_first())) by {
            assert(forall|p: int, q: int|
                0 <= p < q < es.drop_first().len() ==> (#[trigger] es.drop_first()[p]).0 != (
                #[trigger] es.drop_first()[q]).0) by {
                assert(forall|p: int|
                    0 <= p < es.drop_first().len() ==> #[trigger] es.drop_first()[p] == es[p + 1]);
            }
        }
        lemma_lookup_at(es.drop_first(), key, i - 1);
    }
}

/// Appending an entry under an unseen key keeps a cache well formed, and the
/// new key thereafter looks up the appended identifier.
pub proof fn lemma_wf_push(es: CacheModel, key: Seq<char>, id: Seq<char>)
    requires
        cache_wf(es),
        !cache_contains(es, key),
    ensures
        cache_wf(es.push((key, id))),
        cache_contains(es.push((key, id)), key),
        cache_lookup(es.push((key, id)), key) == id,
{
    let es2 = es.push((key, id));
    assert(es2[es.len() as int] == (key, id));
    assert(forall|p: int| 0 <= p < es.len() ==> #[trigger] es2[p] == es[p]);
    assert(forall|p: int| 0 <= p < es.len() ==> (#[trigger] es[p]).0 != key);
    lemma_lookup_at(es2, key, es.len() as int);
}

/// Idempotence of identifier assignment: a second get-or-create for the same
/// entry point returns the identifier the first one assigned and leaves the
/// cache unchanged.
pub proof fn lemma_get_or_create_idempotent(
    es: CacheModel,
    key: Seq<char>,
    fresh1: Seq<char>,
    fresh2: Seq<char>,
)
    requires
        cache_wf(es),
    ensures
        ({
            let (es1, id1, _) = spec_get_or_create(es, key, fresh1);
            let (es2, id2, is_new2) = spec_get_or_create(es1, key, fresh2);
            es2 == es1 && id2 == id1 && !is_new2
        }),
{
    if !cache_contains(es, key) {
        lemma_wf_push(es, key, fresh1);
    }
}

/// Freshness: a previously seen entry point never receives a new identifier,
/// and an unseen one receives exactly the freshly generated identifier.
pub proof fn lemma_identifier_freshness(es: CacheModel, key: Seq<char>, fresh: Seq<char>)
    requires
        cache_wf(es),
    ensures
        cache_contains(es, key) ==> spec_get_or_create(es, key, fresh) == (
            es,
            cache_lookup(es, key),
            false,
        ),
        !cache_contains(es, key) ==> spec_get_or_create(es, key, fresh) == (
            es.push((key, fresh)),
            fresh,
            true,
        ),
{
}

} // verus!
