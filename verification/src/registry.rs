//! The template registry: an in-memory mapping from lowercase template
//! names to provider template identifiers, reloadable from a JSON
//! object of string-to-string pairs. A reload that fails to parse
//! leaves the previous mapping untouched.

use vstd::prelude::*;

use crate::text::{lemma_lower_idempotent, lower, str_eq, to_lowercase};

verus! {

/// The string-to-string pairs encoded by a JSON object, ordered by key,
/// or nothing when the text is not such an object.
pub uninterp spec fn json_string_map_of(s: Seq<char>) -> Option<Seq<(Seq<char>, Seq<char>)>>;

/// Relies on `serde_json::from_str::<BTreeMap<String, String>>`: parses
/// a JSON object of string-to-string pairs or fails, depending on the
/// input text alone; the pairs come out ordered by key.
#[verifier::external_body]
fn parse_string_map(s: &str) -> (r: Option<Vec<(String, String)>>)
    ensures
        r.deep_view() == json_string_map_of(s@),
{
    match serde_json::from_str::<std::collections::BTreeMap<String, String>>(s) {
        Ok(m) => Some(m.into_iter().collect()),
        Err(_) => None,
    }
}

/// A mapping from lowercase template names to provider template ids.
pub struct TemplateRegistry {
    entries: Vec<(String, String)>,
}

/// `es` with `v` stored under the key `k`: the entry holding `k` is
/// replaced, or a new entry is appended when `k` is absent.
pub open spec fn spec_insert(
    es: Seq<(Seq<char>, Seq<char>)>,
    k: Seq<char>,
    v: Seq<char>,
) -> Seq<(Seq<char>, Seq<char>)> {
    if exists|i: int| 0 <= i < es.len() && (#[trigger] es[i]).0 == k {
        let i = choose|i: int| 0 <= i < es.len() && (#[trigger] es[i]).0 == k;
        es.update(i, (k, v))
    } else {
        es.push((k, v))
    }
}

/// The entries that loading `pairs` into an empty registry yields: each
/// pair is inserted in turn under its lowercased key, later pairs
/// overriding earlier ones with the same key.
pub open spec fn spec_load(pairs: Seq<(Seq<char>, Seq<char>)>) -> Seq<(Seq<char>, Seq<char>)>
    decreases pairs.len(),
{
    if pairs.len() == 0 {
        Seq::empty()
    } else {
        spec_insert(spec_load(pairs.drop_last()), lower(pairs.last().0), pairs.last().1)
    }
}

impl TemplateRegistry {
    /// The stored entries as (name, id) character sequences, in order.
    pub closed spec fn entries_view(self) -> Seq<(Seq<char>, Seq<char>)> {
        self.entries.deep_view()
    }

    /// The stored names, in order.
    pub open spec fn names_view(self) -> Seq<Seq<char>> {
        self.entries_view().map_values(|e: (Seq<char>, Seq<char>)| e.0)
    }

    /// Well-formed: every stored name is lowercase already, and no name
    /// is stored twice.
    pub open spec fn wf(self) -> bool {
        &&& forall|i: int|
            0 <= i < self.entries_view().len() ==> lower(
                (#[trigger] self.entries_view()[i]).0,
            ) == self.entries_view()[i].0
        &&& forall|i: int, j: int|
            0 <= i < j < self.entries_view().len() ==> (#[trigger] self.entries_view()[i]).0 != (
            #[trigger] self.entries_view()[j]).0
    }

    /// Whether some entry is stored under exactly the key `k`.
    pub open spec fn has_name(self, k: Seq<char>) -> bool {
        exists|i: int| 0 <= i < self.entries_view().len() && (#[trigger] self.entries_view()[i]).0 == k
    }

    /// The id stored under exactly the key `k`, if any.
    pub open spec fn spec_get(self, k: Seq<char>) -> Option<Seq<char>> {
        if self.has_name(k) {
            let i = choose|i: int|
                0 <= i < self.entries_view().len() && (#[trigger] self.entries_view()[i]).0 == k;
            Some(self.entries_view()[i].1)
        } else {
            None
        }
    }

    /// The id a case-insensitive lookup of `name` yields, if any.
    pub open spec fn spec_lookup(self, name: Seq<char>) -> Option<Seq<char>> {
        self.spec_get(lower(name))
    }

    /// An empty registry.
    pub fn new() -> (r: Self)
        ensures
            r.wf(),
            r.entries_view() == Seq::<(Seq<char>, Seq<char>)>::empty(),
            r.names_view() == Seq::<Seq<char>>::empty(),
    {
        let r = TemplateRegistry { entries: Vec::new() };
        proof {
            assert(r.entries_view() =~~= Seq::<(Seq<char>, Seq<char>)>::empty());
            assert(r.names_view() =~~= Seq::<Seq<char>>::empty());
        }
        r
    }

    /// The position of the entry stored under exactly the key `k`.
    fn position_of(&self, k: &str) -> (r: Option<usize>)
        ensures
            match r {
                Some(i) => i < self.entries_view().len() && self.entries_view()[i as int].0 == k@,
                None => !self.has_name(k@),
            },
    {
        let n = self.entries.len();
        let mut i: usize = 0;
        while i < n
            invariant
                n == self.entries_view().len(),
                0 <= i <= n,
                forall|j: int| 0 <= j < i ==> (#[trigger] self.entries_view()[j]).0 != k@,
            decreases n - i,
        {
            if str_eq(self.entries[i].0.as_str(), k) {
                return Some(i);
            }
            i = i + 1;
        }
        None
    }

    /// Stores `id` under the lowercased form of `name`, replacing any
    /// entry already stored under that key: afterwards that key and no
    /// other resolves to `id`, and the listed names gain the key only
    /// when it was absent.
    pub fn insert(&mut self, name: &str, id: &str)
        requires
            old(self).wf(),
        ensures
            final(self).wf(),
            final(self).entries_view() == spec_insert(
                old(self).entries_view(),
                lower(name@),
                id@,
            ),
            forall|k: Seq<char>| #[trigger]
                final(self).spec_get(k) == (if k == lower(name@) {
                    Some(id@)
                } else {
                    old(self).spec_get(k)
                }),
            final(self).names_view() == (if old(self).has_name(lower(name@)) {
                old(self).names_view()
            } else {
                old(self).names_view().push(lower(name@))
            }),
    {
        let low = to_lowercase(name);
        proof {
            lemma_lower_idempotent(name@);
        }
        match self.position_of(low.as_str()) {
            Some(j) => {
                let ghost old_es = self.entries_view();
                self.entries.remove(j);
                self.entries.insert(j, (low, id.to_owned()));
                proof {
                    let i = choose|i: int| 0 <= i < old_es.len() && (#[trigger] old_es[i]).0 == lower(name@);
                    assert(i == j);
                    assert(self.entries_view() =~~= old_es.update(j as int, (lower(name@), id@)));
                    lemma_insert_updates_queries(*old(self), *self, lower(name@), id@, j as int);
                }
            },
            None => {
                let ghost old_es = self.entries_view();
                self.entries.push((low, id.to_owned()));
                proof {
                    assert(self.entries_view() =~~= old_es.push((lower(name@), id@)));
                    lemma_insert_appends_queries(*old(self), *self, lower(name@), id@);
                }
            },
        }
    }

    /// Looks `name` up case-insensitively and returns the stored id.
    pub fn lookup(&self, name: &str) -> (r: Option<String>)
        requires
            self.wf(),
        ensures
            match r {
                Some(id) => self.spec_lookup(name@) == Some(id@),
                None => self.spec_lookup(name@) is None,
            },
    {
        let low = to_lowercase(name);
        match self.position_of(low.as_str()) {
            Some(j) => {
                proof {
                    let i = choose|i: int|
                        0 <= i < self.entries_view().len() && (#[trigger] self.entries_view()[i]).0
                            == lower(name@);
                    assert(i == j);
                }
                Some(self.entries[j].1.clone())
            },
            None => None,
        }
    }

    /// All stored names, in storage order.
    pub fn list(&self) -> (r: Vec<String>)
        ensures
            r.deep_view() == self.names_view(),
    {
        let n = self.entries.len();
        let mut names: Vec<String> = Vec::new();
        let mut i: usize = 0;
        while i < n
            invariant
                n == self.entries_view().len(),
                0 <= i <= n,
                names.deep_view() =~~= self.names_view().take(i as int),
            decreases n - i,
        {
            let ghost old_names = names.deep_view();
            names.push(self.entries[i].0.clone());
            proof {
                assert(names.deep_view() =~~= old_names.push(self.entries_view()[i as int].0));
                assert(names.deep_view() =~~= self.names_view().take(i as int + 1));
            }
            i = i + 1;
        }
        proof {
            assert(self.names_view().take(n as int) =~~= self.names_view());
        }
        names
    }

    /// Parses `source` as a JSON object of string-to-string pairs and,
    /// on success, replaces the whole mapping with the parsed pairs; on
    /// failure the previous mapping is left untouched.
    pub fn reload(&mut self, source: &str) -> (ok: bool)
        requires
            old(self).wf(),
        ensures
            final(self).wf(),
            !ok ==> json_string_map_of(source@) is None && *final(self) == *old(self)
                && final(self).names_view() == old(self).names_view(),
            ok ==> (json_string_map_of(source@) matches Some(pairs) && final(self).entries_view()
                == spec_load(pairs)),
    {
        match parse_string_map(source) {
            Some(pairs) => {
                let ghost pairs_view = pairs.deep_view();
                let mut fresh = TemplateRegistry::new();
                let n = pairs.len();
                proof {
                    assert(fresh.entries_view() =~~= spec_load(pairs_view.take(0)));
                }
                let mut i: usize = 0;
                while i < n
                    invariant
                        n == pairs_view.len(),
                        n == pairs@.len(),
                        pairs_view == pairs.deep_view(),
                        0 <= i <= n,
                        fresh.wf(),
                        fresh.entries_view() == spec_load(pairs_view.take(i as int)),
                    decreases n - i,
                {
                    let pair = &pairs[i];
                    fresh.insert(pair.0.as_str(), pair.1.as_str());
                    proof {
                        assert(pairs_view.take(i as int + 1).drop_last() =~~= pairs_view.take(
                            i as int,
                        ));
                        assert(pairs_view.take(i as int + 1).last() == pairs_view[i as int]);
                        assert(fresh.entries_view() == spec_load(pairs_view.take(i as int + 1)));
                    }
                    i = i + 1;
                }
                proof {
                    assert(pairs_view.take(n as int) =~~= pairs_view);
                }
                *self = fresh;
                true
            },
            None => false,
        }
    }
}

/// Looking a name up is insensitive to its letter casing: any name
/// resolves to exactly the id its lowercase form resolves to.
pub proof fn lemma_lookup_case_insensitive(r: TemplateRegistry, name: Seq<char>)
    ensures
        r.spec_lookup(name) == r.spec_lookup(lower(name)),
{
    lemma_lower_idempotent(name);
}

/// Under `wf`, the id stored under `k` is determined by the one entry
/// whose name is `k`.
pub proof fn lemma_get_at_entry(r: TemplateRegistry, k: Seq<char>, i: int)
    requires
        r.wf(),
        0 <= i < r.entries_view().len(),
        r.entries_view()[i].0 == k,
    ensures
        r.spec_get(k) == Some(r.entries_view()[i].1),
{
    assert(r.has_name(k));
    let j = choose|j: int|
        0 <= j < r.entries_view().len() && (#[trigger] r.entries_view()[j]).0 == k;
    assert(j == i);
}

/// A key that no entry holds resolves to nothing.
pub proof fn lemma_get_absent(r: TemplateRegistry, k: Seq<char>)
    requires
        forall|i: int| 0 <= i < r.entries_view().len() ==> (#[trigger] r.entries_view()[i]).0 != k,
    ensures
        r.spec_get(k) is None,
{
}

/// Under `wf` the listed names mirror the entries one to one and are
/// pairwise distinct.
pub proof fn lemma_names_distinct(r: TemplateRegistry)
    requires
        r.wf(),
    ensures
        r.names_view().len() == r.entries_view().len(),
        forall|i: int|
            0 <= i < r.names_view().len() ==> #[trigger] r.names_view()[i]
                == r.entries_view()[i].0,
        forall|i: int, j: int|
            0 <= i < j < r.names_view().len() ==> r.names_view()[i] != r.names_view()[j],
{
}

/// Replacing the one entry that holds `k` changes what `k` resolves to,
/// nothing else, and keeps the listed names.
proof fn lemma_insert_updates_queries(
    r0: TemplateRegistry,
    r1: TemplateRegistry,
    k: Seq<char>,
    v: Seq<char>,
    j: int,
)
    requires
        r0.wf(),
        0 <= j < r0.entries_view().len(),
        r0.entries_view()[j].0 == k,
        r1.entries_view() == r0.entries_view().update(j, (k, v)),
    ensures
        r1.wf(),
        forall|k2: Seq<char>| #[trigger]
            r1.spec_get(k2) == (if k2 == k {
                Some(v)
            } else {
                r0.spec_get(k2)
            }),
        r1.names_view() == r0.names_view(),
{
    assert(forall|i: int|
        0 <= i < r1.entries_view().len() ==> (#[trigger] r1.entries_view()[i]).0
            == r0.entries_view()[i].0);
    assert(r1.names_view() =~~= r0.names_view());
    assert forall|k2: Seq<char>| #[trigger]
        r1.spec_get(k2) == (if k2 == k {
            Some(v)
        } else {
            r0.spec_get(k2)
        }) by {
        if k2 == k {
            lemma_get_at_entry(r1, k, j);
        } else if r0.has_name(k2) {
            let i = choose|i: int|
                0 <= i < r0.entries_view().len() && (#[trigger] r0.entries_view()[i]).0 == k2;
            lemma_get_at_entry(r0, k2, i);
            lemma_get_at_entry(r1, k2, i);
        } else {
            lemma_get_absent(r0, k2);
            lemma_get_absent(r1, k2);
        }
    }
}

/// Appending an entry under an absent key makes `k` resolve to `v`,
/// changes nothing else, and appends `k` to the listed names.
proof fn lemma_insert_appends_queries(
    r0: TemplateRegistry,
    r1: TemplateRegistry,
    k: Seq<char>,
    v: Seq<char>,
)
    requires
        r0.wf(),
        !r0.has_name(k),
        lower(k) == k,
        r1.entries_view() == r0.entries_view().push((k, v)),
    ensures
        r1.wf(),
        forall|k2: Seq<char>| #[trigger]
            r1.spec_get(k2) == (if k2 == k {
                Some(v)
            } else {
                r0.spec_get(k2)
            }),
        r1.names_view() == r0.names_view().push(k),
{
    let n = r0.entries_view().len() as int;
    assert(r1.names_view() =~~= r0.names_view().push(k));
    assert forall|k2: Seq<char>| #[trigger]
        r1.spec_get(k2) == (if k2 == k {
            Some(v)
        } else {
            r0.spec_get(k2)
        }) by {
        if k2 == k {
            lemma_get_at_entry(r1, k, n);
        } else if r0.has_name(k2) {
            let i = choose|i: int|
                0 <= i < r0.entries_view().len() && (#[trigger] r0.entries_view()[i]).0 == k2;
            lemma_get_at_entry(r0, k2, i);
            lemma_get_at_entry(r1, k2, i);
        } else {
            lemma_get_absent(r0, k2);
            lemma_get_absent(r1, k2);
        }
    }
}

} // verus!
