//! The secret store's contents: secret values kept under generated
//! references, so that bot records only ever hold the references.
use vstd::prelude::*;
use vstd::string::*;

use crate::text::{id_text, spec_id_text, str_eq};

verus! {

/// `uuid::Uuid::new_v4()`, as its 128 bits. The value is random: nothing is
/// promised about it.
#[verifier::external_body]
fn new_reference_id() -> u128 {
    uuid::Uuid::new_v4().as_u128()
}

/// The reference a secret is stored under, for a generated id.
pub open spec fn spec_secret_reference(id: u128) -> Seq<char> {
    "feishu_secret_"@ + spec_id_text(id)
}

/// Why a secret could not be resolved.
#[derive(Debug, Clone)]
pub struct MissingSecret {
    pub reference: String,
}

impl MissingSecret {
    /// `Feishu secret reference not found: {reference}`.
    pub fn message(&self) -> (r: String)
        ensures
            r@ == "Feishu secret reference not found: "@ + self.reference@,
    {
        let mut s = String::new();
        s.append("Feishu secret reference not found: ");
        s.append(self.reference.as_str());
        s
    }
}

/// The secret stored under a reference, if any.
pub open spec fn spec_lookup(secrets: Map<Seq<char>, Seq<char>>, reference: Seq<char>) -> Option<Seq<char>> {
    if secrets.contains_key(reference) {
        Some(secrets[reference])
    } else {
        None
    }
}

/// Secret values by reference. No reference occurs twice.
pub struct SecretVault {
    entries: Vec<(String, String)>,
}

pub open spec fn entries_map(entries: Seq<(String, String)>) -> Map<Seq<char>, Seq<char>>
    decreases entries.len(),
{
    if entries.len() == 0 {
        Map::empty()
    } else {
        let last = entries.last();
        entries_map(entries.drop_last()).insert(last.0@, last.1@)
    }
}

pub open spec fn unique_refs(entries: Seq<(String, String)>) -> bool {
    forall|i: int, j: int| 0 <= i < j < entries.len() ==> (#[trigger] entries[i]).0@ != (#[trigger] entries[j]).0@
}

proof fn lemma_entries_map_lookup(entries: Seq<(String, String)>, i: int)
    requires
        unique_refs(entries),
        0 <= i < entries.len(),
    ensures
        entries_map(entries).contains_key(entries[i].0@),
        entries_map(entries)[entries[i].0@] == entries[i].1@,
    decreases entries.len(),
{
    if i < entries.len() - 1 {
        let init = entries.drop_last();
        assert(unique_refs(init)) by {
            assert forall|a: int, b: int| 0 <= a < b < init.len() implies (#[trigger] init[a]).0@ != (#[trigger] init[b]).0@ by {
                assert(init[a] == entries[a] && init[b] == entries[b]);
            }
        }
        assert(init[i] == entries[i]);
        lemma_entries_map_lookup(init, i);
        assert(entries[i].0@ != entries.last().0@);
    }
}

proof fn lemma_entries_map_domain(entries: Seq<(String, String)>, k: Seq<char>)
    ensures
        entries_map(entries).contains_key(k) <==> exists|i: int| 0 <= i < entries.len() && (#[trigger] entries[i]).0@ == k,
    decreases entries.len(),
{
    if entries.len() > 0 {
        let init = entries.drop_last();
        lemma_entries_map_domain(init, k);
        if exists|i: int| 0 <= i < init.len() && (#[trigger] init[i]).0@ == k {
            let i = choose|i: int| 0 <= i < init.len() && (#[trigger] init[i]).0@ == k;
            assert(entries[i] == init[i]);
        }
        if exists|i: int| 0 <= i < entries.len() && (#[trigger] entries[i]).0@ == k {
            let i = choose|i: int| 0 <= i < entries.len() && (#[trigger] entries[i]).0@ == k;
            if i < init.len() {
                assert(init[i] == entries[i]);
            }
        }
    }
}

proof fn lemma_same_views_same_map(a: Seq<(String, String)>, b: Seq<(String, String)>)
    requires
        a.len() == b.len(),
        forall|j: int| 0 <= j < a.len() ==> (#[trigger] a[j]).0@ == b[j].0@ && a[j].1@ == b[j].1@,
    ensures
        entries_map(a) == entries_map(b),
        unique_refs(b) ==> unique_refs(a),
    decreases a.len(),
{
    if a.len() > 0 {
        lemma_same_views_same_map(a.drop_last(), b.drop_last());
        assert(a.last().0@ == b.last().0@);
    }
    if unique_refs(b) {
        assert forall|i: int, j: int| 0 <= i < j < a.len() implies (#[trigger] a[i]).0@ != (#[trigger] a[j]).0@ by {
            assert(a[i].0@ == b[i].0@ && a[j].0@ == b[j].0@);
        }
    }
}

impl SecretVault {
    /// The secrets by reference.
    pub closed spec fn view(&self) -> Map<Seq<char>, Seq<char>> {
        entries_map(self.entries@)
    }

    pub closed spec fn wf(&self) -> bool {
        unique_refs(self.entries@)
    }

    /// An empty store.
    pub fn new() -> (r: Self)
        ensures
            r.wf(),
            r.view() == Map::<Seq<char>, Seq<char>>::empty(),
    {
        SecretVault { entries: Vec::new() }
    }

    fn position(&self, reference: &str) -> (r: Option<usize>)
        requires
            self.wf(),
        ensures
            match r {
                Some(i) => i < self.entries@.len() && self.entries@[i as int].0@ == reference@,
                None => forall|i: int| 0 <= i < self.entries@.len() ==> (#[trigger] self.entries@[i]).0@ != reference@,
            },
    {
        let mut i: usize = 0;
        while i < self.entries.len()
            invariant
                i <= self.entries@.len(),
                forall|j: int| 0 <= j < i ==> (#[trigger] self.entries@[j]).0@ != reference@,
            decreases self.entries@.len() - i,
        {
            if str_eq(self.entries[i].0.as_str(), reference) {
                return Some(i);
            }
            i = i + 1;
        }
        None
    }

    /// Stores `value` under `reference`, replacing what was stored there.
    pub fn insert(&mut self, reference: String, value: String)
        requires
            old(self).wf(),
        ensures
            final(self).wf(),
            final(self).view() == old(self).view().insert(reference@, value@),
    {
        let ghost r = reference@;
        let ghost v = value@;
        let ghost before = self.entries@;
        match self.position(reference.as_str()) {
            Some(i) => {
                self.entries.remove(i);
                self.entries.push((reference, value));
                proof {
                    let after = self.entries@;
                    assert(unique_refs(after)) by {
                        assert forall|a: int, b: int| 0 <= a < b < after.len() implies (#[trigger] after[a]).0@ != (#[trigger] after[b]).0@ by {
                            if b == after.len() - 1 {
                                if a < i {
                                    assert(after[a] == before[a]);
                                } else {
                                    assert(after[a] == before[a + 1]);
                                }
                            } else {
                                let oa = if a < i { a } else { a + 1 };
                                let ob = if b < i { b } else { b + 1 };
                                assert(after[a] == before[oa]);
                                assert(after[b] == before[ob]);
                            }
                        }
                    }
                    assert forall|k: Seq<char>| #![auto] entries_map(after).contains_key(k) == old(self).view().insert(r, v).contains_key(k) by {
                        lemma_entries_map_domain(after, k);
                        lemma_entries_map_domain(before, k);
                        if exists|x: int| 0 <= x < before.len() && (#[trigger] before[x]).0@ == k {
                            let x = choose|x: int| 0 <= x < before.len() && (#[trigger] before[x]).0@ == k;
                            if x < i {
                                assert(after[x] == before[x]);
                            } else if x > i {
                                assert(after[x - 1] == before[x]);
                            }
                        }
                        if exists|x: int| 0 <= x < after.len() && (#[trigger] after[x]).0@ == k {
                            let x = choose|x: int| 0 <= x < after.len() && (#[trigger] after[x]).0@ == k;
                            if x < i {
                                assert(after[x] == before[x]);
                            } else if x < after.len() - 1 {
                                assert(after[x] == before[x + 1]);
                            }
                        }
                    }
                    assert forall|k: Seq<char>| #![auto] entries_map(after).contains_key(k) implies entries_map(after)[k] == old(self).view().insert(r, v)[k] by {
                        lemma_entries_map_domain(after, k);
                        let x = choose|x: int| 0 <= x < after.len() && (#[trigger] after[x]).0@ == k;
                        lemma_entries_map_lookup(after, x);
                        if k != r {
                            if x < i {
                                assert(after[x] == before[x]);
                                lemma_entries_map_lookup(before, x);
                            } else {
                                assert(after[x] == before[x + 1]);
                                lemma_entries_map_lookup(before, x + 1);
                            }
                        }
                    }
                    assert(entries_map(after) =~= old(self).view().insert(r, v));
                }
            },
            None => {
                self.entries.push((reference, value));
                proof {
                    let after = self.entries@;
                    assert(after.drop_last() =~= before);
                    assert(unique_refs(after)) by {
                        assert forall|a: int, b: int| 0 <= a < b < after.len() implies (#[trigger] after[a]).0@ != (#[trigger] after[b]).0@ by {
                            assert(after[a] == before[a]);
                            if b < after.len() - 1 {
                                assert(after[b] == before[b]);
                            }
                        }
                    }
                }
            },
        }
    }

    /// The secret stored under `reference`.
    pub fn get(&self, reference: &str) -> (r: Result<String, MissingSecret>)
        requires
            self.wf(),
        ensures
            match r {
                Ok(v) => spec_lookup(self.view(), reference@) == Some(v@),
                Err(e) => spec_lookup(self.view(), reference@) is None && e.reference@ == reference@,
            },
    {
        proof {
            lemma_entries_map_domain(self.entries@, reference@);
        }
        match self.position(reference) {
            Some(i) => {
                proof {
                    lemma_entries_map_lookup(self.entries@, i as int);
                }
                Ok(self.entries[i].1.clone())
            },
            None => Err(MissingSecret { reference: reference.to_string() }),
        }
    }

    /// Stores `value` under a newly generated `feishu_secret_<uuid>` reference
    /// and returns the reference.
    pub fn put(&mut self, value: String) -> (r: String)
        requires
            old(self).wf(),
        ensures
            final(self).wf(),
            final(self).view() == old(self).view().insert(r@, value@),
            exists|id: u128| r@ == spec_secret_reference(id),
    {
        let id = new_reference_id();
        let mut reference = String::new();
        reference.append("feishu_secret_");
        let id_part = id_text(id);
        reference.append(id_part.as_str());
        let out = reference.clone();
        self.insert(reference, value);
        assert(out@ == spec_secret_reference(id));
        out
    }

    /// A store holding the given (reference, value) pairs; a later pair
    /// replaces an earlier one with the same reference.
    pub fn from_entries(entries: &Vec<(String, String)>) -> (r: Self)
        ensures
            r.wf(),
            r.view() == entries_map(entries@),
    {
        let mut vault = SecretVault::new();
        let mut i: usize = 0;
        while i < entries.len()
            invariant
                vault.wf(),
                i <= entries@.len(),
                vault.view() == entries_map(entries@.take(i as int)),
            decreases entries@.len() - i,
        {
            let k = entries[i].0.clone();
            let v = entries[i].1.clone();
            proof {
                assert(entries@.take(i + 1).drop_last() =~= entries@.take(i as int));
            }
            vault.insert(k, v);
            i = i + 1;
        }
        assert(entries@.take(i as int) =~= entries@);
        vault
    }

    /// The stored (reference, value) pairs, each reference once.
    pub fn entries(&self) -> (r: Vec<(String, String)>)
        requires
            self.wf(),
        ensures
            unique_refs(r@),
            entries_map(r@) == self.view(),
    {
        let mut out: Vec<(String, String)> = Vec::new();
        let mut i: usize = 0;
        while i < self.entries.len()
            invariant
                i <= self.entries@.len(),
                out@.len() == i,
                forall|j: int| 0 <= j < i ==> (#[trigger] out@[j]).0@ == self.entries@[j].0@ && out@[j].1@ == self.entries@[j].1@,
            decreases self.entries@.len() - i,
        {
            out.push((self.entries[i].0.clone(), self.entries[i].1.clone()));
            i = i + 1;
        }
        proof {
            lemma_same_views_same_map(out@, self.entries@);
        }
        out
    }
}

/// What a store gives back for a reference is what was last put under it:
/// a secret stored by `put` is resolved, unchanged, by `get` of the
/// reference that `put` returned, and storing it changes what no other
/// reference resolves to.
pub proof fn law_secret_read_after_put(
    before: Map<Seq<char>, Seq<char>>,
    reference: Seq<char>,
    value: Seq<char>,
    other: Seq<char>,
)
    ensures
        spec_lookup(before.insert(reference, value), reference) == Some(value),
        other != reference ==> spec_lookup(before.insert(reference, value), other) == spec_lookup(before, other),
{
}

} // verus!
