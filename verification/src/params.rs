use vstd::prelude::*;
use vstd::map::*;

use crate::param::{MntParam, MntParamV, param_eq};

verus! {

/// No two entries share a key.
pub open spec fn keys_unique(s: Seq<(MntParam, MntParam)>) -> bool {
    forall|i: int, j: int| 0 <= i < j < s.len() ==> s[i].0@ != s[j].0@
}

/// The mapping an entry sequence denotes; a later entry for a key wins.
pub open spec fn map_of(s: Seq<(MntParam, MntParam)>) -> Map<MntParamV, MntParamV>
    decreases s.len(),
{
    if s.len() == 0 {
        Map::empty()
    } else {
        map_of(s.drop_last()).insert(s.last().0@, s.last().1@)
    }
}

/// A set of mount parameters: an unordered mapping from parameter to
/// parameter, stored as an entry sequence whose keys stay unique.
#[derive(Debug, PartialEq, Eq, Clone)]
pub struct MntParams {
    pub entries: Vec<(MntParam, MntParam)>,
}

impl View for MntParams {
    type V = Map<MntParamV, MntParamV>;

    open spec fn view(&self) -> Map<MntParamV, MntParamV> {
        map_of(self.entries@)
    }
}

/// A key occurs in the denoted mapping exactly when some entry holds it.
pub proof fn lemma_map_of_contains(s: Seq<(MntParam, MntParam)>, k: MntParamV)
    ensures
        map_of(s).contains_key(k) <==> exists|i: int| 0 <= i < s.len() && s[i].0@ == k,
    decreases s.len(),
{
    if s.len() > 0 {
        let d = s.drop_last();
        lemma_map_of_contains(d, k);
        if s.last().0@ == k {
            assert(s[s.len() - 1].0@ == k);
        } else if map_of(s).contains_key(k) {
            let i = choose|i: int| 0 <= i < d.len() && d[i].0@ == k;
            assert(s[i].0@ == k);
        } else if exists|i: int| 0 <= i < s.len() && s[i].0@ == k {
            let i = choose|i: int| 0 <= i < s.len() && s[i].0@ == k;
            assert(d[i].0@ == k);
        }
    }
}

/// With unique keys, the entry holding a key determines its mapped value.
pub proof fn lemma_map_of_index(s: Seq<(MntParam, MntParam)>, i: int)
    requires
        keys_unique(s),
        0 <= i < s.len(),
    ensures
        map_of(s).contains_key(s[i].0@),
        map_of(s)[s[i].0@] == s[i].1@,
    decreases s.len(),
{
    let d = s.drop_last();
    if i == s.len() - 1 {
        assert(s.last() == s[i]);
    } else {
        assert(keys_unique(d)) by {
            assert(forall|a: int, b: int| 0 <= a < b < d.len() ==> d[a] == s[a] && d[b] == s[b]);
        }
        assert(d[i] == s[i]);
        lemma_map_of_index(d, i);
        assert(s[i].0@ != s.last().0@) by {
            assert(s.last() == s[s.len() - 1]);
        }
    }
}

/// Appending an entry denotes inserting its pair into the mapping.
proof fn lemma_map_of_push(s: Seq<(MntParam, MntParam)>, p: (MntParam, MntParam))
    ensures
        map_of(s.push(p)) == map_of(s).insert(p.0@, p.1@),
{
    let t = s.push(p);
    assert(t.drop_last() =~= s);
    assert(t.last() == p);
}

impl MntParams {
    /// The set's invariant: its keys are pairwise distinct.
    pub open spec fn wf(&self) -> bool {
        keys_unique(self.entries@)
    }

    /// An empty parameter set.
    pub fn new() -> (r: MntParams)
        ensures
            r@ == Map::<MntParamV, MntParamV>::empty(),
            r.wf(),
            r.entries@.len() == 0,
    {
        MntParams { entries: Vec::new() }
    }

    /// The number of entries.
    pub fn len(&self) -> (r: usize)
        ensures
            r == self.entries@.len(),
    {
        self.entries.len()
    }

    /// Maps `key` to `value`: an entry holding an equal key is replaced, as in
    /// any mapping, so the later insertion wins.
    #[verifier::loop_isolation(false)]
    pub fn insert(&mut self, key: MntParam, value: MntParam)
        requires
            old(self).wf(),
        ensures
            final(self).wf(),
            final(self)@ == old(self)@.insert(key@, value@),
            final(self).entries@.len() <= old(self).entries@.len() + 1,
    {
        let ghost s0 = self.entries@;
        let n = self.entries.len();
        let mut i: usize = 0;
        while i < n
            invariant
                i <= n,
                n == self.entries@.len(),
                self.entries@ == s0,
                forall|j: int| 0 <= j < i ==> s0[j].0@ != key@,
            decreases n - i,
        {
            if param_eq(&self.entries[i].0, &key) {
                self.entries.remove(i);
                self.entries.push((key, value));
                proof {
                    lemma_replace_entry(s0, i as int, (key, value));
                }
                return;
            }
            i += 1;
        }
        self.entries.push((key, value));
        proof {
            lemma_map_of_push(s0, (key, value));
            assert(keys_unique(s0.push((key, value)))) by {
                let t = s0.push((key, value));
                assert forall|a: int, b: int| 0 <= a < b < t.len() implies t[a].0@ != t[b].0@ by {
                    if b < t.len() - 1 {
                        assert(t[a] == s0[a] && t[b] == s0[b]);
                    } else {
                        assert(t[a] == s0[a] && t[b] == (key, value));
                    }
                }
            }
        }
    }

    /// Looks a key up; `None` exactly when no entry holds it.
    pub fn get(&self, key: &MntParam) -> (r: Option<&MntParam>)
        requires
            self.wf(),
        ensures
            match r {
                Some(v) => self@.contains_key(key@) && v@ == self@[key@],
                None => !self@.contains_key(key@),
            },
    {
        let n = self.entries.len();
        let mut i: usize = 0;
        while i < n
            invariant
                i <= n,
                n == self.entries@.len(),
                self.wf(),
                forall|j: int| 0 <= j < i ==> self.entries@[j].0@ != key@,
            decreases n - i,
        {
            if param_eq(&self.entries[i].0, key) {
                proof {
                    lemma_map_of_index(self.entries@, i as int);
                }
                return Some(&self.entries[i].1);
            }
            i += 1;
        }
        proof {
            lemma_map_of_contains(self.entries@, key@);
        }
        None
    }

    /// Decides the invariant at run time, for callers that assembled a set by
    /// hand: true exactly when the keys are pairwise distinct.
    #[verifier::loop_isolation(false)]
    pub fn check_wf(&self) -> (r: bool)
        ensures
            r == self.wf(),
    {
        let n = self.entries.len();
        let mut i: usize = 0;
        while i < n
            invariant
                i <= n,
                forall|a: int, b: int| 0 <= a < i && a < b < n ==> self.entries@[a].0@
                    != self.entries@[b].0@,
            decreases n - i,
        {
            let mut j: usize = i + 1;
            while j < n
                invariant
                    i < j <= n,
                    forall|b: int| i < b < j ==> self.entries@[i as int].0@ != self.entries@[b].0@,
                decreases n - j,
            {
                if param_eq(&self.entries[i].0, &self.entries[j].0) {
                    return false;
                }
                j += 1;
            }
            i += 1;
        }
        true
    }
}

/// Encoding into the kernel's flat descriptor order: two buffers per entry
/// of the model, the key's bytes then its value's bytes.
pub trait AsIovec {
    /// The entry sequence the encoder walks, as parameter models.
    spec fn iovec_model(&self) -> Seq<(MntParamV, MntParamV)>;

    /// Encodes the value into descriptor buffers: borrowed views into its
    /// own storage, not copies.
    fn as_iovec(&self) -> (r: Vec<&Vec<u8>>)
        ensures
            r@.len() == 2 * self.iovec_model().len(),
            forall|i: int| 0 <= i < self.iovec_model().len() ==> {
                &&& r@[2 * i]@ == (#[trigger] self.iovec_model()[i]).0.bytes()
                &&& r@[2 * i + 1]@ == self.iovec_model()[i].1.bytes()
            },
    ;
}

impl AsIovec for MntParams {
    /// The models of the set's entries, in storage order.
    open spec fn iovec_model(&self) -> Seq<(MntParamV, MntParamV)> {
        self.entries@.map(|i: int, p: (MntParam, MntParam)| (p.0@, p.1@))
    }

    fn as_iovec(&self) -> (r: Vec<&Vec<u8>>) {
        let mut out: Vec<&Vec<u8>> = Vec::new();
        let n = self.entries.len();
        let mut i: usize = 0;
        while i < n
            invariant
                i <= n,
                n == self.entries@.len(),
                out@.len() == 2 * i,
                forall|j: int| 0 <= j < i ==> {
                    &&& out@[2 * j]@ == (#[trigger] self.entries@[j]).0@.bytes()
                    &&& out@[2 * j + 1]@ == self.entries@[j].1@.bytes()
                },
            decreases n - i,
        {
            let pair = &self.entries[i];
            out.push(pair.0.as_iov());
            out.push(pair.1.as_iov());
            i += 1;
        }
        proof {
            assert forall|j: int| 0 <= j < self.iovec_model().len() implies {
                &&& out@[2 * j]@ == (#[trigger] self.iovec_model()[j]).0.bytes()
                &&& out@[2 * j + 1]@ == self.iovec_model()[j].1.bytes()
            } by {
                assert(self.iovec_model()[j] == (self.entries@[j].0@, self.entries@[j].1@));
            }
        }
        out
    }
}

/// Replacing the one entry that holds a key, by removing it and appending the
/// new pair, denotes a plain insert into the mapping.
proof fn lemma_replace_entry(s0: Seq<(MntParam, MntParam)>, i: int, p: (MntParam, MntParam))
    requires
        keys_unique(s0),
        0 <= i < s0.len(),
        p.0@ == s0[i].0@,
    ensures
        map_of(s0.remove(i).push(p)) == map_of(s0).insert(p.0@, p.1@),
        keys_unique(s0.remove(i).push(p)),
        s0.remove(i).push(p).len() == s0.len(),
{
    let k = s0[i].0@;
    let d = s0.remove(i);
    s0.remove_ensures(i);
    assert(keys_unique(d)) by {
        assert forall|a: int, b: int| 0 <= a < b < d.len() implies d[a].0@ != d[b].0@ by {
            let a0 = if a < i { a } else { a + 1 };
            let b0 = if b < i { b } else { b + 1 };
            assert(d[a] == s0[a0] && d[b] == s0[b0]);
        }
    }
    let t = d.push(p);
    lemma_map_of_push(d, p);
    assert(keys_unique(t)) by {
        assert forall|a: int, b: int| 0 <= a < b < t.len() implies t[a].0@ != t[b].0@ by {
            if b < t.len() - 1 {
                assert(t[a] == d[a] && t[b] == d[b]);
            } else {
                assert(t[b] == p);
                let a0 = if a < i { a } else { a + 1 };
                assert(t[a] == d[a] && d[a] == s0[a0]);
                assert(s0[a0].0@ != s0[i].0@);
            }
        }
    }
    let lhs = map_of(d).insert(p.0@, p.1@);
    let rhs = map_of(s0).insert(p.0@, p.1@);
    assert forall|k2: MntParamV| #[trigger] lhs.dom().contains(k2) <==> rhs.dom().contains(
        k2,
    ) by {
        lemma_map_of_contains(d, k2);
        lemma_map_of_contains(s0, k2);
        if k2 != p.0@ {
            if map_of(d).contains_key(k2) {
                let a = choose|a: int| 0 <= a < d.len() && d[a].0@ == k2;
                let a0 = if a < i { a } else { a + 1 };
                assert(d[a] == s0[a0]);
            }
            if map_of(s0).contains_key(k2) {
                let a0 = choose|a0: int| 0 <= a0 < s0.len() && s0[a0].0@ == k2;
                assert(a0 != i);
                let a = if a0 < i { a0 } else { a0 - 1 };
                assert(d[a] == s0[a0]);
            }
        }
    }
    assert forall|k2: MntParamV|
        #[trigger] lhs.dom().contains(k2) && rhs.dom().contains(k2) implies lhs[k2]
        == rhs[k2] by {
        if k2 != p.0@ {
            lemma_map_of_contains(d, k2);
            let a = choose|a: int| 0 <= a < d.len() && d[a].0@ == k2;
            let a0 = if a < i { a } else { a + 1 };
            assert(d[a] == s0[a0]);
            lemma_map_of_index(d, a);
            lemma_map_of_index(s0, a0);
        }
    }
    assert_maps_equal!(lhs, rhs);
}

} // verus!
