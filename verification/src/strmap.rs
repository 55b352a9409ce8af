//! A string-to-string mapping, and the precedence-ordered overlay of
//! two such mappings, both modelled as mathematical maps.

use vstd::prelude::*;

verus! {

/// The mathematical map described by a sequence of key/value pairs,
/// a later pair overriding an earlier one with the same key.
pub open spec fn pairs_map(s: Seq<(String, String)>) -> Map<Seq<char>, Seq<char>>
    decreases s.len(),
{
    if s.len() == 0 {
        Map::empty()
    } else {
        pairs_map(s.drop_last()).insert(s.last().0@, s.last().1@)
    }
}

/// A mapping from strings to strings, kept as a sequence of pairs in
/// insertion order; a later insertion of a key overrides an earlier one.
pub struct StrMap {
    /// The key/value pairs, in insertion order.
    pub pairs: Vec<(String, String)>,
}

impl View for StrMap {
    type V = Map<Seq<char>, Seq<char>>;

    open spec fn view(&self) -> Map<Seq<char>, Seq<char>> {
        pairs_map(self.pairs@)
    }
}

impl StrMap {
    /// The empty mapping.
    pub fn new() -> (r: StrMap)
        ensures
            r@ == Map::<Seq<char>, Seq<char>>::empty(),
    {
        StrMap { pairs: Vec::new() }
    }

    /// Bind `key` to `value`, overriding any earlier binding of `key`.
    pub fn insert(&mut self, key: String, value: String)
        ensures
            final(self)@ == old(self)@.insert(key@, value@),
    {
        self.pairs.push((key, value));
        proof {
            assert(self.pairs@.drop_last() =~= old(self).pairs@);
        }
    }

    /// Look the key up: the value of its latest binding, or `None`
    /// where it was never bound.
    pub fn get(&self, key: &String) -> (r: Option<&String>)
        ensures
            match r {
                Option::Some(v) => self@.contains_key(key@) && v@ == self@[key@],
                Option::None => !self@.contains_key(key@),
            },
    {
        let mut i: usize = self.pairs.len();
        while i > 0
            invariant
                i <= self.pairs.len(),
                forall|j: int| i <= j < self.pairs@.len() ==> (#[trigger] self.pairs@[j]).0@ != key@,
            decreases i,
        {
            i = i - 1;
            if self.pairs[i].0 == *key {
                proof {
                    lemma_pairs_map_get(self.pairs@, key@, i as int);
                }
                return Some(&self.pairs[i].1);
            }
        }
        proof {
            lemma_pairs_map_absent(self.pairs@, key@);
        }
        None
    }
}

/// Where index `i` holds the latest binding of `key`, the map described
/// by the pairs sends `key` to that binding's value.
proof fn lemma_pairs_map_get(s: Seq<(String, String)>, key: Seq<char>, i: int)
    requires
        0 <= i < s.len(),
        s[i].0@ == key,
        forall|j: int| i < j < s.len() ==> (#[trigger] s[j]).0@ != key,
    ensures
        pairs_map(s).contains_key(key),
        pairs_map(s)[key] == s[i].1@,
    decreases s.len(),
{
    if i == s.len() - 1 {
    } else {
        assert(s.drop_last()[i] == s[i]);
        lemma_pairs_map_get(s.drop_last(), key, i);
    }
}

/// Where no pair binds `key`, the map described by the pairs has no
/// entry for it.
proof fn lemma_pairs_map_absent(s: Seq<(String, String)>, key: Seq<char>)
    requires
        forall|j: int| 0 <= j < s.len() ==> (#[trigger] s[j]).0@ != key,
    ensures
        !pairs_map(s).contains_key(key),
    decreases s.len(),
{
    if s.len() > 0 {
        assert(forall|j: int|
            0 <= j < s.drop_last().len() ==> (#[trigger] s.drop_last()[j]).0@ != key);
        lemma_pairs_map_absent(s.drop_last(), key);
    }
}

/// Appending pair sequences describes the overlay of their maps, the
/// later sequence winning on common keys.
pub proof fn lemma_pairs_map_append(a: Seq<(String, String)>, b: Seq<(String, String)>)
    ensures
        pairs_map(a + b) == pairs_map(a).union_prefer_right(pairs_map(b)),
    decreases b.len(),
{
    if b.len() == 0 {
        assert(a + b =~= a);
        assert(pairs_map(a).union_prefer_right(pairs_map(b)) =~= pairs_map(a));
    } else {
        lemma_pairs_map_append(a, b.drop_last());
        assert((a + b).drop_last() =~= a + b.drop_last());
        assert((a + b).last() == b.last());
        assert(pairs_map(a).union_prefer_right(pairs_map(b)) =~= pairs_map(
            a,
        ).union_prefer_right(pairs_map(b.drop_last())).insert(b.last().0@, b.last().1@));
    }
}

/// A single lookup surface over two mappings: the local mapping is
/// consulted first, the base mapping only where the local one has no
/// binding.
pub struct UnionMap {
    /// The local mapping, consulted first.
    pub local: StrMap,
    /// The base mapping, the fallback.
    pub base: StrMap,
}

/// The overlay of a local and a base mathematical map: every key of
/// either, the local value winning on common keys.
pub open spec fn overlay(
    local: Map<Seq<char>, Seq<char>>,
    base: Map<Seq<char>, Seq<char>>,
) -> Map<Seq<char>, Seq<char>> {
    base.union_prefer_right(local)
}

impl UnionMap {
    /// Wrap a local and a base mapping as one lookup surface.
    pub fn new(local: StrMap, base: StrMap) -> (r: UnionMap)
        ensures
            r.local == local,
            r.base == base,
            r@ == overlay(local@, base@),
    {
        UnionMap { local, base }
    }

    /// Look the key up: in the local mapping first, then in the base
    /// mapping.
    pub fn get_key(&self, key: &String) -> (r: Option<&String>)
        ensures
            match r {
                Option::Some(v) => self@.contains_key(key@) && v@ == self@[key@],
                Option::None => !self@.contains_key(key@),
            },
    {
        match self.local.get(key) {
            Some(v) => Some(v),
            None => self.base.get(key),
        }
    }

    /// The overlay as a single mapping, the local mapping winning.
    pub fn merged(&self) -> (r: StrMap)
        ensures
            r@ == self@,
    {
        overlay_map(&self.local, &self.base)
    }
}

/// The overlay of two mappings as a single mapping: every binding of
/// the base mapping, then every binding of the local mapping, so the
/// local mapping wins on common keys.
pub fn overlay_map(local: &StrMap, base: &StrMap) -> (r: StrMap)
    ensures
        r@ == overlay(local@, base@),
{
    let mut pairs: Vec<(String, String)> = Vec::new();
    let mut i: usize = 0;
    while i < base.pairs.len()
        invariant
            i <= base.pairs@.len(),
            pairs@ == base.pairs@.take(i as int),
        decreases base.pairs@.len() - i,
    {
        let (k, v) = (base.pairs[i].0.clone(), base.pairs[i].1.clone());
        pairs.push((k, v));
        proof {
            assert(pairs@ =~= base.pairs@.take(i as int + 1));
        }
        i = i + 1;
    }
    let mut j: usize = 0;
    while j < local.pairs.len()
        invariant
            j <= local.pairs@.len(),
            pairs@ == base.pairs@ + local.pairs@.take(j as int),
        decreases local.pairs@.len() - j,
    {
        let (k, v) = (local.pairs[j].0.clone(), local.pairs[j].1.clone());
        pairs.push((k, v));
        proof {
            assert(pairs@ =~= base.pairs@ + local.pairs@.take(j as int + 1));
        }
        j = j + 1;
    }
    proof {
        assert(base.pairs@.take(base.pairs@.len() as int) =~= base.pairs@);
        assert(local.pairs@.take(local.pairs@.len() as int) =~= local.pairs@);
        lemma_pairs_map_append(base.pairs@, local.pairs@);
    }
    StrMap { pairs }
}

impl View for UnionMap {
    type V = Map<Seq<char>, Seq<char>>;

    open spec fn view(&self) -> Map<Seq<char>, Seq<char>> {
        overlay(self.local@, self.base@)
    }
}

/// Overlay precedence: where the local mapping binds a key, the
/// overlay takes the local value, whatever the base mapping says.
pub proof fn lemma_overlay_local_wins(
    local: Map<Seq<char>, Seq<char>>,
    base: Map<Seq<char>, Seq<char>>,
    k: Seq<char>,
)
    requires
        local.contains_key(k),
    ensures
        overlay(local, base).contains_key(k),
        overlay(local, base)[k] == local[k],
{
}

/// Overlay fallback: where the local mapping does not bind a key, the
/// overlay agrees with the base mapping on it.
pub proof fn lemma_overlay_base_fallback(
    local: Map<Seq<char>, Seq<char>>,
    base: Map<Seq<char>, Seq<char>>,
    k: Seq<char>,
)
    requires
        !local.contains_key(k),
    ensures
        overlay(local, base).contains_key(k) == base.contains_key(k),
        base.contains_key(k) ==> overlay(local, base)[k] == base[k],
{
}

} // verus!
