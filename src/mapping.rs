use vstd::prelude::*;

verus! {

/// The view of a list of entries: each entry as a pair of character sequences.
pub open spec fn entries_view(s: Seq<(String, String)>) -> Seq<(Seq<char>, Seq<char>)> {
    s.map_values(|e: (String, String)| (e.0@, e.1@))
}

/// The mapping that a list of entries denotes: a later entry for a key wins.
pub open spec fn pairs_map(s: Seq<(Seq<char>, Seq<char>)>) -> Map<Seq<char>, Seq<char>>
    decreases s.len(),
{
    if s.len() == 0 {
        Map::empty()
    } else {
        pairs_map(s.drop_last()).insert(s.last().0, s.last().1)
    }
}

/// No key occurs twice in the list.
pub open spec fn keys_unique(s: Seq<(Seq<char>, Seq<char>)>) -> bool {
    forall|i: int, j: int| 0 <= i < j < s.len() ==> s[i].0 != s[j].0
}

/// What `get` reads for a provider: its credential, or the empty text.
pub open spec fn lookup(m: Map<Seq<char>, Seq<char>>, provider: Seq<char>) -> Seq<char> {
    if m.contains_key(provider) {
        m[provider]
    } else {
        Seq::empty()
    }
}

proof fn lemma_pairs_map_dom(s: Seq<(Seq<char>, Seq<char>)>, k: Seq<char>)
    ensures
        pairs_map(s).contains_key(k) <==> exists|i: int| 0 <= i < s.len() && s[i].0 == k,
    decreases s.len(),
{
    if s.len() > 0 {
        lemma_pairs_map_dom(s.drop_last(), k);
        if pairs_map(s.drop_last()).contains_key(k) {
            let i = choose|i: int| 0 <= i < s.drop_last().len() && s.drop_last()[i].0 == k;
            assert(s[i].0 == k);
        }
        if exists|i: int| 0 <= i < s.len() && s[i].0 == k {
            let i = choose|i: int| 0 <= i < s.len() && s[i].0 == k;
            if i < s.len() - 1 {
                assert(s.drop_last()[i].0 == k);
            }
        }
    }
}

proof fn lemma_pairs_map_at(s: Seq<(Seq<char>, Seq<char>)>, i: int)
    requires
        keys_unique(s),
        0 <= i < s.len(),
    ensures
        pairs_map(s).contains_key(s[i].0),
        pairs_map(s)[s[i].0] == s[i].1,
    decreases s.len(),
{
    if i < s.len() - 1 {
        lemma_pairs_map_at(s.drop_last(), i);
    }
}

proof fn lemma_pairs_map_update(s: Seq<(Seq<char>, Seq<char>)>, i: int, v: Seq<char>)
    requires
        keys_unique(s),
        0 <= i < s.len(),
    ensures
        pairs_map(s.update(i, (s[i].0, v))) == pairs_map(s).insert(s[i].0, v),
    decreases s.len(),
{
    let t = s.update(i, (s[i].0, v));
    if i == s.len() - 1 {
        assert(t.drop_last() == s.drop_last());
        assert(pairs_map(t) == pairs_map(s).insert(s[i].0, v));
    } else {
        lemma_pairs_map_update(s.drop_last(), i, v);
        assert(t.drop_last() == s.drop_last().update(i, (s[i].0, v)));
        assert(pairs_map(t) == pairs_map(s).insert(s[i].0, v));
    }
}

/// A mapping from provider names to credentials, with each provider at most once.
pub struct SecretMapping {
    entries: Vec<(String, String)>,
}

impl View for SecretMapping {
    type V = Map<Seq<char>, Seq<char>>;

    closed spec fn view(&self) -> Map<Seq<char>, Seq<char>> {
        pairs_map(entries_view(self.entries@))
    }
}

impl SecretMapping {
    /// Each provider stands in one entry only.
    pub closed spec fn wf(&self) -> bool {
        keys_unique(entries_view(self.entries@))
    }

    /// The empty mapping.
    pub fn new() -> (r: Self)
        ensures
            r.wf(),
            r@ == Map::<Seq<char>, Seq<char>>::empty(),
    {
        let r = SecretMapping { entries: Vec::new() };
        assert(entries_view(r.entries@) =~= Seq::empty());
        r
    }

    /// The entries, as pairs of provider and credential; each provider once.
    pub fn entries(&self) -> (r: &Vec<(String, String)>)
        requires
            self.wf(),
        ensures
            keys_unique(entries_view(r@)),
            pairs_map(entries_view(r@)) == self@,
    {
        &self.entries
    }

    /// The credential stored for `provider`, or the empty text when there is none.
    pub fn get(&self, provider: &String) -> (r: String)
        requires
            self.wf(),
        ensures
            r@ == lookup(self@, provider@),
    {
        let ghost s = entries_view(self.entries@);
        let mut i: usize = 0;
        while i < self.entries.len()
            invariant
                s == entries_view(self.entries@),
                keys_unique(s),
                0 <= i <= s.len(),
                forall|j: int| 0 <= j < i ==> s[j].0 != provider@,
            decreases self.entries.len() - i,
        {
            if self.entries[i].0 == *provider {
                proof {
                    lemma_pairs_map_at(s, i as int);
                }
                return self.entries[i].1.clone();
            }
            i = i + 1;
        }
        proof {
            lemma_pairs_map_dom(s, provider@);
        }
        String::new()
    }

    /// Inserts the entry for `provider`, or overwrites the one it has.
    pub fn set(&mut self, provider: String, value: String)
        requires
            old(self).wf(),
        ensures
            final(self).wf(),
            final(self)@ == old(self)@.insert(provider@, value@),
    {
        let ghost s = entries_view(self.entries@);
        let mut i: usize = 0;
        while i < self.entries.len()
            invariant
                s == entries_view(self.entries@),
                s == entries_view(old(self).entries@),
                keys_unique(s),
                0 <= i <= s.len(),
                forall|j: int| 0 <= j < i ==> s[j].0 != provider@,
            decreases self.entries.len() - i,
        {
            if self.entries[i].0 == provider {
                let k = self.entries[i].0.clone();
                let ghost v = value@;
                assert(s[i as int].0 == provider@);
                self.entries.set(i, (k, value));
                proof {
                    lemma_pairs_map_update(s, i as int, v);
                    assert(entries_view(self.entries@) =~= s.update(i as int, (s[i as int].0, v)));
                }
                return;
            }
            i = i + 1;
        }
        let ghost pv = (provider@, value@);
        self.entries.push((provider, value));
        proof {
            assert(entries_view(self.entries@) =~= s.push(pv));
            assert(entries_view(self.entries@).drop_last() =~= s);
        }
    }
}

/// A credential set for a provider is what `get` then reads for it, and the
/// other providers read what they read before.
pub proof fn lemma_set_then_get(
    m: Map<Seq<char>, Seq<char>>,
    provider: Seq<char>,
    value: Seq<char>,
    other: Seq<char>,
)
    requires
        other != provider,
    ensures
        lookup(m.insert(provider, value), provider) == value,
        lookup(m.insert(provider, value), other) == lookup(m, other),
{
}

/// Setting a provider twice leaves one entry for it, with the second value.
pub proof fn lemma_overwrite(
    m: Map<Seq<char>, Seq<char>>,
    provider: Seq<char>,
    first: Seq<char>,
    second: Seq<char>,
)
    ensures
        m.insert(provider, first).insert(provider, second) == m.insert(provider, second),
        lookup(m.insert(provider, first).insert(provider, second), provider) == second,
{
    assert(m.insert(provider, first).insert(provider, second) =~= m.insert(provider, second));
}

} // verus!
