use vstd::prelude::*;
use crate::scan::same_chars;
use crate::text::chars_of;

verus! {

/// The index of the first entry with key `k`, searching from `i`; -1 when there is none.
pub open spec fn find_key(s: Seq<(Seq<char>, Seq<char>)>, k: Seq<char>, i: int) -> int
    decreases s.len() - i,
{
    if i < 0 || i >= s.len() {
        -1
    } else if s[i].0 == k {
        i
    } else {
        find_key(s, k, i + 1)
    }
}

pub proof fn lemma_find_key(s: Seq<(Seq<char>, Seq<char>)>, k: Seq<char>, i: int)
    requires
        0 <= i,
    ensures
        -1 <= find_key(s, k, i) < s.len(),
        find_key(s, k, i) >= 0 ==> find_key(s, k, i) >= i && s[find_key(s, k, i)].0 == k,
        find_key(s, k, i) == -1 ==> forall|j: int| i <= j < s.len() ==> s[j].0 != k,
    decreases s.len() - i,
{
    if i < s.len() && s[i].0 != k {
        lemma_find_key(s, k, i + 1);
    }
}

/// The value held for key `k`.
pub open spec fn value_of(s: Seq<(Seq<char>, Seq<char>)>, k: Seq<char>) -> Option<Seq<char>> {
    if find_key(s, k, 0) >= 0 {
        Some(s[find_key(s, k, 0)].1)
    } else {
        None
    }
}

/// `s` with key `k` set to `v`: the entry of `k` takes the new value, or a new entry
/// comes at the end.
pub open spec fn with_entry(s: Seq<(Seq<char>, Seq<char>)>, k: Seq<char>, v: Seq<char>) -> Seq<(Seq<char>, Seq<char>)> {
    if find_key(s, k, 0) >= 0 {
        s.update(find_key(s, k, 0), (k, v))
    } else {
        s.push((k, v))
    }
}

/// Named string values, each key once, in the order the keys were first set.
pub struct ParamMap {
    pub entries: Vec<(String, String)>,
}

impl View for ParamMap {
    type V = Seq<(Seq<char>, Seq<char>)>;

    open spec fn view(&self) -> Seq<(Seq<char>, Seq<char>)> {
        self.entries@.map_values(|e: (String, String)| (e.0@, e.1@))
    }
}

/// No key comes twice.
pub open spec fn keys_unique(s: Seq<(Seq<char>, Seq<char>)>) -> bool {
    forall|i: int, j: int| 0 <= i < j < s.len() ==> s[i].0 != s[j].0
}

/// Setting a key keeps the keys unique.
pub proof fn lemma_with_entry_unique(s: Seq<(Seq<char>, Seq<char>)>, k: Seq<char>, v: Seq<char>)
    requires
        keys_unique(s),
    ensures
        keys_unique(with_entry(s, k, v)),
{
    lemma_find_key(s, k, 0);
}

impl ParamMap {
    /// Each key is held once.
    pub open spec fn wf(&self) -> bool {
        keys_unique(self@)
    }

    pub fn new() -> (r: ParamMap)
        ensures
            r.wf(),
            r@ == Seq::<(Seq<char>, Seq<char>)>::empty(),
    {
        let r = ParamMap { entries: Vec::new() };
        assert(r@ =~= Seq::<(Seq<char>, Seq<char>)>::empty());
        r
    }

    /// The index of the entry for `key`.
    fn index_of(&self, key: &str) -> (r: Option<usize>)
        ensures
            match r {
                Some(i) => find_key(self@, key@, 0) == i,
                None => find_key(self@, key@, 0) == -1,
            },
    {
        proof {
            lemma_find_key(self@, key@, 0);
        }
        let k = chars_of(key);
        let mut i: usize = 0;
        while i < self.entries.len()
            invariant
                i <= self.entries.len(),
                k@ == key@,
                find_key(self@, key@, 0) == find_key(self@, key@, i as int),
            decreases self.entries.len() - i,
        {
            if same_chars(&chars_of(self.entries[i].0.as_str()), &k) {
                return Some(i);
            }
            i += 1;
        }
        None
    }

    pub fn contains_key(&self, key: &str) -> (r: bool)
        ensures
            r == (value_of(self@, key@) is Some),
    {
        proof {
            lemma_find_key(self@, key@, 0);
        }
        self.index_of(key).is_some()
    }

    pub fn get(&self, key: &str) -> (r: Option<String>)
        ensures
            match r {
                Some(v) => value_of(self@, key@) == Some(v@),
                None => value_of(self@, key@) is None,
            },
    {
        proof {
            lemma_find_key(self@, key@, 0);
        }
        match self.index_of(key) {
            Some(i) => Some(self.entries[i].1.clone()),
            None => None,
        }
    }

    /// Sets `key` to `value`.
    pub fn insert(&mut self, key: String, value: String)
        ensures
            final(self)@ == with_entry(old(self)@, key@, value@),
            old(self).wf() ==> final(self).wf(),
    {
        proof {
            if old(self).wf() {
                lemma_with_entry_unique(old(self)@, key@, value@);
            }
        }
        proof {
            lemma_find_key(self@, key@, 0);
        }
        let ghost k = key@;
        let ghost v = value@;
        match self.index_of(key.as_str()) {
            Some(i) => {
                self.entries.set(i, (key, value));
                assert(self@ =~= old(self)@.update(i as int, (k, v)));
            },
            None => {
                self.entries.push((key, value));
                assert(self@ =~= old(self)@.push((k, v)));
            },
        }
    }

    pub fn len(&self) -> (r: usize)
        ensures
            r == self@.len(),
    {
        self.entries.len()
    }
}

} // verus!
