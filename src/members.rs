use vstd::prelude::*;
use crate::order::{lex_lt, lex_less, lemma_lex_total, lemma_lex_transitive, lemma_lex_irreflexive};
use crate::text::string_of;

verus! {

/// Each member comes strictly before the next: sorted, without repeats.
pub open spec fn strictly_sorted(s: Seq<Seq<char>>) -> bool {
    forall|i: int, j: int| 0 <= i < j < s.len() ==> lex_lt(s[i], s[j])
}

/// A set of member names, held in sorted order.
pub struct MemberSet {
    pub items: Vec<Vec<char>>,
}

impl View for MemberSet {
    type V = Seq<Seq<char>>;

    open spec fn view(&self) -> Seq<Seq<char>> {
        self.items@.map_values(|m: Vec<char>| m@)
    }
}

impl MemberSet {
    /// The members are sorted and distinct.
    pub open spec fn wf(&self) -> bool {
        strictly_sorted(self@)
    }

    /// The members, as a set.
    pub open spec fn set(&self) -> Set<Seq<char>> {
        self@.to_set()
    }

    pub fn new() -> (r: MemberSet)
        ensures
            r.wf(),
            r@ == Seq::<Seq<char>>::empty(),
    {
        let r = MemberSet { items: Vec::new() };
        assert(r@ =~= Seq::<Seq<char>>::empty());
        r
    }

    pub fn len(&self) -> (r: usize)
        ensures
            r == self@.len(),
    {
        self.items.len()
    }

    /// Adds `m`, keeping the members sorted; a member already present is not repeated.
    pub fn insert(&mut self, m: Vec<char>)
        requires
            old(self).wf(),
        ensures
            final(self).wf(),
            final(self).set() == old(self).set().insert(m@),
    {
        let ghost s = self@;
        let mut p: usize = 0;
        while p < self.items.len() && lex_less(&self.items[p], &m)
            invariant
                p <= self.items.len(),
                self@ == s,
                strictly_sorted(s),
                forall|k: int| 0 <= k < p ==> lex_lt(s[k], m@),
            decreases self.items.len() - p,
        {
            p += 1;
        }
        if p < self.items.len() && !lex_less(&m, &self.items[p]) {
            proof {
                if s[p as int] != m@ {
                    lemma_lex_total(s[p as int], m@);
                }
                assert(s[p as int] == m@);
                assert(s.to_set().contains(m@)) by {
                    assert(s.contains(m@));
                }
                assert(s.to_set().insert(m@) =~= s.to_set());
            }
            return;
        }
        self.items.insert(p, m);
        proof {
            let t = self@;
            assert(t =~= s.insert(p as int, m@));
            if p < s.len() {
                if s[p as int] != m@ {
                    lemma_lex_total(s[p as int], m@);
                } else {
                    lemma_lex_irreflexive(m@);
                }
            }
            assert forall|i: int, j: int| 0 <= i < j < t.len() implies lex_lt(t[i], t[j]) by {
                if j < p {
                } else if j == p {
                } else if i > p {
                } else if i == p {
                    if j - 1 > p {
                        lemma_lex_transitive(m@, s[p as int], s[j - 1]);
                    }
                } else {
                    if j - 1 > p {
                        lemma_lex_transitive(m@, s[p as int], s[j - 1]);
                    }
                    lemma_lex_transitive(s[i], m@, s[j - 1]);
                }
            }
            assert forall|x: Seq<char>| t.contains(x) <==> s.to_set().insert(m@).contains(x) by {
                if t.contains(x) {
                    let k = choose|k: int| 0 <= k < t.len() && t[k] == x;
                    if k < p {
                        assert(s[k] == x);
                    } else if k > p {
                        assert(s[k - 1] == x);
                    }
                }
                if s.contains(x) {
                    let k = choose|k: int| 0 <= k < s.len() && s[k] == x;
                    if k < p {
                        assert(t[k] == x);
                    } else {
                        assert(t[k + 1] == x);
                    }
                }
                if x == m@ {
                    assert(t[p as int] == x);
                }
            }
            assert(t.to_set() =~= s.to_set().insert(m@));
        }
    }

    /// The members in sorted order, as strings.
    pub fn members(&self) -> (r: Vec<String>)
        ensures
            r@.len() == self@.len(),
            forall|i: int| 0 <= i < r@.len() ==> r@[i]@ == self@[i],
    {
        let mut r: Vec<String> = Vec::new();
        let mut i: usize = 0;
        while i < self.items.len()
            invariant
                i <= self.items.len(),
                r@.len() == i,
                forall|k: int| 0 <= k < i ==> r@[k]@ == self@[k],
            decreases self.items.len() - i,
        {
            r.push(string_of(&self.items[i]));
            i += 1;
        }
        r
    }
}

} // verus!
