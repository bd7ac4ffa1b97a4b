//! An in-memory employee directory: each name is filed under one department.
use vstd::prelude::*;

use crate::order::{
    lemma_text_lt_irreflexive, lemma_text_lt_total, lemma_text_lt_transitive, strictly_ascending,
    text_less, text_lt,
};
use crate::text::{capitalize, capitalized, texts};

verus! {

/// The texts of a sequence of (name, department) pairs.
pub open spec fn pair_texts(v: Seq<(String, String)>) -> Seq<(Seq<char>, Seq<char>)> {
    v.map_values(|e: (String, String)| (e.0@, e.1@))
}

/// No name occurs twice.
pub open spec fn unique_names(s: Seq<(Seq<char>, Seq<char>)>) -> bool {
    forall|i: int, j: int| 0 <= i < j < s.len() ==> (#[trigger] s[i]).0 != (#[trigger] s[j]).0
}

/// The mapping that a sequence of pairs describes.
pub open spec fn to_map(s: Seq<(Seq<char>, Seq<char>)>) -> Map<Seq<char>, Seq<char>>
    decreases s.len(),
{
    if s.len() == 0 {
        Map::empty()
    } else {
        to_map(s.drop_last()).insert(s.last().0, s.last().1)
    }
}

/// `s` lists each entry of `m` once, and nothing else.
pub open spec fn lists_exactly(s: Seq<(Seq<char>, Seq<char>)>, m: Map<Seq<char>, Seq<char>>) -> bool {
    &&& unique_names(s)
    &&& forall|i: int|
        0 <= i < s.len() ==> m.contains_key(#[trigger] s[i].0) && m[s[i].0] == s[i].1
    &&& forall|k: Seq<char>| #[trigger] m.contains_key(k) ==> exists|i: int| 0 <= i < s.len() && s[i].0 == k
}

/// The directory after adding `name` to `department`: both are capitalized,
/// and the entry is made only where both are non-empty and the name is not
/// filed yet.
pub open spec fn after_add(
    m: Map<Seq<char>, Seq<char>>,
    name: Seq<char>,
    department: Seq<char>,
) -> Map<Seq<char>, Seq<char>> {
    if name.len() > 0 && department.len() > 0 && !m.contains_key(capitalized(name)) {
        m.insert(capitalized(name), capitalized(department))
    } else {
        m
    }
}

/// `names` holds, in ascending order, exactly the names filed under `department`.
pub open spec fn members_listed(
    names: Seq<Seq<char>>,
    m: Map<Seq<char>, Seq<char>>,
    department: Seq<char>,
) -> bool {
    &&& strictly_ascending(names)
    &&& forall|k: Seq<char>| names.contains(k) <==> (m.contains_key(k) && m[k] == department)
}

proof fn lemma_to_map(s: Seq<(Seq<char>, Seq<char>)>)
    requires
        unique_names(s),
    ensures
        lists_exactly(s, to_map(s)),
    decreases s.len(),
{
    if s.len() > 0 {
        let p = s.drop_last();
        assert(unique_names(p)) by {
            assert forall|i: int, j: int| 0 <= i < j < p.len() implies (#[trigger] p[i]).0 != (
            #[trigger] p[j]).0 by {
                assert(p[i] == s[i] && p[j] == s[j]);
            }
        }
        lemma_to_map(p);
        let m = to_map(s);
        assert forall|i: int| 0 <= i < s.len() implies m.contains_key(#[trigger] s[i].0) && m[s[i].0]
            == s[i].1 by {
            if i < s.len() - 1 {
                assert(p[i] == s[i]);
                assert(s[i].0 != s[s.len() - 1].0);
            }
        }
        assert forall|k: Seq<char>| #[trigger] m.contains_key(k) implies exists|i: int|
            0 <= i < s.len() && s[i].0 == k by {
            if k != s.last().0 {
                assert(to_map(p).contains_key(k));
                let i = choose|i: int| 0 <= i < p.len() && p[i].0 == k;
                assert(s[i] == p[i]);
            } else {
                assert(s[s.len() - 1].0 == k);
            }
        }
    }
}

/// The employee directory.
pub struct Directory {
    entries: Vec<(String, String)>,
}

impl View for Directory {
    type V = Map<Seq<char>, Seq<char>>;

    closed spec fn view(&self) -> Map<Seq<char>, Seq<char>> {
        to_map(pair_texts(self.entries@))
    }
}

impl Directory {
    /// Names are unique, and every name and department is non-empty.
    pub closed spec fn wf(&self) -> bool {
        let s = pair_texts(self.entries@);
        &&& unique_names(s)
        &&& forall|i: int| 0 <= i < s.len() ==> (#[trigger] s[i]).0.len() > 0 && s[i].1.len() > 0
    }

    /// Every name and department filed is non-empty.
    pub proof fn lemma_entries_nonempty(&self)
        requires
            self.wf(),
        ensures
            forall|k: Seq<char>| #[trigger]
                self@.contains_key(k) ==> k.len() > 0 && self@[k].len() > 0,
    {
        let s = pair_texts(self.entries@);
        lemma_to_map(s);
        assert forall|k: Seq<char>| #[trigger] self@.contains_key(k) implies k.len() > 0
            && self@[k].len() > 0 by {
            let i = choose|i: int| 0 <= i < s.len() && s[i].0 == k;
            assert(s[i].0.len() > 0);
        }
    }

    /// An empty directory.
    pub fn new() -> (r: Directory)
        ensures
            r.wf(),
            r@ == Map::<Seq<char>, Seq<char>>::empty(),
    {
        let r = Directory { entries: Vec::new() };
        assert(pair_texts(r.entries@) =~= Seq::<(Seq<char>, Seq<char>)>::empty());
        r
    }

    /// The place of the entry for `name`, if there is one.
    fn find(&self, name: &String) -> (r: Option<usize>)
        requires
            self.wf(),
        ensures
            r is Some <==> self@.contains_key(name@),
            r matches Some(i) ==> i < self.entries@.len() && self.entries@[i as int].0@ == name@,
    {
        let ghost s = pair_texts(self.entries@);
        proof {
            lemma_to_map(s);
        }
        let mut i: usize = 0;
        while i < self.entries.len()
            invariant
                s == pair_texts(self.entries@),
                lists_exactly(s, self@),
                i <= self.entries@.len(),
                forall|j: int| 0 <= j < i ==> (#[trigger] s[j]).0 != name@,
            decreases self.entries@.len() - i,
        {
            if self.entries[i].0 == *name {
                assert(s[i as int].0 == name@);
                return Some(i);
            }
            i = i + 1;
        }
        None
    }

    /// Files `name` under `department`, both capitalized (first character
    /// upper-cased, the rest lower-cased). A name that is already filed keeps
    /// its department, and an empty name or department is not filed. Returns
    /// whether an entry was made.
    pub fn add(&mut self, name: &str, department: &str) -> (inserted: bool)
        requires
            old(self).wf(),
        ensures
            final(self).wf(),
            final(self)@ == after_add(old(self)@, name@, department@),
            inserted == (name@.len() > 0 && department@.len() > 0 && !old(self)@.contains_key(
                capitalized(name@),
            )),
    {
        let n = capitalize(name);
        let d = capitalize(department);
        if name.unicode_len() == 0 || department.unicode_len() == 0 {
            return false;
        }
        if self.find(&n).is_some() {
            return false;
        }
        let ghost s = pair_texts(self.entries@);
        let ghost nv = n@;
        let ghost dv = d@;
        proof {
            lemma_to_map(s);
        }
        self.entries.push((n, d));
        proof {
            let s2 = pair_texts(self.entries@);
            assert(s2 =~= s.push((nv, dv)));
            assert(s2.drop_last() =~= s);
            assert(unique_names(s2)) by {
                assert forall|i: int, j: int| 0 <= i < j < s2.len() implies (#[trigger] s2[i]).0 != (
                #[trigger] s2[j]).0 by {
                    if j == s2.len() - 1 {
                        assert(s2[i] == s[i]);
                        assert(self@.contains_key(s[i].0)) by {
                            assert(old(self)@.contains_key(s[i].0));
                        }
                    } else {
                        assert(s2[i] == s[i] && s2[j] == s[j]);
                    }
                }
            }
            assert forall|i: int| 0 <= i < s2.len() implies (#[trigger] s2[i]).0.len() > 0
                && s2[i].1.len() > 0 by {
                if i < s.len() {
                    assert(s2[i] == s[i]);
                }
            }
        }
        true
    }

    /// Every (name, department) entry, each once, in no particular order.
    pub fn list_all(&self) -> (r: Vec<(String, String)>)
        requires
            self.wf(),
        ensures
            lists_exactly(pair_texts(r@), self@),
    {
        let ghost s = pair_texts(self.entries@);
        proof {
            lemma_to_map(s);
        }
        let mut out: Vec<(String, String)> = Vec::new();
        let mut i: usize = 0;
        while i < self.entries.len()
            invariant
                s == pair_texts(self.entries@),
                i <= self.entries@.len(),
                pair_texts(out@) == s.take(i as int),
            decreases self.entries@.len() - i,
        {
            let e = &self.entries[i];
            let ghost before = out@;
            out.push((e.0.clone(), e.1.clone()));
            assert(out@ == before.push((e.0, e.1)));
            assert(s[i as int] == (e.0@, e.1@));
            assert(pair_texts(out@) =~= pair_texts(before).push((e.0@, e.1@)));
            assert(pair_texts(out@) =~= s.take(i + 1));
            i = i + 1;
        }
        assert(s.take(i as int) =~= s);
        out
    }

    /// The names filed under `department` (capitalized like the entries), in
    /// ascending order. A department with no members gives an empty list.
    pub fn list_department(&self, department: &str) -> (r: Vec<String>)
        requires
            self.wf(),
        ensures
            members_listed(texts(r@), self@, capitalized(department@)),
    {
        let d = capitalize(department);
        let ghost s = pair_texts(self.entries@);
        proof {
            lemma_to_map(s);
        }
        let mut out: Vec<String> = Vec::new();
        let mut i: usize = 0;
        while i < self.entries.len()
            invariant
                s == pair_texts(self.entries@),
                lists_exactly(s, self@),
                i <= self.entries@.len(),
                strictly_ascending(texts(out@)),
                forall|k: Seq<char>|
                    texts(out@).contains(k) <==> exists|j: int|
                        0 <= j < i && #[trigger] s[j].0 == k && s[j].1 == d@,
            decreases self.entries@.len() - i,
        {
            let e = &self.entries[i];
            if e.1 == d {
                proof {
                    if texts(out@).contains(s[i as int].0) {
                        let j = choose|j: int| 0 <= j < i && #[trigger] s[j].0 == s[i as int].0 && s[j].1 == d@;
                    }
                }
                insert_sorted(&mut out, e.0.clone());
            }
            proof {
                assert forall|k: Seq<char>|
                    texts(out@).contains(k) implies exists|j: int|
                        0 <= j < i + 1 && #[trigger] s[j].0 == k && s[j].1 == d@ by {
                    if k == s[i as int].0 && s[i as int].1 == d@ {
                    } else {
                        let j = choose|j: int| 0 <= j < i && #[trigger] s[j].0 == k && s[j].1 == d@;
                    }
                }
                assert forall|k: Seq<char>|
                    (exists|j: int| 0 <= j < i + 1 && #[trigger] s[j].0 == k && s[j].1 == d@)
                    implies texts(out@).contains(k) by {
                    let j = choose|j: int| 0 <= j < i + 1 && #[trigger] s[j].0 == k && s[j].1 == d@;
                    if j < i {
                    }
                }
            }
            i = i + 1;
        }
        proof {
            assert forall|k: Seq<char>|
                texts(out@).contains(k) <==> (self@.contains_key(k) && self@[k] == d@) by {
                if self@.contains_key(k) && self@[k] == d@ {
                    let j = choose|j: int| 0 <= j < s.len() && s[j].0 == k;
                    assert(s[j].0 == k && s[j].1 == d@);
                }
            }
        }
        out
    }
}

/// Puts `x` into the ascending list `v`, at its place.
fn insert_sorted(v: &mut Vec<String>, x: String)
    requires
        strictly_ascending(texts(old(v)@)),
        !texts(old(v)@).contains(x@),
    ensures
        strictly_ascending(texts(final(v)@)),
        forall|k: Seq<char>| texts(final(v)@).contains(k) <==> (texts(old(v)@).contains(k) || k == x@),
{
    let ghost t = texts(v@);
    let mut i: usize = 0;
    let mut at_place = false;
    while i < v.len() && !at_place
        invariant
            t == texts(v@),
            i <= v@.len(),
            forall|j: int| 0 <= j < i ==> text_lt(#[trigger] t[j], x@),
            at_place ==> i < v@.len() && !text_lt(t[i as int], x@),
        decreases v@.len() - i + (if at_place { 0int } else { 1int }),
    {
        if text_less(v[i].as_str(), x.as_str()) {
            i = i + 1;
        } else {
            at_place = true;
        }
    }
    proof {
        if i < t.len() {
            assert(t[i as int] != x@);
            lemma_text_lt_total(t[i as int], x@);
        }
    }
    let ghost xv = x@;
    v.insert(i, x);
    proof {
        let t2 = texts(v@);
        assert(t2 =~= t.insert(i as int, xv));
        assert forall|a: int, b: int| 0 <= a < b < t2.len() implies text_lt(
            #[trigger] t2[a],
            #[trigger] t2[b],
        ) by {
            if b < i {
            } else if b == i {
            } else if a < i {
                assert(t2[b] == t[b - 1]);
                assert(text_lt(t[a], t[b - 1]));
            } else if a == i {
                assert(t2[b] == t[b - 1]);
                if b - 1 > i {
                    assert(text_lt(t[i as int], t[b - 1]));
                    lemma_text_lt_transitive(xv, t[i as int], t[b - 1]);
                }
            } else {
                assert(t2[a] == t[a - 1] && t2[b] == t[b - 1]);
            }
        }
        assert forall|k: Seq<char>| t2.contains(k) <==> (t.contains(k) || k == xv) by {
            if t2.contains(k) {
                let j = choose|j: int| 0 <= j < t2.len() && t2[j] == k;
                if j < i {
                    assert(t[j] == k);
                } else if j > i {
                    assert(t[j - 1] == k);
                }
            }
            if t.contains(k) {
                let j = choose|j: int| 0 <= j < t.len() && t[j] == k;
                if j < i {
                    assert(t2[j] == k);
                } else {
                    assert(t2[j + 1] == k);
                }
            }
            if k == xv {
                assert(t2[i as int] == k);
            }
        }
    }
}

/// The names that `list_department` returns hold no name twice.
pub proof fn lemma_listed_once(names: Seq<Seq<char>>, k: Seq<char>, i: int, j: int)
    requires
        strictly_ascending(names),
        0 <= i < names.len(),
        0 <= j < names.len(),
        names[i] == k,
        names[j] == k,
    ensures
        i == j,
{
    if i < j {
        lemma_text_lt_irreflexive(k);
    } else if j < i {
        lemma_text_lt_irreflexive(k);
    }
}

/// After a valid `add` of `name` to `department`, listing that department
/// shows the capitalized name exactly once, and the name is filed under the
/// capitalized department. This holds unless the name was filed under another
/// department already.
pub proof fn law_added_name_listed_once(
    m: Map<Seq<char>, Seq<char>>,
    name: Seq<char>,
    department: Seq<char>,
    listed: Seq<Seq<char>>,
)
    requires
        name.len() > 0,
        department.len() > 0,
        m.contains_key(capitalized(name)) ==> m[capitalized(name)] == capitalized(department),
        members_listed(listed, after_add(m, name, department), capitalized(department)),
    ensures
        after_add(m, name, department)[capitalized(name)] == capitalized(department),
        exists|i: int| 0 <= i < listed.len() && listed[i] == capitalized(name),
        forall|i: int, j: int|
            0 <= i < listed.len() && 0 <= j < listed.len() && listed[i] == capitalized(name)
                && listed[j] == capitalized(name) ==> i == j,
{
    let a = after_add(m, name, department);
    assert(a.contains_key(capitalized(name)));
    assert(listed.contains(capitalized(name)));
    assert forall|i: int, j: int|
        0 <= i < listed.len() && 0 <= j < listed.len() && listed[i] == capitalized(name)
            && listed[j] == capitalized(name) implies i == j by {
        lemma_listed_once(listed, capitalized(name), i, j);
    }
}

/// A second `add` of a name keeps the department of the first: adding `name`
/// to `first` and then to `second` leaves the directory as the first `add`
/// alone does.
pub proof fn law_first_write_wins(
    m: Map<Seq<char>, Seq<char>>,
    name: Seq<char>,
    first: Seq<char>,
    second: Seq<char>,
)
    requires
        name.len() > 0,
        first.len() > 0,
    ensures
        after_add(after_add(m, name, first), name, second) == after_add(m, name, first),
        !m.contains_key(capitalized(name)) ==> after_add(after_add(m, name, first), name, second)[
            capitalized(name)] == capitalized(first),
{
}

/// Listing a department that has no members gives an empty list.
pub proof fn law_empty_department_lists_nothing(
    m: Map<Seq<char>, Seq<char>>,
    department: Seq<char>,
    listed: Seq<Seq<char>>,
)
    requires
        forall|k: Seq<char>| m.contains_key(k) ==> m[k] != capitalized(department),
        members_listed(listed, m, capitalized(department)),
    ensures
        listed.len() == 0,
{
    if listed.len() > 0 {
        assert(listed.contains(listed[0]));
    }
}

} // verus!
