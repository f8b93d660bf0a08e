//! Groups of users: members inherit the grants issued to the group, managers
//! alone may change membership.
use vstd::prelude::*;

use crate::text::{copy_str, str_eq};
use crate::value_objects::GroupId;

verus! {

broadcast use vstd::string::group_string_axioms;

/// The views of a list of strings.
pub open spec fn strings_view(v: Seq<String>) -> Seq<Seq<char>> {
    Seq::new(v.len(), |i: int| v[i]@)
}

/// Whether `s` occurs in the list `v` (by characters).
pub open spec fn strings_contain(v: Seq<String>, s: Seq<char>) -> bool {
    exists|i: int| 0 <= i < v.len() && (#[trigger] v[i])@ == s
}

/// Whether `s` occurs in a list of strings.
pub fn list_contains(v: &Vec<String>, s: &str) -> (r: bool)
    ensures
        r == strings_contain(v@, s@),
{
    let n = v.len();
    for i in 0..n
        invariant
            n == v@.len(),
            forall|j: int| 0 <= j < i ==> (#[trigger] v@[j])@ != s@,
    {
        if str_eq(v[i].as_str(), s) {
            return true;
        }
    }
    false
}

/// `v` with every occurrence of `s` removed, order kept.
pub open spec fn strings_without(v: Seq<String>, s: Seq<char>) -> Seq<Seq<char>> {
    strings_view(v).filter(|x: Seq<char>| x != s)
}

/// Removes every occurrence of `s` from `v`, keeping the others in order.
pub fn remove_all(v: &mut Vec<String>, s: &str)
    ensures
        strings_view(final(v)@) == strings_without(old(v)@, s@),
{
    let ghost orig = v@;
    let mut kept: Vec<String> = Vec::new();
    let n = v.len();
    for i in 0..n
        invariant
            n == orig.len(),
            v@ == orig,
            strings_view(kept@) == strings_view(orig.take(i as int)).filter(
                |x: Seq<char>| x != s@,
            ),
    {
        proof {
            assert(strings_view(orig.take(i + 1)) =~= strings_view(orig.take(i as int)).push(
                orig[i as int]@,
            ));
            strings_view(orig.take(i as int)).lemma_filter_push(
                orig[i as int]@,
                |x: Seq<char>| x != s@,
            );
        }
        if !str_eq(v[i].as_str(), s) {
            let ghost before = kept@;
            kept.push(v[i].clone());
            assert(strings_view(kept@) =~= strings_view(before).push(orig[i as int]@));
        }
    }
    assert(orig.take(n as int) =~= orig);
    *v = kept;
}

/// A first-class group of users.
#[derive(Debug, Clone, PartialEq, Eq)]
pub struct Group {
    pub id: GroupId,
    pub name: String,
    /// Member emails. Members inherit group grants.
    pub members: Vec<String>,
    /// Manager emails. Only managers may modify membership.
    pub managers: Vec<String>,
}

impl Group {
    /// A new group whose creator is the sole initial manager and member.
    pub fn new(id: GroupId, name: &str, creator: &str) -> (r: Group)
        ensures
            r.id@ == id@,
            r.name@ == name@,
            strings_view(r.members@) == seq![creator@],
            strings_view(r.managers@) == seq![creator@],
    {
        let c1 = copy_str(creator);
        let c2 = copy_str(creator);
        let r = Group { id, name: copy_str(name), members: vec![c1], managers: vec![c2] };
        assert(strings_view(r.members@) =~= seq![creator@]);
        assert(strings_view(r.managers@) =~= seq![creator@]);
        r
    }

    /// True if `email` is a member.
    pub fn is_member(&self, email: &str) -> (r: bool)
        ensures
            r == strings_contain(self.members@, email@),
    {
        list_contains(&self.members, email)
    }

    /// True if `email` is a manager.
    pub fn is_manager(&self, email: &str) -> (r: bool)
        ensures
            r == strings_contain(self.managers@, email@),
    {
        list_contains(&self.managers, email)
    }

    /// Adds a member unless already present.
    pub fn add_member(&mut self, email: &str)
        ensures
            final(self).id == old(self).id,
            final(self).name == old(self).name,
            final(self).managers == old(self).managers,
            strings_view(final(self).members@) == if strings_contain(old(self).members@, email@) {
                strings_view(old(self).members@)
            } else {
                strings_view(old(self).members@).push(email@)
            },
    {
        if !self.is_member(email) {
            let ghost before = self.members@;
            self.members.push(copy_str(email));
            assert(strings_view(self.members@) =~= strings_view(before).push(email@));
        }
    }

    /// Removes a member (every occurrence); a no-op when absent.
    pub fn remove_member(&mut self, email: &str)
        ensures
            final(self).id == old(self).id,
            final(self).name == old(self).name,
            final(self).managers == old(self).managers,
            strings_view(final(self).members@) == strings_without(old(self).members@, email@),
    {
        remove_all(&mut self.members, email);
    }

    /// Adds a manager unless already present; a manager is also made a member.
    pub fn add_manager(&mut self, email: &str)
        ensures
            final(self).id == old(self).id,
            final(self).name == old(self).name,
            strings_view(final(self).managers@) == if strings_contain(
                old(self).managers@,
                email@,
            ) {
                strings_view(old(self).managers@)
            } else {
                strings_view(old(self).managers@).push(email@)
            },
            strings_view(final(self).members@) == if strings_contain(old(self).members@, email@) {
                strings_view(old(self).members@)
            } else {
                strings_view(old(self).members@).push(email@)
            },
    {
        if !self.is_manager(email) {
            let ghost before = self.managers@;
            self.managers.push(copy_str(email));
            assert(strings_view(self.managers@) =~= strings_view(before).push(email@));
        }
        self.add_member(email);
    }

    /// Removes a manager (every occurrence); membership is left unchanged.
    pub fn remove_manager(&mut self, email: &str)
        ensures
            final(self).id == old(self).id,
            final(self).name == old(self).name,
            final(self).members == old(self).members,
            strings_view(final(self).managers@) == strings_without(old(self).managers@, email@),
    {
        remove_all(&mut self.managers, email);
    }
}

/// After `add_member(e)`, `e` is a member.
pub proof fn lemma_add_member_makes_member(before: Seq<String>, after: Seq<String>, e: Seq<char>)
    requires
        strings_view(after) == (if strings_contain(before, e) {
            strings_view(before)
        } else {
            strings_view(before).push(e)
        }),
    ensures
        strings_contain(after, e),
{
    assert(strings_view(after).len() == after.len());
    assert(strings_view(before).len() == before.len());
    if strings_contain(before, e) {
        let i = choose|i: int| 0 <= i < before.len() && (#[trigger] before[i])@ == e;
        assert(strings_view(before)[i] == e);
        assert(strings_view(after)[i] == strings_view(before)[i]);
        assert(after[i]@ == strings_view(after)[i]);
    } else {
        let k = before.len() as int;
        assert(strings_view(after)[k] == e);
        assert(after[k]@ == strings_view(after)[k]);
    }
}

/// After removing `e`, `e` is not in the list.
pub proof fn lemma_remove_makes_absent(before: Seq<String>, after: Seq<String>, e: Seq<char>)
    requires
        strings_view(after) == strings_without(before, e),
    ensures
        !strings_contain(after, e),
{
    if strings_contain(after, e) {
        let i = choose|i: int| 0 <= i < after.len() && (#[trigger] after[i])@ == e;
        assert(strings_view(after)[i] == e);
        assert(strings_without(before, e)[i] == e);
        assert(strings_without(before, e).contains(e));
        strings_view(before).lemma_filter_pred(|x: Seq<char>| x != e, i);
    }
}

/// Adding a manager (or member) keeps a list free of repeats: an address
/// already present is not added again.
pub proof fn lemma_add_keeps_distinct(v: Seq<String>, e: Seq<char>)
    requires
        strings_view(v).no_duplicates(),
    ensures
        (if strings_contain(v, e) {
            strings_view(v)
        } else {
            strings_view(v).push(e)
        }).no_duplicates(),
{
    if !strings_contain(v, e) {
        let w = strings_view(v).push(e);
        assert forall|a: int, b: int| 0 <= a < b < w.len() implies w[a] != w[b] by {
            if b == w.len() - 1 {
                if w[a] == e {
                    assert(v[a]@ == e);
                }
            }
        }
    }
}

/// A group never loses its last manager: removing a manager from a list of
/// distinct managers, when it is not the single manager left, leaves at
/// least one.
pub proof fn lemma_group_keeps_a_manager(managers: Seq<String>, e: Seq<char>)
    requires
        strings_view(managers).no_duplicates(),
        managers.len() >= 1,
        !(strings_contain(managers, e) && managers.len() == 1),
    ensures
        strings_without(managers, e).len() >= 1,
{
    let xs = strings_view(managers);
    let k: int = if xs[0] != e {
        0
    } else {
        assert(strings_contain(managers, e)) by {
            assert(managers[0]@ == e);
        }
        assert(xs[1] != xs[0]);
        1
    };
    xs.lemma_filter_contains(|x: Seq<char>| x != e, k);
    let f = strings_without(managers, e);
    assert(f.contains(xs[k]));
    let j = choose|j: int| 0 <= j < f.len() && f[j] == xs[k];
}

} // verus!
