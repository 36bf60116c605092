//! Lists of texts used as small sets: membership, switching a member on
//! and off, and removing one.
use vstd::prelude::*;
use crate::host_patterns::string_views;
use crate::text::{copy_string, text_eq};

verus! {

/// Whether a list of strings holds a text.
pub fn list_contains(list: &Vec<String>, text: &str) -> (r: bool)
    ensures
        r == string_views(list@).contains(text@),
{
    let mut i: usize = 0;
    while i < list.len()
        invariant
            i <= list@.len(),
            forall|j: int| 0 <= j < i ==> list@[j]@ != text@,
        decreases list@.len() - i,
    {
        if text_eq(list[i].as_str(), text) {
            assert(string_views(list@)[i as int] == text@);
            return true;
        }
        i = i + 1;
    }
    assert forall|j: int| 0 <= j < string_views(list@).len() implies string_views(list@)[j] != text@ by {
        assert(string_views(list@)[j] == list@[j]@);
    }
    false
}

/// The texts of a list other than `ty`, in order.
pub open spec fn without_text(active: Seq<Seq<char>>, ty: Seq<char>) -> Seq<Seq<char>>
    decreases active.len(),
{
    if active.len() == 0 {
        Seq::empty()
    } else {
        let before = without_text(active.drop_last(), ty);
        if active.last() == ty {
            before
        } else {
            before.push(active.last())
        }
    }
}

/// A list with `ty` switched: removed where present, added at the end
/// where not.
pub open spec fn toggled(active: Seq<Seq<char>>, ty: Seq<char>) -> Seq<Seq<char>> {
    if active.contains(ty) {
        without_text(active, ty)
    } else {
        active.push(ty)
    }
}

/// Switches a text in a list: removed where present, added where not.
pub fn toggle_text(list: &mut Vec<String>, t: &str)
    ensures
        string_views(final(list)@) == toggled(string_views(old(list)@), t@),
{
    if list_contains(list, t) {
        remove_text(list, t);
    } else {
        let ghost before = list@;
        list.push(crate::text::owned(t));
        assert(string_views(list@) =~= string_views(before).push(t@));
    }
}

/// Nothing is left of `ty`, and everything else stays.
pub proof fn lemma_without_text(active: Seq<Seq<char>>, ty: Seq<char>)
    ensures
        !without_text(active, ty).contains(ty),
        forall|x: Seq<char>| x != ty ==> (without_text(active, ty).contains(x) <==> active.contains(x)),
    decreases active.len(),
{
    if active.len() > 0 {
        let rest = active.drop_last();
        lemma_without_text(rest, ty);
        let w = without_text(active, ty);
        let before = without_text(rest, ty);
        assert forall|x: Seq<char>| x != ty implies (w.contains(x) <==> active.contains(x)) by {
            if active.last() == ty {
                assert(w == before);
            } else {
                assert(w == before.push(active.last()));
            }
            if active.contains(x) {
                let i = choose|i: int| 0 <= i < active.len() && active[i] == x;
                if i < active.len() - 1 {
                    assert(rest[i] == x);
                    assert(rest.contains(x));
                    assert(before.contains(x));
                    let j = choose|j: int| 0 <= j < before.len() && before[j] == x;
                    assert(w[j] == x);
                } else {
                    assert(active.last() == x);
                    assert(w[w.len() - 1] == x);
                }
            }
            if w.contains(x) {
                let j = choose|j: int| 0 <= j < w.len() && w[j] == x;
                if j < before.len() {
                    assert(before[j] == x);
                    assert(before.contains(x));
                    assert(rest.contains(x));
                    let i = choose|i: int| 0 <= i < rest.len() && rest[i] == x;
                    assert(active[i] == x);
                } else {
                    assert(active[active.len() - 1] == x);
                }
            }
        }
        if w.contains(ty) {
            let j = choose|j: int| 0 <= j < w.len() && w[j] == ty;
            if j < before.len() {
                assert(before[j] == ty);
            }
        }
    }
}

/// Switching a text twice undoes the first switch: the list holds the same
/// set of texts again.
pub proof fn law_toggling_twice_restores_the_set(active: Seq<Seq<char>>, ty: Seq<char>)
    ensures
        toggled(toggled(active, ty), ty).to_set() == active.to_set(),
{
    let once = toggled(active, ty);
    let twice = toggled(once, ty);
    if active.contains(ty) {
        lemma_without_text(active, ty);
        assert(!once.contains(ty));
        assert(twice == once.push(ty));
        assert forall|x: Seq<char>| twice.to_set().contains(x) == active.to_set().contains(x) by {
            if x == ty {
                assert(twice[twice.len() - 1] == ty);
            } else {
                if once.contains(x) {
                    let j = choose|j: int| 0 <= j < once.len() && once[j] == x;
                    assert(twice[j] == x);
                }
                if twice.contains(x) {
                    let j = choose|j: int| 0 <= j < twice.len() && twice[j] == x;
                    assert(j < once.len());
                    assert(once[j] == x);
                }
            }
        }
    } else {
        assert(once == active.push(ty));
        assert(once[once.len() - 1] == ty);
        assert(once.contains(ty));
        lemma_without_text(once, ty);
        assert forall|x: Seq<char>| twice.to_set().contains(x) == active.to_set().contains(x) by {
            if x != ty {
                if active.contains(x) {
                    let j = choose|j: int| 0 <= j < active.len() && active[j] == x;
                    assert(once[j] == x);
                }
                if once.contains(x) {
                    let j = choose|j: int| 0 <= j < once.len() && once[j] == x;
                    assert(j < active.len());
                    assert(active[j] == x);
                }
            }
        }
    }
    assert(twice.to_set() =~= active.to_set());
}


/// A list with `t` added at the end unless it holds it already.
pub open spec fn with_text(list: Seq<Seq<char>>, t: Seq<char>) -> Seq<Seq<char>> {
    if list.contains(t) {
        list
    } else {
        list.push(t)
    }
}

/// Adds a text to a list unless it holds it already.
pub fn insert_text(list: &mut Vec<String>, t: &str)
    ensures
        string_views(final(list)@) == with_text(string_views(old(list)@), t@),
{
    if !list_contains(list, t) {
        let ghost before = list@;
        list.push(crate::text::owned(t));
        assert(string_views(list@) =~= string_views(before).push(t@));
    }
}

/// Removes every copy of a text from a list.
pub fn remove_text(list: &mut Vec<String>, t: &str)
    ensures
        string_views(final(list)@) == without_text(string_views(old(list)@), t@),
{
    let ghost before = string_views(list@);
    let mut kept: Vec<String> = Vec::new();
    let mut i: usize = 0;
    while i < list.len()
        invariant
            i <= list@.len(),
            before == string_views(list@),
            string_views(kept@) == without_text(before.subrange(0, i as int), t@),
        decreases list@.len() - i,
    {
        let ghost prefix = before.subrange(0, i as int);
        assert(before.subrange(0, i + 1).drop_last() =~= prefix);
        assert(before[i as int] == list@[i as int]@);
        if !text_eq(list[i].as_str(), t) {
            let ghost old_kept = kept@;
            kept.push(copy_string(&list[i]));
            assert(string_views(kept@) =~= string_views(old_kept).push(list@[i as int]@));
        }
        i = i + 1;
    }
    assert(before.subrange(0, before.len() as int) =~= before);
    *list = kept;
}

/// The entries of an association list whose key is not `k`, in order.
pub open spec fn without_key<V>(s: Seq<(String, V)>, k: Seq<char>) -> Seq<(String, V)>
    decreases s.len(),
{
    if s.len() == 0 {
        Seq::empty()
    } else {
        let before = without_key(s.drop_last(), k);
        if s.last().0@ == k {
            before
        } else {
            before.push(s.last())
        }
    }
}

/// The value of the first entry with key `k`.
pub open spec fn value_of<V>(s: Seq<(String, V)>, k: Seq<char>) -> Option<V>
    decreases s.len(),
{
    if s.len() == 0 {
        None
    } else if s[0].0@ == k {
        Some(s[0].1)
    } else {
        value_of(s.drop_first(), k)
    }
}

/// Removes every entry with key `k` from an association list.
pub fn remove_key<V>(list: &mut Vec<(String, V)>, k: &str)
    ensures
        final(list)@ == without_key(old(list)@, k@),
{
    let ghost all = list@;
    let mut kept: Vec<(String, V)> = Vec::new();
    let ghost mut consumed: Seq<(String, V)> = Seq::empty();
    while list.len() > 0
        invariant
            all == consumed + list@,
            kept@ == without_key(consumed, k@),
        decreases list@.len(),
    {
        let ghost rest = list@;
        let entry = list.remove(0);
        proof {
            assert(rest[0] == entry);
            assert(consumed.push(entry).drop_last() =~= consumed);
            assert(all =~= consumed.push(entry) + list@);
        }
        if !text_eq(entry.0.as_str(), k) {
            kept.push(entry);
        }
        proof {
            consumed = consumed.push(entry);
        }
    }
    assert(all =~= consumed);
    *list = kept;
}

/// Sets the value of key `k`: any entry with that key is removed, and the
/// new entry goes last.
pub fn set_key<V>(list: &mut Vec<(String, V)>, k: String, v: V)
    ensures
        final(list)@ == without_key(old(list)@, k@).push((k, v)),
{
    remove_key(list, k.as_str());
    list.push((k, v));
}

/// The position of the first entry with key `k`.
pub fn find_key<V>(list: &Vec<(String, V)>, k: &str) -> (r: Option<usize>)
    ensures
        match r {
            Some(i) => i < list@.len() && value_of(list@, k@) == Some(list@[i as int].1),
            None => value_of(list@, k@) is None,
        },
{
    let mut i: usize = 0;
    assert(list@.subrange(0, list@.len() as int) =~= list@);
    while i < list.len()
        invariant
            i <= list@.len(),
            value_of(list@, k@) == value_of(list@.subrange(i as int, list@.len() as int), k@),
        decreases list@.len() - i,
    {
        let ghost rest = list@.subrange(i as int, list@.len() as int);
        assert(rest.drop_first() =~= list@.subrange(i + 1, list@.len() as int));
        assert(rest[0] == list@[i as int]);
        if text_eq(list[i].0.as_str(), k) {
            return Some(i);
        }
        i = i + 1;
    }
    None
}

/// Membership in a list after adding a text.
pub proof fn lemma_with_text(s: Seq<Seq<char>>, t: Seq<char>)
    ensures
        forall|x: Seq<char>| #[trigger] with_text(s, t).contains(x) <==> (s.contains(x) || x == t),
{
    if !s.contains(t) {
        let w = s.push(t);
        assert forall|x: Seq<char>| #[trigger] w.contains(x) <==> (s.contains(x) || x == t) by {
            if s.contains(x) {
                let i = choose|i: int| 0 <= i < s.len() && s[i] == x;
                assert(w[i] == x);
            }
            if x == t {
                assert(w[w.len() - 1] == t);
            }
            if w.contains(x) {
                let i = choose|i: int| 0 <= i < w.len() && w[i] == x;
                if i < s.len() {
                    assert(s[i] == x);
                }
            }
        }
    }
}

/// After a key is set, looking it up finds the new value, and looking up
/// any other key finds what it found before.
pub proof fn lemma_set_key_lookup<V>(s: Seq<(String, V)>, e: (String, V), k: Seq<char>)
    ensures
        e.0@ == k ==> value_of(without_key(s, e.0@).push(e), k) == Some(e.1),
        e.0@ != k ==> value_of(without_key(s, e.0@).push(e), k) == value_of(s, k),
    decreases s.len(),
{
    let w = without_key(s, e.0@);
    lemma_value_of_push_any(w, e, k);
    lemma_without_key_lookup(s, e.0@, k);
}

/// Looking a key up in a list with an entry appended finds the list's
/// entry, or the appended one where the list has none.
pub proof fn lemma_value_of_push_any<V>(s: Seq<(String, V)>, e: (String, V), k: Seq<char>)
    ensures
        value_of(s.push(e), k) == match value_of(s, k) {
            Some(v) => Some(v),
            None => if e.0@ == k {
                Some(e.1)
            } else {
                None
            },
        },
    decreases s.len(),
{
    let t = s.push(e);
    if s.len() > 0 {
        assert(t[0] == s[0]);
        assert(t.drop_first() =~= s.drop_first().push(e));
        lemma_value_of_push_any(s.drop_first(), e, k);
        if s[0].0@ == k {
            assert(value_of(t, k) == Some(t[0].1));
        } else {
            assert(value_of(t, k) == value_of(t.drop_first(), k));
            assert(value_of(s, k) == value_of(s.drop_first(), k));
        }
    } else {
        assert(t[0] == e);
        assert(t.drop_first() =~= Seq::<(String, V)>::empty());
        assert(value_of(t.drop_first(), k) is None);
        assert(value_of(s, k) is None);
    }
}

/// Removing a key leaves nothing under it and the other keys as they were.
pub proof fn lemma_without_key_lookup<V>(s: Seq<(String, V)>, removed: Seq<char>, k: Seq<char>)
    ensures
        removed == k ==> value_of(without_key(s, removed), k) is None,
        removed != k ==> value_of(without_key(s, removed), k) == value_of(s, k),
    decreases s.len(),
{
    if s.len() > 0 {
        let rest = s.drop_last();
        lemma_without_key_lookup(rest, removed, k);
        let before = without_key(rest, removed);
        if s.last().0@ != removed {
            lemma_value_of_push_any(before, s.last(), k);
        }
        assert(s =~= rest.push(s.last()));
        lemma_value_of_push_any(rest, s.last(), k);
    }
}

/// Removing a text never lengthens a list, and shortens one that holds it.
pub proof fn lemma_without_text_len(s: Seq<Seq<char>>, t: Seq<char>)
    ensures
        without_text(s, t).len() <= s.len(),
        s.contains(t) ==> without_text(s, t).len() < s.len(),
    decreases s.len(),
{
    if s.len() > 0 {
        let rest = s.drop_last();
        lemma_without_text_len(rest, t);
        if s.contains(t) && s.last() != t {
            let i = choose|i: int| 0 <= i < s.len() && s[i] == t;
            assert(i < s.len() - 1);
            assert(rest[i] == t);
        }
    }
}

/// Adding a text keeps what the list held.
pub proof fn lemma_with_text_superset(s: Seq<Seq<char>>, t: Seq<char>)
    ensures
        forall|x: Seq<char>| s.contains(x) ==> with_text(s, t).contains(x),
{
    lemma_with_text(s, t);
}

} // verus!
