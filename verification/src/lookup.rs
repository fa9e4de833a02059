//! Finding things by name in ordered lists.

use crate::text::same;
use vstd::prelude::*;

verus! {

/// Something that is found by its name.
pub trait Named {
    /// The name.
    spec fn called(&self) -> Seq<char>;

    /// Whether that is its name.
    fn is_called(&self, name: &str) -> (r: bool)
        ensures
            r == (self.called() == name@),
    ;
}

/// Something that is found by its schema and its name within it.
pub trait Qualified {
    /// The schema and the name.
    spec fn placed(&self) -> (Seq<char>, Seq<char>);

    /// Whether that is where it is.
    fn is_at(&self, schema: &str, name: &str) -> (r: bool)
        ensures
            r == (self.placed() == (schema@, name@)),
    ;
}

/// The first of a list with this name.
pub open spec fn named<T: Named>(s: Seq<T>, name: Seq<char>) -> Option<T>
    decreases s.len(),
{
    if s.len() == 0 {
        None
    } else if s[0].called() == name {
        Some(s[0])
    } else {
        named(s.drop_first(), name)
    }
}

/// The first of a list at this place.
pub open spec fn qualified<T: Qualified>(s: Seq<T>, schema: Seq<char>, name: Seq<char>) -> Option<T>
    decreases s.len(),
{
    if s.len() == 0 {
        None
    } else if s[0].placed() == (schema, name) {
        Some(s[0])
    } else {
        qualified(s.drop_first(), schema, name)
    }
}

/// What an optional reference refers to.
pub open spec fn deref_opt<T>(o: Option<&T>) -> Option<T> {
    match o {
        Some(t) => Some(*t),
        None => None,
    }
}

/// The first of a list with this name.
pub fn find_named<'a, T: Named>(v: &'a Vec<T>, name: &str) -> (r: Option<&'a T>)
    ensures
        deref_opt(r) == named(v@, name@),
{
    let mut i: usize = 0;
    assert(v@.skip(0) =~= v@);
    while i < v.len()
        invariant
            i <= v.len(),
            named(v@, name@) == named(v@.skip(i as int), name@),
        decreases v.len() - i,
    {
        if v[i].is_called(name) {
            return Some(&v[i]);
        }
        assert(v@.skip(i as int).drop_first() =~= v@.skip(i + 1));
        i += 1;
    }
    None
}

/// The first of a list at this place.
pub fn find_qualified<'a, T: Qualified>(v: &'a Vec<T>, schema: &str, name: &str) -> (r: Option<
    &'a T,
>)
    ensures
        deref_opt(r) == qualified(v@, schema@, name@),
{
    let mut i: usize = 0;
    assert(v@.skip(0) =~= v@);
    while i < v.len()
        invariant
            i <= v.len(),
            qualified(v@, schema@, name@) == qualified(v@.skip(i as int), schema@, name@),
        decreases v.len() - i,
    {
        if v[i].is_at(schema, name) {
            return Some(&v[i]);
        }
        assert(v@.skip(i as int).drop_first() =~= v@.skip(i + 1));
        i += 1;
    }
    None
}

/// A pair is found by its first half.
impl Named for (String, String) {
    open spec fn called(&self) -> Seq<char> {
        self.0@
    }

    fn is_called(&self, name: &str) -> (r: bool) {
        same(&self.0, name)
    }
}

/// The second half of the first pair under a key.
pub open spec fn paired(s: Seq<(String, String)>, key: Seq<char>) -> Option<Seq<char>> {
    match named(s, key) {
        Some(pair) => Some(pair.1@),
        None => None,
    }
}

/// The second half of the first pair under a key.
pub fn find_pair<'a>(v: &'a Vec<(String, String)>, key: &str) -> (r: Option<&'a str>)
    ensures
        crate::text::str_opt(r) == paired(v@, key@),
{
    match find_named(v, key) {
        Some(pair) => Some(pair.1.as_str()),
        None => None,
    }
}

/// The key of the first pair whose second half is this.
pub open spec fn keyed_by(s: Seq<(String, String)>, value: Seq<char>) -> Option<Seq<char>>
    decreases s.len(),
{
    if s.len() == 0 {
        None
    } else if s[0].1@ == value {
        Some(s[0].0@)
    } else {
        keyed_by(s.drop_first(), value)
    }
}

/// The key of the first pair whose second half is this.
pub fn find_key<'a>(v: &'a Vec<(String, String)>, value: &str) -> (r: Option<&'a str>)
    ensures
        crate::text::str_opt(r) == keyed_by(v@, value@),
{
    let mut i: usize = 0;
    assert(v@.skip(0) =~= v@);
    while i < v.len()
        invariant
            i <= v.len(),
            keyed_by(v@, value@) == keyed_by(v@.skip(i as int), value@),
        decreases v.len() - i,
    {
        if same(&v[i].1, value) {
            return Some(v[i].0.as_str());
        }
        assert(v@.skip(i as int).drop_first() =~= v@.skip(i + 1));
        i += 1;
    }
    None
}

/// Whether no key stands twice: what a list of pairs that is a map keeps.
pub open spec fn once<T>(s: Seq<(Seq<char>, T)>) -> bool {
    forall|i: int, j: int| 0 <= i < j < s.len() ==> (#[trigger] s[i]).0 != (#[trigger] s[j]).0
}

/// The keys and values of a list of pairs.
pub open spec fn keyed<T>(v: Seq<(String, T)>) -> Seq<(Seq<char>, T)> {
    v.map_values(|e: (String, T)| (e.0@, e.1))
}

/// Where a key stands first, from the `i`th place on, or the end.
pub open spec fn key_place<T>(s: Seq<(Seq<char>, T)>, key: Seq<char>, i: nat) -> nat
    decreases s.len() - i,
{
    if i >= s.len() {
        s.len()
    } else if s[i as int].0 == key {
        i
    } else {
        key_place(s, key, i + 1)
    }
}

/// A list of pairs in which a key has a value: in the place it had, or at the
/// end.
pub open spec fn keyed_put<T>(s: Seq<(Seq<char>, T)>, key: Seq<char>, value: T) -> Seq<
    (Seq<char>, T),
> {
    let k = key_place(s, key, 0);
    if k < s.len() {
        s.update(k as int, (key, value))
    } else {
        s.push((key, value))
    }
}

/// Gives a key of a list of pairs a value.
pub fn put_keyed<T>(v: &mut Vec<(String, T)>, key: String, value: T)
    ensures
        keyed(final(v)@) == keyed_put(keyed(old(v)@), key@, value),
{
    let mut i: usize = 0;
    while i < v.len()
        invariant
            i <= v.len(),
            v@ == old(v)@,
            key_place(keyed(v@), key@, 0) == key_place(keyed(v@), key@, i as nat),
        decreases v.len() - i,
    {
        assert(keyed(v@)[i as int] == (v@[i as int].0@, v@[i as int].1));
        if same(&v[i].0, &key) {
            v.set(i, (key, value));
            assert(keyed(v@) =~= keyed(old(v)@).update(i as int, (key@, value)));
            return ;
        }
        i += 1;
    }
    v.push((key, value));
    assert(keyed(v@) =~= keyed(old(v)@).push((key@, value)));
}

proof fn lemma_key_place<T>(s: Seq<(Seq<char>, T)>, key: Seq<char>, i: nat)
    requires
        i <= s.len(),
    ensures
        i <= key_place(s, key, i) <= s.len(),
        key_place(s, key, i) < s.len() ==> s[key_place(s, key, i) as int].0 == key,
        forall|j: int| i <= j < key_place(s, key, i) ==> (#[trigger] s[j]).0 != key,
    decreases s.len() - i,
{
    if i < s.len() && s[i as int].0 != key {
        lemma_key_place(s, key, i + 1);
    }
}

/// A key that has been given a value holds it, and where every key of a list
/// was there once, every key still is.
pub proof fn law_keyed_put<T>(s: Seq<(Seq<char>, T)>, key: Seq<char>, value: T)
    requires
        once(s),
    ensures
        keyed_put(s, key, value).contains((key, value)),
        once(keyed_put(s, key, value)),
{
    lemma_key_place(s, key, 0);
    let k = key_place(s, key, 0) as int;
    let after = keyed_put(s, key, value);
    assert(after[k] == (key, value));
    assert forall|i: int, j: int| 0 <= i < j < after.len() implies (#[trigger] after[i]).0 != (
    #[trigger] after[j]).0 by {
        if i != k && i < s.len() {
            assert(after[i] == s[i]);
        }
        if j != k {
            assert(after[j] == s[j]);
        }
    }
}

} // verus!
