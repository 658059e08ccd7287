use vstd::prelude::*;
use vstd::string::StringExecFns;

verus! {

/// Whether some entry stands under `key`.
pub open spec fn contains_key<T>(entries: Seq<(Seq<char>, T)>, key: Seq<char>) -> bool {
    exists|i: int| 0 <= i < entries.len() && (#[trigger] entries[i]).0 == key
}

/// Whether the first entry under `key` stands at `i`.
pub open spec fn is_first_at<T>(entries: Seq<(Seq<char>, T)>, key: Seq<char>, i: int) -> bool {
    &&& 0 <= i < entries.len()
    &&& entries[i].0 == key
    &&& forall|j: int| 0 <= j < i ==> (#[trigger] entries[j]).0 != key
}

/// Where the first entry under `key` stands, if there is one.
pub open spec fn position<T>(entries: Seq<(Seq<char>, T)>, key: Seq<char>) -> int {
    choose|i: int| is_first_at(entries, key, i)
}

/// What stands under `key`: the entry that comes first, if there are several.
pub open spec fn value_at<T>(entries: Seq<(Seq<char>, T)>, key: Seq<char>) -> T {
    entries[position(entries, key)].1
}

/// No key occurs twice.
pub open spec fn distinct<T>(entries: Seq<(Seq<char>, T)>) -> bool {
    forall|i: int, j: int|
        0 <= i < j < entries.len() ==> (#[trigger] entries[i]).0 != (#[trigger] entries[j]).0
}

/// The first entry under a key stands at one index only.
pub proof fn lemma_first_unique<T>(entries: Seq<(Seq<char>, T)>, key: Seq<char>, i: int)
    requires
        is_first_at(entries, key, i),
    ensures
        contains_key(entries, key),
        position(entries, key) == i,
{
    let j = position(entries, key);
    assert(is_first_at(entries, key, j));
    if i < j {
        assert(entries[i].0 != key);
    } else if j < i {
        assert(entries[j].0 != key);
    }
}

/// A key that occurs has a first entry.
pub proof fn lemma_first_exists<T>(entries: Seq<(Seq<char>, T)>, key: Seq<char>)
    requires
        contains_key(entries, key),
    ensures
        is_first_at(entries, key, position(entries, key)),
{
    let i = choose|i: int| 0 <= i < entries.len() && (#[trigger] entries[i]).0 == key;
    lemma_least_first(entries, key, i);
}

proof fn lemma_least_first<T>(entries: Seq<(Seq<char>, T)>, key: Seq<char>, i: int)
    requires
        0 <= i < entries.len(),
        entries[i].0 == key,
    ensures
        exists|k: int| is_first_at(entries, key, k),
    decreases i,
{
    if exists|j: int| 0 <= j < i && (#[trigger] entries[j]).0 == key {
        let j = choose|j: int| 0 <= j < i && (#[trigger] entries[j]).0 == key;
        lemma_least_first(entries, key, j);
    } else {
        assert(is_first_at(entries, key, i));
    }
}

/// Under distinct keys, an entry is the one that its key leads to.
pub proof fn lemma_distinct_position<T>(entries: Seq<(Seq<char>, T)>, i: int)
    requires
        distinct(entries),
        0 <= i < entries.len(),
    ensures
        contains_key(entries, entries[i].0),
        position(entries, entries[i].0) == i,
{
    assert forall|j: int| 0 <= j < i implies (#[trigger] entries[j]).0 != entries[i].0 by {
        assert(entries[j].0 != entries[i].0);
    }
    lemma_first_unique(entries, entries[i].0, i);
}

/// A new key at the end keeps the keys distinct.
pub proof fn lemma_push_distinct<T>(entries: Seq<(Seq<char>, T)>, key: Seq<char>, value: T)
    requires
        distinct(entries),
        !contains_key(entries, key),
    ensures
        distinct(entries.push((key, value))),
{
    let longer = entries.push((key, value));
    assert forall|i: int, j: int| 0 <= i < j < longer.len() implies (#[trigger] longer[i]).0 != (
    #[trigger] longer[j]).0 by {
        if j < entries.len() {
            assert(entries[i].0 != entries[j].0);
        } else {
            assert(entries[i].0 != key);
        }
    }
}

/// Another value under a key that is there keeps the keys distinct.
pub proof fn lemma_update_distinct<T>(entries: Seq<(Seq<char>, T)>, i: int, value: T)
    requires
        distinct(entries),
        0 <= i < entries.len(),
    ensures
        distinct(entries.update(i, (entries[i].0, value))),
{
    let changed = entries.update(i, (entries[i].0, value));
    assert forall|a: int, b: int| 0 <= a < b < changed.len() implies (#[trigger] changed[a]).0 != (
    #[trigger] changed[b]).0 by {
        assert(entries[a].0 != entries[b].0);
    }
}

/// What a key leads to after an entry was added at the end: to what it led
/// to before; and the key of the new entry, if it led nowhere, to the new
/// entry.
pub proof fn lemma_push_lookup<T>(entries: Seq<(Seq<char>, T)>, key: Seq<char>, value: T, other: Seq<char>)
    ensures
        contains_key(entries.push((key, value)), other) <==> contains_key(entries, other) || other
            == key,
        contains_key(entries, other) ==> value_at(entries.push((key, value)), other) == value_at(
            entries,
            other,
        ),
        !contains_key(entries, other) && other == key ==> value_at(
            entries.push((key, value)),
            other,
        ) == value,
{
    let longer = entries.push((key, value));
    if contains_key(entries, other) {
        lemma_first_exists(entries, other);
        let i = position(entries, other);
        assert(is_first_at(longer, other, i)) by {
            assert(longer[i] == entries[i]);
            assert forall|j: int| 0 <= j < i implies (#[trigger] longer[j]).0 != other by {
                assert(longer[j] == entries[j]);
            }
        }
        lemma_first_unique(longer, other, i);
    } else if other == key {
        let i = entries.len() as int;
        assert(is_first_at(longer, other, i)) by {
            assert forall|j: int| 0 <= j < i implies (#[trigger] longer[j]).0 != other by {
                assert(longer[j] == entries[j]);
            }
        }
        lemma_first_unique(longer, other, i);
    } else {
        if contains_key(longer, other) {
            let i = choose|i: int| 0 <= i < longer.len() && (#[trigger] longer[i]).0 == other;
            assert(longer[i] == entries[i]);
        }
    }
}

/// What a key leads to after the first entry under a key got another
/// value: that key to the new value, every other key to what it led to.
pub proof fn lemma_update_lookup<T>(entries: Seq<(Seq<char>, T)>, key: Seq<char>, value: T, other: Seq<char>)
    requires
        contains_key(entries, key),
    ensures
        ({
            let changed = entries.update(position(entries, key), (key, value));
            &&& contains_key(changed, other) <==> contains_key(entries, other)
            &&& other == key ==> value_at(changed, other) == value
            &&& other != key && contains_key(entries, other) ==> value_at(changed, other)
                == value_at(entries, other)
        }),
{
    lemma_first_exists(entries, key);
    let at = position(entries, key);
    let changed = entries.update(at, (key, value));
    if contains_key(entries, other) {
        lemma_first_exists(entries, other);
        let i = position(entries, other);
        assert(is_first_at(changed, other, i)) by {
            assert(changed[i].0 == entries[i].0);
            assert forall|j: int| 0 <= j < i implies (#[trigger] changed[j]).0 != other by {
                assert(changed[j].0 == entries[j].0);
                assert(entries[j].0 != other);
            }
        }
        lemma_first_unique(changed, other, i);
    } else {
        if contains_key(changed, other) {
            let i = choose|i: int| 0 <= i < changed.len() && (#[trigger] changed[i]).0 == other;
            assert(entries[i].0 == changed[i].0);
        }
    }
}

/// Whether `i` is the first index of `s` at which `p` holds.
pub open spec fn is_first<T>(s: Seq<T>, p: spec_fn(T) -> bool, i: int) -> bool {
    &&& 0 <= i < s.len()
    &&& p(s[i])
    &&& forall|j: int| 0 <= j < i ==> !p(#[trigger] s[j])
}

/// The first index of `s` at which `p` holds, if it holds anywhere.
pub open spec fn first<T>(s: Seq<T>, p: spec_fn(T) -> bool) -> Option<int> {
    if exists|i: int| is_first(s, p, i) {
        Some(choose|i: int| is_first(s, p, i))
    } else {
        None
    }
}

/// The first index at which a predicate holds is one index only.
pub proof fn lemma_first_found<T>(s: Seq<T>, p: spec_fn(T) -> bool, i: int)
    requires
        is_first(s, p, i),
    ensures
        first(s, p) == Some(i),
{
    let j = choose|j: int| is_first(s, p, j);
    if i < j {
        assert(!p(s[i]));
    } else if j < i {
        assert(!p(s[j]));
    }
}

/// Where a predicate holds nowhere, there is no first index.
pub proof fn lemma_first_none<T>(s: Seq<T>, p: spec_fn(T) -> bool)
    requires
        forall|j: int| 0 <= j < s.len() ==> !p(#[trigger] s[j]),
    ensures
        first(s, p) is None,
{
}

proof fn lemma_least_where<T>(s: Seq<T>, p: spec_fn(T) -> bool, i: int)
    requires
        0 <= i < s.len(),
        p(s[i]),
    ensures
        exists|k: int| is_first(s, p, k),
    decreases i,
{
    if exists|j: int| 0 <= j < i && p(#[trigger] s[j]) {
        let j = choose|j: int| 0 <= j < i && p(#[trigger] s[j]);
        lemma_least_where(s, p, j);
    } else {
        assert(is_first(s, p, i));
    }
}

/// There is no first index at which a predicate holds exactly where it
/// holds nowhere.
pub proof fn lemma_first_none_iff<T>(s: Seq<T>, p: spec_fn(T) -> bool)
    ensures
        first(s, p) is None <==> forall|j: int| 0 <= j < s.len() ==> !p(#[trigger] s[j]),
{
    if exists|j: int| 0 <= j < s.len() && p(#[trigger] s[j]) {
        let j = choose|j: int| 0 <= j < s.len() && p(#[trigger] s[j]);
        lemma_least_where(s, p, j);
    }
}

/// Whether two texts are the same, character by character.
pub fn same_text(a: &str, b: &str) -> (same: bool)
    ensures
        same == (a@ == b@),
{
    String::from_str(a) == String::from_str(b)
}

/// Finds the first entry under a key.
pub fn find<T: DeepView>(entries: &Vec<(String, T)>, key: &str) -> (found: Option<usize>)
    ensures
        match found {
            Some(i) => contains_key(entries.deep_view(), key@) && position(entries.deep_view(), key@) == i
                && i < entries.len(),
            None => !contains_key(entries.deep_view(), key@),
        },
{
    let mut i: usize = 0;
    while i < entries.len()
        invariant
            i <= entries.len(),
            forall|j: int| 0 <= j < i ==> (#[trigger] entries.deep_view()[j]).0 != key@,
        decreases entries.len() - i,
    {
        if same_text(entries[i].0.as_str(), key) {
            proof {
                assert(entries.deep_view()[i as int].0 == key@);
                lemma_first_unique(entries.deep_view(), key@, i as int);
            }
            return Some(i);
        }
        assert(entries.deep_view()[i as int].0 == entries[i as int].0@);
        i = i + 1;
    }
    None
}

} // verus!
