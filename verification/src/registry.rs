//! An insertion-ordered registry of handlers under string keys, resolved by
//! exact key first and by the first matching pattern otherwise.

use indexmap::IndexMap;
use std::collections::hash_map::RandomState;
use vstd::prelude::*;

verus! {

/// The insertion-ordered hash map of the `indexmap` crate.
#[verifier::external_type_specification]
#[verifier::external_body]
#[verifier::reject_recursive_types(K)]
#[verifier::reject_recursive_types(V)]
#[verifier::reject_recursive_types(S)]
pub struct ExIndexMap<K, V, S>(IndexMap<K, V, S>);

/// What a map from keys to slot numbers holds: its pairs, in the order in
/// which their keys were first inserted.
pub uninterp spec fn index_entries(m: IndexMap<String, usize, RandomState>) -> Seq<
    (Seq<char>, usize),
>;

/// Whether the glob `pattern` matches `target`, as `glob_match::glob_match`
/// decides it. Besides `*` and `?` the crate reads character classes,
/// braces, a leading `!` and backslash escapes, and it keeps `*` and `?`
/// from matching a path separator of the platform it is built for.
pub uninterp spec fn glob_matches(pattern: Seq<char>, target: Seq<char>) -> bool;

/// `glob_match::glob_match` is a function of its two strings; contracts know
/// its answer as [`glob_matches`].
pub assume_specification[ glob_match::glob_match ](glob: &str, path: &str) -> (b: bool)
    ensures
        b == glob_matches(glob@, path@),
;

/// Position of the first of `keys` that equals `key`.
pub open spec fn exact_position(keys: Seq<Seq<char>>, key: Seq<char>) -> Option<int>
    decreases keys.len(),
{
    if keys.len() == 0 {
        None
    } else if keys[0] == key {
        Some(0)
    } else {
        match exact_position(keys.drop_first(), key) {
            Some(i) => Some(i + 1),
            None => None,
        }
    }
}

/// Position of the first of `keys` that matches `target` when read as a glob.
pub open spec fn pattern_position(keys: Seq<Seq<char>>, target: Seq<char>) -> Option<int>
    decreases keys.len(),
{
    if keys.len() == 0 {
        None
    } else if glob_matches(keys[0], target) {
        Some(0)
    } else {
        match pattern_position(keys.drop_first(), target) {
            Some(i) => Some(i + 1),
            None => None,
        }
    }
}

/// Position of the entry that `target` resolves to: the key equal to it if
/// there is one, else the first key, in registration order, that matches it
/// as a glob.
pub open spec fn resolve_position(keys: Seq<Seq<char>>, target: Seq<char>) -> Option<int> {
    match exact_position(keys, target) {
        Some(i) => Some(i),
        None => pattern_position(keys, target),
    }
}

/// The keys of `entries`, in order.
pub open spec fn keys_of<T>(entries: Seq<(Seq<char>, T)>) -> Seq<Seq<char>> {
    Seq::new(entries.len(), |i: int| entries[i].0)
}

/// The handler stored under exactly `key`.
pub open spec fn lookup<T>(entries: Seq<(Seq<char>, T)>, key: Seq<char>) -> Option<T> {
    match exact_position(keys_of(entries), key) {
        Some(i) => Some(entries[i].1),
        None => None,
    }
}

/// The handler that `target` resolves to.
pub open spec fn resolve<T>(entries: Seq<(Seq<char>, T)>, target: Seq<char>) -> Option<T> {
    match resolve_position(keys_of(entries), target) {
        Some(i) => Some(entries[i].1),
        None => None,
    }
}

/// `entries` after registering `value` under `key`: a key that is already
/// there keeps its place and gets the new value; a new key goes last.
pub open spec fn register<T>(entries: Seq<(Seq<char>, T)>, key: Seq<char>, value: T) -> Seq<
    (Seq<char>, T),
> {
    match exact_position(keys_of(entries), key) {
        Some(i) => entries.update(i, (key, value)),
        None => entries.push((key, value)),
    }
}

/// No key occurs twice.
pub open spec fn distinct_keys(keys: Seq<Seq<char>>) -> bool {
    forall|i: int, j: int| 0 <= i < j < keys.len() ==> keys[i] != keys[j]
}

/// `exact_position` finds `n` when `keys[n]` is the first key equal to `key`,
/// and nothing when no key is.
pub proof fn lemma_exact_position(keys: Seq<Seq<char>>, key: Seq<char>, n: int)
    requires
        0 <= n <= keys.len(),
        forall|i: int| 0 <= i < n ==> keys[i] != key,
        n < keys.len() ==> keys[n] == key,
    ensures
        exact_position(keys, key) == (if n < keys.len() {
            Some(n)
        } else {
            None
        }),
    decreases keys.len(),
{
    if n > 0 {
        let rest = keys.drop_first();
        assert forall|i: int| 0 <= i < n - 1 implies rest[i] != key by {
            assert(rest[i] == keys[i + 1]);
        }
        lemma_exact_position(rest, key, n - 1);
    }
}

/// `pattern_position` finds `n` when `keys[n]` is the first key that matches
/// `target`, and nothing when no key does.
pub proof fn lemma_pattern_position(keys: Seq<Seq<char>>, target: Seq<char>, n: int)
    requires
        0 <= n <= keys.len(),
        forall|i: int| 0 <= i < n ==> !glob_matches(keys[i], target),
        n < keys.len() ==> glob_matches(keys[n], target),
    ensures
        pattern_position(keys, target) == (if n < keys.len() {
            Some(n)
        } else {
            None
        }),
    decreases keys.len(),
{
    if n > 0 {
        let rest = keys.drop_first();
        assert forall|i: int| 0 <= i < n - 1 implies !glob_matches(rest[i], target) by {
            assert(rest[i] == keys[i + 1]);
        }
        lemma_pattern_position(rest, target, n - 1);
    }
}

/// What `exact_position` returns is a position of `key`, the first one; and it
/// returns nothing only when `key` is not among `keys`.
pub proof fn lemma_exact_position_sound(keys: Seq<Seq<char>>, key: Seq<char>)
    ensures
        match exact_position(keys, key) {
            Some(n) => 0 <= n < keys.len() && keys[n] == key && forall|i: int|
                0 <= i < n ==> keys[i] != key,
            None => forall|i: int| 0 <= i < keys.len() ==> keys[i] != key,
        },
    decreases keys.len(),
{
    if keys.len() > 0 && keys[0] != key {
        let rest = keys.drop_first();
        lemma_exact_position_sound(rest, key);
        match exact_position(rest, key) {
            Some(n) => {
                assert(rest[n] == keys[n + 1]);
                assert forall|i: int| 0 <= i < n + 1 implies keys[i] != key by {
                    if i > 0 {
                        assert(rest[i - 1] == keys[i]);
                    }
                }
            },
            None => {
                assert forall|i: int| 0 <= i < keys.len() implies keys[i] != key by {
                    if i > 0 {
                        assert(rest[i - 1] == keys[i]);
                    }
                }
            },
        }
    }
}

/// What `pattern_position` returns is the first position whose key matches
/// `target`; and it returns nothing only when no key matches.
pub proof fn lemma_pattern_position_sound(keys: Seq<Seq<char>>, target: Seq<char>)
    ensures
        match pattern_position(keys, target) {
            Some(n) => 0 <= n < keys.len() && glob_matches(keys[n], target) && forall|i: int|
                0 <= i < n ==> !glob_matches(keys[i], target),
            None => forall|i: int| 0 <= i < keys.len() ==> !glob_matches(keys[i], target),
        },
    decreases keys.len(),
{
    if keys.len() > 0 && !glob_matches(keys[0], target) {
        let rest = keys.drop_first();
        lemma_pattern_position_sound(rest, target);
        match pattern_position(rest, target) {
            Some(n) => {
                assert(rest[n] == keys[n + 1]);
                assert forall|i: int| 0 <= i < n + 1 implies !glob_matches(keys[i], target) by {
                    if i > 0 {
                        assert(rest[i - 1] == keys[i]);
                    }
                }
            },
            None => {
                assert forall|i: int| 0 <= i < keys.len() implies !glob_matches(
                    keys[i],
                    target,
                ) by {
                    if i > 0 {
                        assert(rest[i - 1] == keys[i]);
                    }
                }
            },
        }
    }
}

/// Exact match takes priority over pattern match, whatever the order of
/// registration: a target equal to a registered key resolves to the entry of
/// that key, even where a pattern registered earlier matches it too.
pub proof fn lemma_exact_match_wins<T>(entries: Seq<(Seq<char>, T)>, i: int)
    requires
        distinct_keys(keys_of(entries)),
        0 <= i < entries.len(),
    ensures
        resolve_position(keys_of(entries), entries[i].0) == Some(i),
        resolve(entries, entries[i].0) == Some(entries[i].1),
{
    let keys = keys_of(entries);
    assert(keys[i] == entries[i].0);
    lemma_exact_position(keys, entries[i].0, i);
}

/// A target resolves to nothing exactly when no key equals it and no key
/// matches it as a glob.
pub proof fn lemma_unresolved<T>(entries: Seq<(Seq<char>, T)>, target: Seq<char>)
    ensures
        resolve(entries, target) is None <==> forall|i: int|
            0 <= i < entries.len() ==> entries[i].0 != target && !glob_matches(
                entries[i].0,
                target,
            ),
{
    let keys = keys_of(entries);
    lemma_exact_position_sound(keys, target);
    lemma_pattern_position_sound(keys, target);
    if resolve(entries, target) is None {
        assert forall|i: int| 0 <= i < entries.len() implies entries[i].0 != target
            && !glob_matches(entries[i].0, target) by {
            assert(keys[i] == entries[i].0);
        }
    } else {
        let n = resolve_position(keys, target)->0;
        assert(keys[n] == entries[n].0);
    }
}

/// Registering keeps the keys distinct.
pub proof fn lemma_register_distinct<T>(entries: Seq<(Seq<char>, T)>, key: Seq<char>, value: T)
    requires
        distinct_keys(keys_of(entries)),
    ensures
        distinct_keys(keys_of(register(entries, key, value))),
{
    let keys = keys_of(entries);
    let after = keys_of(register(entries, key, value));
    lemma_exact_position_sound(keys, key);
    match exact_position(keys, key) {
        Some(n) => {
            assert(after =~= keys);
        },
        None => {
            assert(after =~= keys.push(key));
        },
    }
}

/// `IndexMap::new`: a map that holds nothing.
#[verifier::external_body]
fn index_new() -> (m: IndexMap<String, usize, RandomState>)
    ensures
        index_entries(m) == Seq::<(Seq<char>, usize)>::empty(),
{
    IndexMap::new()
}

/// `IndexMap::insert`: where the key is present it stays in its place and
/// takes the new value; otherwise the pair becomes the last one.
#[verifier::external_body]
fn index_insert(m: &mut IndexMap<String, usize, RandomState>, key: String, value: usize)
    ensures
        index_entries(*final(m)) == register(index_entries(*old(m)), key@, value),
{
    m.insert(key, value);
}

/// `IndexMap::get`: the value stored under a key equal to `key`, if any.
#[verifier::external_body]
fn index_get(m: &IndexMap<String, usize, RandomState>, key: &str) -> (r: Option<usize>)
    ensures
        r == lookup(index_entries(*m), key@),
{
    m.get(key).copied()
}

/// `IndexMap::len`: the number of pairs.
#[verifier::external_body]
fn index_len(m: &IndexMap<String, usize, RandomState>) -> (n: usize)
    ensures
        n == index_entries(*m).len(),
{
    m.len()
}

/// `IndexMap::get_index`: the pair at position `i` of the insertion order,
/// and nothing at or past the length.
#[verifier::external_body]
fn index_at(m: &IndexMap<String, usize, RandomState>, i: usize) -> (r: Option<(&String, usize)>)
    ensures
        match r {
            Some(pair) => i < index_entries(*m).len() && pair.0@ == index_entries(*m)[i as int].0
                && pair.1 == index_entries(*m)[i as int].1,
            None => i >= index_entries(*m).len(),
        },
{
    m.get_index(i).map(|(k, v)| (k, *v))
}

/// Handlers registered under string keys, in registration order.
///
/// The keys live in an insertion-ordered map that sends each key to the slot
/// of its handler, so exact lookup is a hash lookup and pattern fallback walks
/// the keys in the order in which they were registered.
pub struct Registry<T> {
    slots: IndexMap<String, usize, RandomState>,
    handlers: Vec<T>,
}

impl<T> Registry<T> {
    #[verifier::type_invariant]
    spec fn well_formed(&self) -> bool {
        &&& distinct_keys(keys_of(index_entries(self.slots)))
        &&& forall|i: int|
            0 <= i < index_entries(self.slots).len() ==> (#[trigger] index_entries(
                self.slots,
            )[i]).1 < self.handlers.len()
    }

    /// The registered pairs of key and handler, in registration order.
    pub closed spec fn view(&self) -> Seq<(Seq<char>, T)> {
        Seq::new(
            index_entries(self.slots).len(),
            |i: int| (index_entries(self.slots)[i].0, self.handlers@[index_entries(self.slots)[i].1 as int]),
        )
    }

    /// A registry without entries.
    pub fn new() -> (r: Self)
        ensures
            r@ == Seq::<(Seq<char>, T)>::empty(),
    {
        let r = Registry { slots: index_new(), handlers: Vec::new() };
        proof {
            assert(r@ =~= Seq::<(Seq<char>, T)>::empty());
        }
        r
    }

    /// Registers `handler` under `key`. A key that is registered already
    /// keeps its place in the order and gets the new handler.
    pub fn insert(self, key: String, handler: T) -> (r: Self)
        ensures
            r@ == register(self@, key@, handler),
            distinct_keys(keys_of(r@)),
    {
        proof {
            use_type_invariant(&self);
        }
        let ghost before = index_entries(self.slots);
        let ghost old_view = self@;
        let Registry { mut slots, mut handlers } = self;
        let slot = handlers.len();
        handlers.push(handler);
        index_insert(&mut slots, key, slot);
        proof {
            lemma_register_distinct(before, key@, slot);
            lemma_exact_position_sound(keys_of(before), key@);
            assert(keys_of(old_view) =~= keys_of(before));
        }
        let r = Registry { slots, handlers };
        proof {
            assert(r@ =~= register(old_view, key@, handler));
            assert(keys_of(r@) =~= keys_of(index_entries(r.slots)));
        }
        r
    }

    /// Number of entries.
    pub fn len(&self) -> (n: usize)
        ensures
            n == self@.len(),
            distinct_keys(keys_of(self@)),
    {
        proof {
            use_type_invariant(self);
            assert(keys_of(self@) =~= keys_of(index_entries(self.slots)));
        }
        index_len(&self.slots)
    }

    /// The handler registered under exactly `key`.
    pub fn get(&self, key: &str) -> (r: Option<&T>)
        ensures
            match r {
                Some(h) => lookup(self@, key@) == Some(*h),
                None => lookup(self@, key@) is None,
            },
            distinct_keys(keys_of(self@)),
    {
        proof {
            use_type_invariant(self);
            lemma_exact_position_sound(keys_of(index_entries(self.slots)), key@);
            assert(keys_of(self@) =~= keys_of(index_entries(self.slots)));
        }
        match index_get(&self.slots, key) {
            Some(slot) => Some(&self.handlers[slot]),
            None => None,
        }
    }

    /// The handler that `target` resolves to: the one registered under
    /// exactly `target` if there is one, else the one under the first key, in
    /// registration order, that matches `target` as a glob. So an entry whose
    /// key equals `target` is always the one found, whatever patterns were
    /// registered before it.
    pub fn resolve(&self, target: &str) -> (r: Option<&T>)
        ensures
            match r {
                Some(h) => resolve(self@, target@) == Some(*h),
                None => resolve(self@, target@) is None,
            },
            forall|i: int|
                0 <= i < self@.len() && (#[trigger] self@[i]).0 == target@ ==> (r matches Some(h)
                    && *h == self@[i].1),
            distinct_keys(keys_of(self@)),
    {
        proof {
            use_type_invariant(self);
            lemma_exact_position_sound(keys_of(index_entries(self.slots)), target@);
            assert(keys_of(self@) =~= keys_of(index_entries(self.slots)));
            assert forall|i: int| 0 <= i < self@.len() && (#[trigger] self@[i]).0
                == target@ implies resolve(self@, target@) == Some(self@[i].1) by {
                lemma_exact_match_wins(self@, i);
            }
        }
        match index_get(&self.slots, target) {
            Some(slot) => Some(&self.handlers[slot]),
            None => {
                proof {
                    assert forall|j: int| 0 <= j < self@.len() implies (#[trigger] self@[j]).0
                        != target@ by {
                        assert(keys_of(self@)[j] == self@[j].0);
                    }
                }
                let n = index_len(&self.slots);
                let mut i: usize = 0;
                while i < n
                    invariant
                        i <= n == index_entries(self.slots).len(),
                        keys_of(self@) == keys_of(index_entries(self.slots)),
                        exact_position(keys_of(self@), target@) is None,
                        distinct_keys(keys_of(self@)),
                        forall|j: int|
                            0 <= j < self@.len() ==> (#[trigger] self@[j]).0 != target@,
                        forall|j: int|
                            0 <= j < index_entries(self.slots).len() ==> (
                            #[trigger] index_entries(self.slots)[j]).1 < self.handlers.len(),
                        forall|j: int|
                            0 <= j < i ==> !glob_matches(
                                #[trigger] keys_of(self@)[j],
                                target@,
                            ),
                    decreases n - i,
                {
                    match index_at(&self.slots, i) {
                        Some((key, slot)) => {
                            if glob_match::glob_match(key.as_str(), target) {
                                proof {
                                    assert(keys_of(self@)[i as int] == key@);
                                    lemma_pattern_position(keys_of(self@), target@, i as int);
                                }
                                return Some(&self.handlers[slot]);
                            }
                            proof {
                                assert(keys_of(self@)[i as int] == key@);
                            }
                        },
                        None => {},
                    }
                    i += 1;
                }
                proof {
                    lemma_pattern_position(keys_of(self@), target@, n as int);
                }
                None
            },
        }
    }
}

} // verus!
