//! The stash store: validated keys mapped to byte content.
//!
//! The store is modelled as a finite map from key characters to content
//! bytes. Entries are kept in strictly ascending key order, so keys are
//! unique and `list_content` can hand them out already sorted.

use vstd::prelude::*;

use crate::key::is_valid_key;
use crate::key::validate_key;
use crate::order::lemma_lex_lt_irreflexive;
use crate::order::lemma_lex_lt_total;
use crate::order::lemma_lex_lt_transitive;
use crate::order::lex_lt;
use crate::order::str_eq;
use crate::order::str_lex_lt;
use crate::confirm::confirmation_given;
use crate::confirm::is_confirmation;
use crate::errors::DeleteError;
use crate::errors::GetError;
use crate::errors::PushError;
use crate::source::CONTENT_MAX_BYTES;
use vstd::pervasive::VecAdditionalExecFns;
use vstd::slice::slice_to_vec;

verus! {

/// What `empty_stash` did.
#[derive(Debug, Clone, Copy, PartialEq, Eq, Structural)]
pub enum EmptyOutcome {
    /// The stash held nothing; there was nothing to delete.
    NothingToDelete,
    /// Confirmation was required and not given; nothing was deleted.
    Cancelled,
    /// Everything was deleted; carries how many items there were.
    Deleted(usize),
}

/// Whether the deletion may proceed: confirmation was waived, or the typed
/// line is the confirmation token.
pub open spec fn empty_confirmed(skip_confirmation: bool, input: Option<&str>) -> bool {
    skip_confirmation || match input {
        Some(line) => is_confirmation(line@),
        None => false,
    }
}

/// Law: the round trip. For any stash, any valid key and any content within
/// the size ceiling, `push_content`'s contract leaves the stash's map at
/// `stash.insert(key, content)`, and `get_content`'s contract returns the
/// value that map holds under the key: the content just pushed, unchanged.
pub proof fn lemma_push_then_get_round_trip(
    stash: Map<Seq<char>, Seq<u8>>,
    key: Seq<char>,
    content: Seq<u8>,
)
    requires
        is_valid_key(key),
        content.len() <= CONTENT_MAX_BYTES,
    ensures
        stash.insert(key, content).contains_key(key),
        stash.insert(key, content)[key] == content,
{
}

/// Law: popping removes the item. `get_content` with `pop` leaves the
/// stash's map at `stash.remove(key)`, and by the same contract a
/// subsequent get of that key, finding no item, fails.
pub proof fn lemma_pop_removes_key(stash: Map<Seq<char>, Seq<u8>>, key: Seq<char>)
    ensures
        !stash.remove(key).contains_key(key),
{
}

/// The requested keys that a stash does not hold, in request order,
/// duplicates kept.
pub open spec fn missing_keys(ks: Seq<Seq<char>>, m: Map<Seq<char>, Seq<u8>>) -> Seq<Seq<char>>
    decreases ks.len(),
{
    if ks.len() == 0 {
        Seq::empty()
    } else {
        let rest = missing_keys(ks.drop_last(), m);
        if !m.contains_key(ks.last()) {
            rest.push(ks.last())
        } else {
            rest
        }
    }
}

/// A key reported missing is indeed a requested key that the stash lacks,
/// and none is missed: the report is empty exactly when every requested key
/// is present.
pub proof fn lemma_missing_keys_complete(ks: Seq<Seq<char>>, m: Map<Seq<char>, Seq<u8>>)
    ensures
        missing_keys(ks, m).len() == 0 <==> forall|i: int|
            0 <= i < ks.len() ==> m.contains_key(#[trigger] ks[i]),
        forall|i: int|
            0 <= i < missing_keys(ks, m).len() ==> !m.contains_key(
                #[trigger] missing_keys(ks, m)[i],
            ) && ks.contains(missing_keys(ks, m)[i]),
    decreases ks.len(),
{
    if ks.len() > 0 {
        let dl = ks.drop_last();
        lemma_missing_keys_complete(dl, m);
        if missing_keys(ks, m).len() == 0 {
            assert forall|i: int| 0 <= i < ks.len() implies m.contains_key(
                #[trigger] ks[i],
            ) by {
                if i < ks.len() - 1 {
                    assert(dl[i] == ks[i]);
                }
            }
        } else {
            if forall|i: int| 0 <= i < ks.len() ==> m.contains_key(#[trigger] ks[i]) {
                assert(m.contains_key(ks.last()));
                assert(forall|i: int|
                    0 <= i < dl.len() ==> m.contains_key(#[trigger] dl[i]));
            }
        }
        assert forall|i: int| 0 <= i < missing_keys(ks, m).len() implies !m.contains_key(
            #[trigger] missing_keys(ks, m)[i],
        ) && ks.contains(missing_keys(ks, m)[i]) by {
            let rest = missing_keys(dl, m);
            if i < rest.len() {
                assert(missing_keys(ks, m)[i] == rest[i]);
                let j = choose|j: int| 0 <= j < dl.len() && dl[j] == rest[i];
                assert(ks[j] == rest[i]);
            } else {
                assert(missing_keys(ks, m)[i] == ks.last());
                assert(ks[ks.len() - 1] == ks.last());
            }
        }
    }
}

/// One stored item: a key and the bytes stashed under it.
struct Entry {
    key: String,
    content: Vec<u8>,
}

/// The stash: every item currently stored, ordered by key.
pub struct Stash {
    entries: Vec<Entry>,
}

/// Entries stand in strictly ascending key order.
spec fn strictly_sorted(s: Seq<Entry>) -> bool {
    forall|i: int, j: int| 0 <= i < j < s.len() ==> lex_lt(s[i].key@, s[j].key@)
}

/// No two entries share a key.
spec fn unique_keys(s: Seq<Entry>) -> bool {
    forall|i: int, j: int| 0 <= i < j < s.len() ==> s[i].key@ != s[j].key@
}

/// The map an entry sequence denotes.
spec fn as_map(s: Seq<Entry>) -> Map<Seq<char>, Seq<u8>>
    decreases s.len(),
{
    if s.len() == 0 {
        Map::empty()
    } else {
        as_map(s.drop_last()).insert(s.last().key@, s.last().content@)
    }
}

impl View for Stash {
    type V = Map<Seq<char>, Seq<u8>>;

    closed spec fn view(&self) -> Map<Seq<char>, Seq<u8>> {
        as_map(self.entries@)
    }
}

proof fn lemma_sorted_implies_unique(s: Seq<Entry>)
    requires
        strictly_sorted(s),
    ensures
        unique_keys(s),
{
    assert forall|i: int, j: int| 0 <= i < j < s.len() implies s[i].key@ != s[j].key@ by {
        if s[i].key@ == s[j].key@ {
            lemma_lex_lt_irreflexive(s[i].key@);
        }
    }
}

/// A key is in the map exactly when some entry holds it.
proof fn lemma_as_map_contains(s: Seq<Entry>)
    ensures
        forall|k: Seq<char>|
            as_map(s).contains_key(k) <==> exists|i: int| 0 <= i < s.len() && s[i].key@ == k,
    decreases s.len(),
{
    if s.len() > 0 {
        let dl = s.drop_last();
        lemma_as_map_contains(dl);
        assert forall|k: Seq<char>| as_map(s).contains_key(k) implies exists|i: int|
            0 <= i < s.len() && s[i].key@ == k by {
            if k == s.last().key@ {
                assert(s[s.len() - 1].key@ == k);
            } else {
                assert(as_map(dl).contains_key(k));
                let i = choose|i: int| 0 <= i < dl.len() && dl[i].key@ == k;
                assert(dl[i] == s[i]);
                assert(s[i].key@ == k);
            }
        }
        assert forall|k: Seq<char>|
            (exists|i: int| 0 <= i < s.len() && s[i].key@ == k) implies as_map(s).contains_key(
            k,
        ) by {
            let i = choose|i: int| 0 <= i < s.len() && s[i].key@ == k;
            if i < s.len() - 1 {
                assert(dl[i] == s[i]);
                assert(dl[i].key@ == k);
                assert(as_map(dl).contains_key(k));
            }
        }
    }
}

/// With unique keys, each entry decides its key's value in the map.
proof fn lemma_as_map_index(s: Seq<Entry>, i: int)
    requires
        unique_keys(s),
        0 <= i < s.len(),
    ensures
        as_map(s).contains_key(s[i].key@),
        as_map(s)[s[i].key@] == s[i].content@,
    decreases s.len(),
{
    if i == s.len() - 1 {
    } else {
        assert(unique_keys(s.drop_last()));
        assert(s.drop_last()[i] == s[i]);
        lemma_as_map_index(s.drop_last(), i);
        assert(s[i].key@ != s.last().key@);
    }
}

/// With unique keys, the map holds exactly as many keys as there are entries.
proof fn lemma_as_map_dom_len(s: Seq<Entry>)
    requires
        unique_keys(s),
    ensures
        as_map(s).dom().finite(),
        as_map(s).dom().len() == s.len(),
    decreases s.len(),
{
    if s.len() == 0 {
        assert(as_map(s).dom() =~= Set::<Seq<char>>::empty());
    } else {
        let dl = s.drop_last();
        assert(unique_keys(dl));
        lemma_as_map_dom_len(dl);
        lemma_as_map_contains(dl);
        assert(!as_map(dl).contains_key(s.last().key@));
        assert(as_map(s).dom() =~= as_map(dl).dom().insert(s.last().key@));
    }
}

/// Replacing the content of one entry updates that key alone.
proof fn lemma_as_map_update(s: Seq<Entry>, i: int, e: Entry)
    requires
        unique_keys(s),
        0 <= i < s.len(),
        e.key@ == s[i].key@,
    ensures
        as_map(s.update(i, e)) =~= as_map(s).insert(e.key@, e.content@),
    decreases s.len(),
{
    let t = s.update(i, e);
    if i == s.len() - 1 {
        assert(t.drop_last() =~= s.drop_last());
        assert(t.last() == e);
        assert(as_map(s.update(i, e)) =~= as_map(s).insert(e.key@, e.content@));
    } else {
        assert(t.drop_last() =~= s.drop_last().update(i, e));
        assert(t.last() == s.last());
        assert(unique_keys(s.drop_last()));
        assert(s.drop_last()[i] == s[i]);
        lemma_as_map_update(s.drop_last(), i, e);
        assert(e.key@ != s.last().key@);
        assert(as_map(t) =~= as_map(s).insert(e.key@, e.content@));
    }
}

/// Inserting an entry under a fresh key adds that key alone.
proof fn lemma_as_map_insert_at(s: Seq<Entry>, i: int, e: Entry)
    requires
        0 <= i <= s.len(),
        forall|j: int| 0 <= j < s.len() ==> s[j].key@ != e.key@,
    ensures
        as_map(s.insert(i, e)) =~= as_map(s).insert(e.key@, e.content@),
    decreases s.len(),
{
    let t = s.insert(i, e);
    if i == s.len() {
        assert(t.drop_last() =~= s);
        assert(t.last() == e);
    } else {
        assert(t.drop_last() =~= s.drop_last().insert(i, e));
        assert(t.last() == s.last());
        assert(forall|j: int|
            0 <= j < s.drop_last().len() ==> s.drop_last()[j].key@ != e.key@);
        lemma_as_map_insert_at(s.drop_last(), i, e);
        assert(e.key@ != s.last().key@);
        assert(as_map(t) =~= as_map(s).insert(e.key@, e.content@));
    }
}

/// Removing an entry removes that key alone.
proof fn lemma_as_map_remove_at(s: Seq<Entry>, i: int)
    requires
        unique_keys(s),
        0 <= i < s.len(),
    ensures
        as_map(s.remove(i)) =~= as_map(s).remove(s[i].key@),
    decreases s.len(),
{
    let t = s.remove(i);
    if i == s.len() - 1 {
        assert(t =~= s.drop_last());
        lemma_as_map_contains(s.drop_last());
        assert(!as_map(s.drop_last()).contains_key(s[i].key@));
        assert(as_map(t) =~= as_map(s).remove(s[i].key@));
    } else {
        assert(t.drop_last() =~= s.drop_last().remove(i));
        assert(t.last() == s.last());
        assert(unique_keys(s.drop_last()));
        assert(s.drop_last()[i] == s[i]);
        lemma_as_map_remove_at(s.drop_last(), i);
        assert(s[i].key@ != s.last().key@);
        assert(as_map(t) =~= as_map(s).remove(s[i].key@));
    }
}

impl Stash {
    /// The store's internal invariant: entries strictly sorted by key (so
    /// keys are unique) and every stored key well formed.
    pub closed spec fn wf(&self) -> bool {
        &&& strictly_sorted(self.entries@)
        &&& forall|i: int|
            0 <= i < self.entries@.len() ==> is_valid_key(#[trigger] self.entries@[i].key@)
    }

    /// An empty stash.
    pub fn new() -> (stash: Stash)
        ensures
            stash.wf(),
            stash@ == Map::<Seq<char>, Seq<u8>>::empty(),
    {
        Stash { entries: Vec::new() }
    }

    /// The index of the entry holding `key`, if any.
    fn find(&self, key: &str) -> (r: Option<usize>)
        ensures
            match r {
                Some(i) => 0 <= i < self.entries@.len() && self.entries@[i as int].key@ == key@,
                None => forall|i: int|
                    0 <= i < self.entries@.len() ==> self.entries@[i].key@ != key@,
            },
    {
        let n = self.entries.len();
        let mut i: usize = 0;
        while i < n
            invariant
                n == self.entries@.len(),
                0 <= i <= n,
                forall|j: int| 0 <= j < i ==> self.entries@[j].key@ != key@,
            decreases n - i,
        {
            if str_eq(self.entries[i].key.as_str(), key) {
                return Some(i);
            }
            i = i + 1;
        }
        None
    }

    /// Whether an item is stored under `key`.
    pub fn contains_key(&self, key: &str) -> (r: bool)
        ensures
            r == self@.contains_key(key@),
    {
        proof {
            lemma_as_map_contains(self.entries@);
        }
        match self.find(key) {
            Some(_) => true,
            None => false,
        }
    }

    /// Stores `content` under `key`, creating the item or replacing its
    /// content whole. Fails, in this order of precedence and leaving the
    /// stash unchanged, when the key is ill-formed, when overwrites are
    /// forbidden and the key is already present, or when the content
    /// exceeds the size ceiling. On success, returns the number of bytes
    /// stored.
    pub fn push_content(&mut self, key: &str, content: Vec<u8>, prevent_overwrite: bool) -> (r:
        Result<usize, PushError>)
        requires
            old(self).wf(),
        ensures
            final(self).wf(),
            !is_valid_key(key@) ==> r == Err::<usize, PushError>(PushError::IncorrectKeyProvided)
                && final(self)@ == old(self)@,
            is_valid_key(key@) && prevent_overwrite && old(self)@.contains_key(key@) ==> r == Err::<
                usize,
                PushError,
            >(PushError::KeyAlreadyExists) && final(self)@ == old(self)@,
            is_valid_key(key@) && !(prevent_overwrite && old(self)@.contains_key(key@))
                && content@.len() > CONTENT_MAX_BYTES ==> r == Err::<usize, PushError>(
                PushError::ContentTooLarge(content@.len() as usize),
            ) && final(self)@ == old(self)@,
            is_valid_key(key@) && !(prevent_overwrite && old(self)@.contains_key(key@))
                && content@.len() <= CONTENT_MAX_BYTES ==> r == Ok::<usize, PushError>(
                content@.len() as usize,
            ) && final(self)@ == old(self)@.insert(key@, content@),
    {
        proof {
            lemma_as_map_contains(self.entries@);
            lemma_sorted_implies_unique(self.entries@);
        }
        if !validate_key(key) {
            return Err(PushError::IncorrectKeyProvided);
        }
        match self.find(key) {
            Some(i) => {
                if prevent_overwrite {
                    return Err(PushError::KeyAlreadyExists);
                }
                if content.len() > CONTENT_MAX_BYTES {
                    return Err(PushError::ContentTooLarge(content.len()));
                }
                let n = content.len();
                let entry = Entry { key: key.to_owned(), content };
                proof {
                    lemma_as_map_update(self.entries@, i as int, entry);
                }
                self.entries.set(i, entry);
                proof {
                    let s = old(self).entries@;
                    let t = self.entries@;
                    assert forall|a: int, b: int| 0 <= a < b < t.len() implies lex_lt(
                        t[a].key@,
                        t[b].key@,
                    ) by {
                        assert(t[a].key@ == s[a].key@);
                        assert(t[b].key@ == s[b].key@);
                    }
                }
                Ok(n)
            },
            None => {
                if content.len() > CONTENT_MAX_BYTES {
                    return Err(PushError::ContentTooLarge(content.len()));
                }
                let n = content.len();
                let len = self.entries.len();
                let mut p: usize = 0;
                while p < len && str_lex_lt(self.entries[p].key.as_str(), key)
                    invariant
                        len == self.entries@.len(),
                        0 <= p <= len,
                        forall|j: int| 0 <= j < p ==> lex_lt(#[trigger] self.entries@[j].key@, key@),
                    decreases len - p,
                {
                    p = p + 1;
                }
                proof {
                    if p < self.entries@.len() {
                        lemma_lex_lt_total(self.entries@[p as int].key@, key@);
                    }
                }
                let entry = Entry { key: key.to_owned(), content };
                proof {
                    lemma_as_map_insert_at(self.entries@, p as int, entry);
                }
                self.entries.insert(p, entry);
                proof {
                    let s = old(self).entries@;
                    let t = self.entries@;
                    assert forall|a: int, b: int| 0 <= a < b < t.len() implies lex_lt(
                        t[a].key@,
                        t[b].key@,
                    ) by {
                        let pi = p as int;
                        if b < pi {
                            assert(t[a] == s[a] && t[b] == s[b]);
                        } else if a < pi && b == pi {
                            assert(t[a] == s[a]);
                        } else if a < pi && b > pi {
                            assert(t[a] == s[a] && t[b] == s[b - 1]);
                        } else if a == pi {
                            assert(t[b] == s[b - 1]);
                            if b - 1 > pi {
                                lemma_lex_lt_transitive(key@, s[pi].key@, s[b - 1].key@);
                            }
                        } else {
                            assert(t[a] == s[a - 1] && t[b] == s[b - 1]);
                        }
                    }
                    assert forall|i: int| 0 <= i < t.len() implies is_valid_key(
                        #[trigger] t[i].key@,
                    ) by {
                        if i < p as int {
                            assert(t[i] == s[i]);
                        } else if i > p as int {
                            assert(t[i] == s[i - 1]);
                        }
                    }
                }
                Ok(n)
            },
        }
    }

    /// Retrieves the content stored under `key`. Fails with `KeyDoesntExist`,
    /// before any other effect, when the key is absent. Returns no bytes on
    /// the fast path where neither output nor the clipboard needs them
    /// (`no_output` set, `copy_to_clipboard` clear), and the stored content
    /// otherwise. With `pop`, the item is removed.
    pub fn get_content(
        &mut self,
        key: &str,
        no_output: bool,
        copy_to_clipboard: bool,
        pop: bool,
    ) -> (r: Result<Option<Vec<u8>>, GetError>)
        requires
            old(self).wf(),
        ensures
            final(self).wf(),
            !old(self)@.contains_key(key@) ==> r == Err::<Option<Vec<u8>>, GetError>(
                GetError::KeyDoesntExist,
            ) && final(self)@ == old(self)@,
            old(self)@.contains_key(key@) ==> match r {
                Ok(c) => if no_output && !copy_to_clipboard {
                    c is None
                } else {
                    c matches Some(b) && b@ == old(self)@[key@]
                },
                Err(_) => false,
            },
            old(self)@.contains_key(key@) && pop ==> final(self)@ == old(self)@.remove(key@),
            old(self)@.contains_key(key@) && !pop ==> final(self)@ == old(self)@,
    {
        proof {
            lemma_as_map_contains(self.entries@);
            lemma_sorted_implies_unique(self.entries@);
        }
        match self.find(key) {
            None => Err(GetError::KeyDoesntExist),
            Some(i) => {
                let out: Option<Vec<u8>> = if no_output && !copy_to_clipboard {
                    None
                } else {
                    proof {
                        lemma_as_map_index(self.entries@, i as int);
                    }
                    Some(slice_to_vec(self.entries[i].content.as_slice()))
                };
                if pop {
                    self.remove_at(i);
                }
                Ok(out)
            },
        }
    }

    /// Lists every stored key, in strictly ascending lexicographic order:
    /// one key for each item, none missing, none invented.
    pub fn list_content(&self) -> (keys: Vec<String>)
        requires
            self.wf(),
        ensures
            keys@.len() == self@.dom().len(),
            forall|i: int, j: int|
                0 <= i < j < keys@.len() ==> lex_lt(keys@[i]@, keys@[j]@),
            forall|i: int| 0 <= i < keys@.len() ==> self@.contains_key(#[trigger] keys@[i]@),
            forall|k: Seq<char>|
                self@.contains_key(k) ==> exists|i: int| 0 <= i < keys@.len() && keys@[i]@ == k,
    {
        proof {
            lemma_sorted_implies_unique(self.entries@);
            lemma_as_map_dom_len(self.entries@);
            lemma_as_map_contains(self.entries@);
        }
        let n = self.entries.len();
        let mut keys: Vec<String> = Vec::new();
        let mut i: usize = 0;
        while i < n
            invariant
                n == self.entries@.len(),
                0 <= i <= n,
                keys@.len() == i,
                forall|j: int| 0 <= j < i ==> keys@[j]@ == #[trigger] self.entries@[j].key@,
            decreases n - i,
        {
            keys.push(self.entries[i].key.clone());
            i = i + 1;
        }
        proof {
            assert forall|a: int, b: int| 0 <= a < b < keys@.len() implies lex_lt(
                keys@[a]@,
                keys@[b]@,
            ) by {
                assert(keys@[a]@ == self.entries@[a].key@);
                assert(keys@[b]@ == self.entries@[b].key@);
            }
            assert forall|a: int| 0 <= a < keys@.len() implies self@.contains_key(
                #[trigger] keys@[a]@,
            ) by {
                assert(keys@[a]@ == self.entries@[a].key@);
            }
            assert forall|k: Seq<char>| self@.contains_key(k) implies exists|a: int|
                0 <= a < keys@.len() && keys@[a]@ == k by {
                let a = choose|a: int| 0 <= a < self.entries@.len() && self.entries@[a].key@ == k;
                assert(keys@[a]@ == k);
            }
        }
        keys
    }

    /// Removes the entry at `i`, leaving the order intact.
    fn remove_at(&mut self, i: usize)
        requires
            old(self).wf(),
            i < old(self).entries@.len(),
        ensures
            final(self).wf(),
            final(self)@ == old(self)@.remove(old(self).entries@[i as int].key@),
    {
        proof {
            lemma_sorted_implies_unique(self.entries@);
            lemma_as_map_remove_at(self.entries@, i as int);
        }
        self.entries.remove(i);
        proof {
            let s = old(self).entries@;
            let t = self.entries@;
            assert forall|a: int, b: int| 0 <= a < b < t.len() implies lex_lt(
                t[a].key@,
                t[b].key@,
            ) by {
                let ii = i as int;
                if b < ii {
                    assert(t[a] == s[a] && t[b] == s[b]);
                } else if a < ii {
                    assert(t[a] == s[a] && t[b] == s[b + 1]);
                } else {
                    assert(t[a] == s[a + 1] && t[b] == s[b + 1]);
                }
            }
            assert forall|j: int| 0 <= j < t.len() implies is_valid_key(
                #[trigger] t[j].key@,
            ) by {
                if j < i as int {
                    assert(t[j] == s[j]);
                } else {
                    assert(t[j] == s[j + 1]);
                }
            }
        }
    }

    /// Removes the entry holding `key`, if any.
    fn remove_key(&mut self, key: &str)
        requires
            old(self).wf(),
        ensures
            final(self).wf(),
            final(self)@ == old(self)@.remove(key@),
    {
        proof {
            lemma_as_map_contains(self.entries@);
        }
        match self.find(key) {
            None => {
                proof {
                    assert(self@.remove(key@) =~= self@);
                }
            },
            Some(i) => {
                self.remove_at(i);
            },
        }
    }

    /// Removes every requested key, all or nothing. If any requested key is
    /// absent, fails with exactly the absent keys, in request order, and
    /// deletes nothing; otherwise removes them all.
    pub fn delete_content_items(&mut self, keys: &Vec<String>) -> (r: Result<(), DeleteError>)
        requires
            old(self).wf(),
        ensures
            final(self).wf(),
            missing_keys(keys.deep_view(), old(self)@).len() > 0 ==> ({
                &&& r matches Err(DeleteError::KeysDontExist(m)) && m.deep_view() == missing_keys(
                    keys.deep_view(),
                    old(self)@,
                )
                &&& final(self)@ == old(self)@
            }),
            missing_keys(keys.deep_view(), old(self)@).len() == 0 ==> ({
                &&& r == Ok::<(), DeleteError>(())
                &&& final(self)@ == old(self)@.remove_keys(keys.deep_view().to_set())
            }),
    {
        let n = keys.len();
        let mut missing: Vec<String> = Vec::new();
        let mut i: usize = 0;
        while i < n
            invariant
                *self == *old(self),
                self.wf(),
                n == keys@.len(),
                0 <= i <= n,
                missing.deep_view() == missing_keys(
                    keys.deep_view().subrange(0, i as int),
                    old(self)@,
                ),
            decreases n - i,
        {
            let ghost prefix = keys.deep_view().subrange(0, i as int);
            let ghost next = keys.deep_view().subrange(0, i + 1);
            proof {
                assert(next.drop_last() =~= prefix);
                assert(next.last() == keys.deep_view()[i as int]);
                assert(keys@[i as int]@ == keys.deep_view()[i as int]);
            }
            let ghost missing_before = missing.deep_view();
            if !self.contains_key(keys[i].as_str()) {
                missing.push(keys[i].clone());
                proof {
                    assert(missing.deep_view() =~= missing_before.push(
                        keys.deep_view()[i as int],
                    ));
                }
            }
            i = i + 1;
        }
        proof {
            assert(keys.deep_view().subrange(0, n as int) =~= keys.deep_view());
        }
        if missing.len() > 0 {
            return Err(DeleteError::KeysDontExist(missing));
        }
        proof {
            assert(keys.deep_view().subrange(0, 0).to_set() =~= Set::<Seq<char>>::empty());
            assert(old(self)@.remove_keys(Set::<Seq<char>>::empty()) =~= old(self)@);
        }
        let mut j: usize = 0;
        while j < n
            invariant
                self.wf(),
                n == keys@.len(),
                0 <= j <= n,
                self@ == old(self)@.remove_keys(keys.deep_view().subrange(0, j as int).to_set()),
            decreases n - j,
        {
            let ghost before = self@;
            let ghost prefix_set = keys.deep_view().subrange(0, j as int).to_set();
            let ghost k = keys.deep_view()[j as int];
            self.remove_key(keys[j].as_str());
            proof {
                assert(keys@[j as int]@ == k);
                let next = keys.deep_view().subrange(0, j + 1);
                assert(next.drop_last() =~= keys.deep_view().subrange(0, j as int));
                assert(next.last() == k);
                assert forall|x: Seq<char>| next.to_set().contains(x) implies prefix_set.insert(
                    k,
                ).contains(x) by {
                    let idx = choose|idx: int| 0 <= idx < next.len() && next[idx] == x;
                    if idx < next.len() - 1 {
                        assert(keys.deep_view().subrange(0, j as int)[idx] == x);
                    }
                }
                assert forall|x: Seq<char>| prefix_set.insert(k).contains(x) implies
                    next.to_set().contains(x) by {
                    if x == k {
                        assert(next[next.len() - 1] == x);
                    } else {
                        let idx = choose|idx: int|
                            0 <= idx < j && keys.deep_view().subrange(0, j as int)[idx] == x;
                        assert(next[idx] == x);
                    }
                }
                assert(next.to_set() =~= prefix_set.insert(k));
                assert(self@ =~= old(self)@.remove_keys(next.to_set()));
            }
            j = j + 1;
        }
        proof {
            assert(keys.deep_view().subrange(0, n as int) =~= keys.deep_view());
        }
        Ok(())
    }

    /// Wipes the stash whole. With nothing stored, reports so and asks no
    /// confirmation. Otherwise deletion proceeds only when it was waived
    /// (`skip_confirmation`) or the typed line, surrounding whitespace
    /// aside, is exactly `yes`; any other input cancels, deleting nothing.
    /// Reports how many items were deleted.
    pub fn empty_stash(&mut self, skip_confirmation: bool, confirmation_input: Option<&str>) -> (r:
        EmptyOutcome)
        requires
            old(self).wf(),
        ensures
            final(self).wf(),
            old(self)@.dom().len() == 0 ==> r == EmptyOutcome::NothingToDelete && final(self)@
                == old(self)@,
            old(self)@.dom().len() > 0 && empty_confirmed(skip_confirmation, confirmation_input)
                ==> r == EmptyOutcome::Deleted((old(self)@.dom().len() as usize)) && final(self)@
                == Map::<Seq<char>, Seq<u8>>::empty(),
            old(self)@.dom().len() > 0 && !empty_confirmed(skip_confirmation, confirmation_input)
                ==> r == EmptyOutcome::Cancelled && final(self)@ == old(self)@,
    {
        proof {
            lemma_sorted_implies_unique(self.entries@);
            lemma_as_map_dom_len(self.entries@);
        }
        let count = self.entries.len();
        if count == 0 {
            return EmptyOutcome::NothingToDelete;
        }
        let confirmed = skip_confirmation || match confirmation_input {
            Some(line) => confirmation_given(line),
            None => false,
        };
        if confirmed {
            self.entries.clear();
            EmptyOutcome::Deleted(count)
        } else {
            EmptyOutcome::Cancelled
        }
    }

    /// How many items the stash holds.
    pub fn len(&self) -> (n: usize)
        requires
            self.wf(),
        ensures
            n == self@.dom().len(),
    {
        proof {
            lemma_sorted_implies_unique(self.entries@);
            lemma_as_map_dom_len(self.entries@);
        }
        self.entries.len()
    }
}

} // verus!
