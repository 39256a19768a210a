//! Hashing collections with keys whose hash and equality can change while
//! the keys are stored.
//!
//! A [`Key`] carries a fixed index, a mutable hash and a mutable equality
//! mask: a probe key considers a stored key equal exactly when the stored
//! key's index has a bit in common with the probe's mask ([`key_matches`]).
//! [`Collections`] holds a fixed table of 256 keys, a set and a dictionary
//! keyed by them, and [`Collections::run`] drives both through a script of
//! [`Operation`]s.  Lookups ask the probe key against the stored members in
//! insertion order; because the mask and hash can be rewritten between
//! operations, the same script can make the same key enter the set twice or
//! become unfindable — the contracts pin down exactly what each operation
//! does to the stored members.

use vstd::prelude::*;

verus! {

/// What a key is, to specifications.
pub ghost struct KeyView {
    pub index: u8,
    pub hash: usize,
    pub equal_to_mask: u8,
}

/// The probe key `a` considers the stored key `b` equal: `b`'s index has a
/// bit in common with `a`'s equality mask.
pub open spec fn key_matches(a: KeyView, b: KeyView) -> bool {
    (b.index & a.equal_to_mask) != 0
}

/// A collection key: a fixed index, plus a hash and an equality mask that can
/// be rewritten while the key sits inside a collection.
pub struct Key {
    index: u8,
    hash: usize,
    equal_to_mask: u8,
}

impl View for Key {
    type V = KeyView;

    closed spec fn view(&self) -> KeyView {
        KeyView { index: self.index, hash: self.hash, equal_to_mask: self.equal_to_mask }
    }
}

impl Key {
    /// A key with the given index, hash `0` and an empty equality mask.
    pub fn new(index: u8) -> (k: Key)
        ensures
            k@ == (KeyView { index, hash: 0, equal_to_mask: 0 }),
    {
        Key { index, hash: 0, equal_to_mask: 0 }
    }

    /// Whether this key, used as a probe, considers `other` equal.
    pub fn is_equal(&self, other: &Key) -> (r: bool)
        ensures
            r == key_matches(self@, other@),
    {
        (other.index & self.equal_to_mask) != 0
    }

    /// The key's current hash value.
    pub fn hash_(&self) -> (h: usize)
        ensures
            h == self@.hash,
    {
        self.hash
    }

    /// Rewrite the key's hash value, possibly while it is stored.
    pub fn set_hash(&mut self, hash: usize)
        ensures
            final(self)@ == (KeyView { hash, ..old(self)@ }),
    {
        self.hash = hash;
    }

    /// Rewrite which indices this key's probes consider equal.
    pub fn set_equal_to_mask(&mut self, equal_to_mask: u8)
        ensures
            final(self)@ == (KeyView { equal_to_mask, ..old(self)@ }),
    {
        self.equal_to_mask = equal_to_mask;
    }

    /// Read the fields a collection touches when it visits the key.
    pub fn validate(&self) -> (r: (u8, usize))
        ensures
            r.0 == self@.index,
            r.1 == self@.hash,
    {
        (self.index, self.hash)
    }
}

/// One scripted operation on the set and the dictionary.
#[derive(Clone, Copy, Debug)]
pub enum Operation {
    /// Observe how many members each collection holds.
    Count,
    /// Look the key up in both collections.
    Get(u8),
    /// Visit every stored member.
    Enumerate,
    /// Insert the key into both collections (kept out if a member already
    /// matches).
    Add(u8),
    /// Remove the first matching member from both collections.
    Remove(u8),
    /// Rewrite the key's hash value.
    SetHash(u8, usize),
    /// Rewrite the key's equality mask.
    SetEqualToMask(u8, u8),
}

/// The first member (from the front) that the probe key considers equal,
/// searching from position `i` on.
pub open spec fn find_first(keys: Seq<KeyView>, members: Seq<u8>, probe: u8, i: int) -> Option<
    int,
>
    decreases members.len() - i,
{
    if i < 0 || i >= members.len() {
        None
    } else if key_matches(keys[probe as int], keys[members[i] as int]) {
        Some(i)
    } else {
        find_first(keys, members, probe, i + 1)
    }
}

/// The position of the first member the probe key considers equal, if any.
pub open spec fn member_index(keys: Seq<KeyView>, members: Seq<u8>, probe: u8) -> Option<int> {
    find_first(keys, members, probe, 0)
}

/// The first matching member itself, if any.
pub open spec fn lookup(keys: Seq<KeyView>, members: Seq<u8>, probe: u8) -> Option<u8> {
    match member_index(keys, members, probe) {
        Some(i) => Some(members[i]),
        None => None,
    }
}

/// What the collections are, to specifications: the key table and the members
/// of the set and of the dictionary, in insertion order.
pub ghost struct CollectionsView {
    pub keys: Seq<KeyView>,
    pub set: Seq<u8>,
    pub dict: Seq<u8>,
}

impl CollectionsView {
    /// The key table always holds one key per possible index.
    pub open spec fn wf(self) -> bool {
        self.keys.len() == 256
    }
}

/// The key table as it starts: key `i` at position `i`, hash `0`, empty mask.
pub open spec fn initial_keys() -> Seq<KeyView> {
    Seq::new(256, |i: int| KeyView { index: i as u8, hash: 0, equal_to_mask: 0 })
}

/// The collections as they start: the initial key table, nothing stored.
pub open spec fn initial_collections() -> CollectionsView {
    CollectionsView { keys: initial_keys(), set: Seq::empty(), dict: Seq::empty() }
}

/// What one operation does to the stored state.  The observing operations
/// change nothing; insertion keeps an already-matched key out; removal takes
/// the first matching member; the rewrites change only the key table.
pub open spec fn step(s: CollectionsView, op: Operation) -> CollectionsView {
    match op {
        Operation::Count => s,
        Operation::Get(_) => s,
        Operation::Enumerate => s,
        Operation::Add(idx) => CollectionsView {
            set: if member_index(s.keys, s.set, idx) is Some {
                s.set
            } else {
                s.set.push(idx)
            },
            dict: if member_index(s.keys, s.dict, idx) is Some {
                s.dict
            } else {
                s.dict.push(idx)
            },
            ..s
        },
        Operation::Remove(idx) => CollectionsView {
            set: match member_index(s.keys, s.set, idx) {
                Some(i) => s.set.remove(i),
                None => s.set,
            },
            dict: match member_index(s.keys, s.dict, idx) {
                Some(i) => s.dict.remove(i),
                None => s.dict,
            },
            ..s
        },
        Operation::SetHash(idx, hash) => CollectionsView {
            keys: s.keys.update(idx as int, KeyView { hash, ..s.keys[idx as int] }),
            ..s
        },
        Operation::SetEqualToMask(idx, equal_to_mask) => CollectionsView {
            keys: s.keys.update(idx as int, KeyView { equal_to_mask, ..s.keys[idx as int] }),
            ..s
        },
    }
}

/// The state after a whole script, first operation first.
pub open spec fn run_spec(s: CollectionsView, ops: Seq<Operation>) -> CollectionsView
    decreases ops.len(),
{
    if ops.len() == 0 {
        s
    } else {
        step(run_spec(s, ops.drop_last()), ops.last())
    }
}

/// A set and a dictionary over one table of 256 rewritable keys.
pub struct Collections {
    keys: Vec<Key>,
    set: Vec<u8>,
    dict: Vec<u8>,
}

impl View for Collections {
    type V = CollectionsView;

    closed spec fn view(&self) -> CollectionsView {
        CollectionsView {
            keys: self.keys@.map_values(|k: Key| k@),
            set: self.set@,
            dict: self.dict@,
        }
    }
}

/// Searching from the front never changes the answer when the skipped prefix
/// holds no match.
proof fn lemma_find_first_skip(keys: Seq<KeyView>, members: Seq<u8>, probe: u8, j: int)
    requires
        0 <= j <= members.len(),
        forall|k: int|
            0 <= k < j ==> !key_matches(keys[probe as int], keys[(#[trigger] members[k]) as int]),
    ensures
        find_first(keys, members, probe, 0) == find_first(keys, members, probe, j),
    decreases j,
{
    if j > 0 {
        lemma_find_first_skip(keys, members, probe, j - 1);
    }
}

/// Look up the first member of `members` that the probe key considers equal.
fn find_member(keys: &Vec<Key>, members: &Vec<u8>, probe: u8) -> (r: Option<usize>)
    requires
        keys@.len() == 256,
    ensures
        match r {
            Some(j) => j < members@.len() && member_index(
                keys@.map_values(|k: Key| k@),
                members@,
                probe,
            ) == Some(j as int),
            None => member_index(keys@.map_values(|k: Key| k@), members@, probe) is None,
        },
{
    let ghost keysv = keys@.map_values(|k: Key| k@);
    let n = members.len();
    let mut j: usize = 0;
    while j < n
        invariant
            j <= n,
            n == members@.len(),
            keys@.len() == 256,
            keysv == keys@.map_values(|k: Key| k@),
            forall|k: int|
                0 <= k < j ==> !key_matches(keysv[probe as int], keysv[(#[trigger] members@[k]) as int]),
        decreases n - j,
    {
        let member = members[j];
        if keys[probe as usize].is_equal(&keys[member as usize]) {
            proof {
                lemma_find_first_skip(keysv, members@, probe, j as int);
            }
            return Some(j);
        }
        j = j + 1;
    }
    proof {
        lemma_find_first_skip(keysv, members@, probe, n as int);
    }
    None
}

impl Collections {
    /// Fresh collections: one key per index, both collections empty.
    pub fn new() -> (c: Collections)
        ensures
            c@ == initial_collections(),
            c@.wf(),
    {
        let mut keys: Vec<Key> = Vec::new();
        let mut i: usize = 0;
        while i < 256
            invariant
                i <= 256,
                keys@.len() == i,
                forall|k: int|
                    0 <= k < i ==> (#[trigger] keys@[k])@ == (KeyView {
                        index: k as u8,
                        hash: 0,
                        equal_to_mask: 0,
                    }),
            decreases 256 - i,
        {
            keys.push(Key::new(i as u8));
            i = i + 1;
        }
        let c = Collections { keys, set: Vec::new(), dict: Vec::new() };
        proof {
            assert(c@.keys =~= initial_keys());
            assert(c@ == initial_collections());
        }
        c
    }

    /// How many members the set and the dictionary hold.
    pub fn count(&self) -> (r: (usize, usize))
        ensures
            r.0 == self@.set.len(),
            r.1 == self@.dict.len(),
    {
        (self.set.len(), self.dict.len())
    }

    /// The first set member the probe key considers equal, if any.
    pub fn member(&self, idx: u8) -> (r: Option<u8>)
        requires
            self@.wf(),
        ensures
            r == lookup(self@.keys, self@.set, idx),
    {
        match find_member(&self.keys, &self.set, idx) {
            Some(j) => Some(self.set[j]),
            None => None,
        }
    }

    /// The first dictionary key the probe key considers equal, if any.
    pub fn object_for_key(&self, idx: u8) -> (r: Option<u8>)
        requires
            self@.wf(),
        ensures
            r == lookup(self@.keys, self@.dict, idx),
    {
        match find_member(&self.keys, &self.dict, idx) {
            Some(j) => Some(self.dict[j]),
            None => None,
        }
    }

    /// Apply one operation.
    pub fn apply(&mut self, op: &Operation)
        requires
            old(self)@.wf(),
        ensures
            final(self)@ == step(old(self)@, *op),
            final(self)@.wf(),
    {
        let ghost pre = self@;
        match op {
            Operation::Count => {
                let _counts = self.count();
            },
            Operation::Get(idx) => {
                let _in_set = self.member(*idx);
                let _in_dict = self.object_for_key(*idx);
            },
            Operation::Enumerate => {
                let n = self.set.len();
                let mut j: usize = 0;
                while j < n
                    invariant
                        j <= n,
                        n == self.set@.len(),
                        self@ == pre,
                        pre.wf(),
                    decreases n - j,
                {
                    let member = self.set[j];
                    let _seen = self.keys[member as usize].validate();
                    j = j + 1;
                }
            },
            Operation::Add(idx) => {
                if find_member(&self.keys, &self.set, *idx).is_none() {
                    self.set.push(*idx);
                }
                if find_member(&self.keys, &self.dict, *idx).is_none() {
                    self.dict.push(*idx);
                }
            },
            Operation::Remove(idx) => {
                match find_member(&self.keys, &self.set, *idx) {
                    Some(j) => {
                        self.set.remove(j);
                    },
                    None => {},
                }
                match find_member(&self.keys, &self.dict, *idx) {
                    Some(j) => {
                        self.dict.remove(j);
                    },
                    None => {},
                }
            },
            Operation::SetHash(idx, hash) => {
                let key = &mut self.keys[*idx as usize];
                key.set_hash(*hash);
                proof {
                    assert(self@.keys =~= pre.keys.update(
                        *idx as int,
                        KeyView { hash: *hash, ..pre.keys[*idx as int] },
                    ));
                }
            },
            Operation::SetEqualToMask(idx, equal_to_mask) => {
                let key = &mut self.keys[*idx as usize];
                key.set_equal_to_mask(*equal_to_mask);
                proof {
                    assert(self@.keys =~= pre.keys.update(
                        *idx as int,
                        KeyView { equal_to_mask: *equal_to_mask, ..pre.keys[*idx as int] },
                    ));
                }
            },
        }
    }

    /// Drive fresh collections through a whole script and hand back the final
    /// state.
    pub fn run(ops: &Vec<Operation>) -> (c: Collections)
        ensures
            c@ == run_spec(initial_collections(), ops@),
            c@.wf(),
    {
        let mut c = Collections::new();
        let n = ops.len();
        let mut i: usize = 0;
        while i < n
            invariant
                i <= n,
                n == ops@.len(),
                c@ == run_spec(initial_collections(), ops@.take(i as int)),
                c@.wf(),
            decreases n - i,
        {
            c.apply(&ops[i]);
            i = i + 1;
            proof {
                let t = ops@.take(i as int);
                assert(t.drop_last() =~= ops@.take(i as int - 1));
                assert(t.last() == ops@[i as int - 1]);
            }
        }
        proof {
            assert(ops@.take(n as int) =~= ops@);
        }
        c
    }
}

} // verus!
