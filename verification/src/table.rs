//! The gaiji table: a map from locator keys to the characters they name.
use vstd::prelude::*;
use crate::text::chars_of;

verus! {

/// Whether key `a` sorts before key `b`: at the first position where they
/// differ `a` holds the smaller character, or `a` ends there and `b` goes on.
spec fn key_before(a: Seq<char>, b: Seq<char>) -> bool
    decreases a.len(),
{
    if b.len() == 0 {
        false
    } else if a.len() == 0 {
        true
    } else if a[0] != b[0] {
        a[0] < b[0]
    } else {
        key_before(a.skip(1), b.skip(1))
    }
}

proof fn lemma_key_before_irreflexive(a: Seq<char>)
    ensures
        !key_before(a, a),
    decreases a.len(),
{
    if a.len() > 0 {
        lemma_key_before_irreflexive(a.skip(1));
    }
}

proof fn lemma_key_before_transitive(a: Seq<char>, b: Seq<char>, c: Seq<char>)
    requires
        key_before(a, b),
        key_before(b, c),
    ensures
        key_before(a, c),
    decreases a.len(),
{
    if a.len() > 0 && a[0] == b[0] && b[0] == c[0] {
        lemma_key_before_transitive(a.skip(1), b.skip(1), c.skip(1));
    }
}

enum KeyOrder {
    Before,
    Same,
    After,
}

fn key_order(a: &[char], b: &[char]) -> (r: KeyOrder)
    ensures
        match r {
            KeyOrder::Before => key_before(a@, b@),
            KeyOrder::Same => a@ == b@,
            KeyOrder::After => key_before(b@, a@),
        },
{
    let mut i: usize = 0;
    proof {
        assert(a@.skip(0) =~= a@);
        assert(b@.skip(0) =~= b@);
    }
    while i < a.len() && i < b.len()
        invariant
            i <= a@.len(),
            i <= b@.len(),
            a@.take(i as int) == b@.take(i as int),
            key_before(a@, b@) == key_before(a@.skip(i as int), b@.skip(i as int)),
            key_before(b@, a@) == key_before(b@.skip(i as int), a@.skip(i as int)),
        decreases a@.len() - i,
    {
        proof {
            assert(a@.skip(i as int).skip(1) =~= a@.skip(i + 1));
            assert(b@.skip(i as int).skip(1) =~= b@.skip(i + 1));
            assert(a@.skip(i as int)[0] == a@[i as int]);
            assert(b@.skip(i as int)[0] == b@[i as int]);
        }
        if a[i] < b[i] {
            return KeyOrder::Before;
        } else if a[i] > b[i] {
            return KeyOrder::After;
        }
        proof {
            assert(a@.take(i + 1) =~= a@.take(i as int).push(a@[i as int]));
            assert(b@.take(i + 1) =~= b@.take(i as int).push(b@[i as int]));
        }
        i += 1;
    }
    if i < b.len() {
        KeyOrder::Before
    } else if i < a.len() {
        KeyOrder::After
    } else {
        proof {
            assert(a@.take(i as int) =~= a@);
            assert(b@.take(i as int) =~= b@);
        }
        KeyOrder::Same
    }
}

/// One line of the table: a locator key and the character it names.
struct Entry {
    key: Vec<char>,
    value: char,
}

/// Whether the keys of `entries` rise strictly from one entry to the next.
spec fn keys_rise(entries: Seq<Entry>) -> bool {
    forall|i: int, j: int|
        0 <= i < j < entries.len() ==> key_before(
            (#[trigger] entries[i]).key@,
            (#[trigger] entries[j]).key@,
        )
}

/// Whether some entry of `entries` holds `key`.
spec fn holds_key(entries: Seq<Entry>, key: Seq<char>) -> bool {
    exists|i: int| 0 <= i < entries.len() && (#[trigger] entries[i]).key@ == key
}

/// The index of an entry that holds `key`.
spec fn index_of_key(entries: Seq<Entry>, key: Seq<char>) -> int {
    choose|i: int| 0 <= i < entries.len() && (#[trigger] entries[i]).key@ == key
}

/// The map that `entries` stand for.
spec fn entries_map(entries: Seq<Entry>) -> Map<Seq<char>, char> {
    Map::new(
        |key: Seq<char>| holds_key(entries, key),
        |key: Seq<char>| entries[index_of_key(entries, key)].value,
    )
}

proof fn lemma_entry_in_map(entries: Seq<Entry>, i: int)
    requires
        keys_rise(entries),
        0 <= i < entries.len(),
    ensures
        entries_map(entries).contains_key(entries[i].key@),
        entries_map(entries)[entries[i].key@] == entries[i].value,
{
    let key = entries[i].key@;
    let j = index_of_key(entries, key);
    lemma_key_before_irreflexive(key);
    if j < i {
        assert(key_before(entries[j].key@, entries[i].key@));
    } else if i < j {
        assert(key_before(entries[i].key@, entries[j].key@));
    }
}

proof fn lemma_entries_counted(entries: Seq<Entry>)
    requires
        keys_rise(entries),
    ensures
        entries_map(entries).dom().finite(),
        entries_map(entries).dom().len() == entries.len(),
    decreases entries.len(),
{
    if entries.len() == 0 {
        assert(entries_map(entries).dom() =~= Set::<Seq<char>>::empty());
    } else {
        let front = entries.drop_last();
        let last = entries.last().key@;
        assert forall|i: int, j: int| 0 <= i < j < front.len() implies key_before(
            (#[trigger] front[i]).key@,
            (#[trigger] front[j]).key@,
        ) by {
            assert(key_before(entries[i].key@, entries[j].key@));
        }
        lemma_entries_counted(front);
        lemma_key_before_irreflexive(last);
        if holds_key(front, last) {
            let i = index_of_key(front, last);
            assert(key_before(entries[i].key@, entries[entries.len() - 1].key@));
        }
        assert forall|key: Seq<char>|
            entries_map(entries).dom().contains(key) <==> entries_map(front).dom().insert(
                last,
            ).contains(key) by {
            if holds_key(entries, key) {
                let i = index_of_key(entries, key);
                if i < front.len() {
                    assert(front[i].key@ == key);
                }
            }
            if holds_key(front, key) {
                let i = index_of_key(front, key);
                assert(entries[i].key@ == key);
            }
            if key == last {
                assert(entries[entries.len() - 1].key@ == key);
            }
        }
        assert(entries_map(entries).dom() =~= entries_map(front).dom().insert(last));
    }
}

/// Where a key stands among sorted entries.
enum Slot {
    /// The entry at this index holds the key.
    At(usize),
    /// No entry holds the key; it belongs before this index.
    Gap(usize),
}

fn find_slot(entries: &Vec<Entry>, key: &[char]) -> (slot: Slot)
    requires
        keys_rise(entries@),
    ensures
        match slot {
            Slot::At(i) => i < entries@.len() && entries@[i as int].key@ == key@,
            Slot::Gap(i) => {
                &&& i <= entries@.len()
                &&& !holds_key(entries@, key@)
                &&& forall|k: int| 0 <= k < i ==> key_before((#[trigger] entries@[k]).key@, key@)
                &&& forall|k: int|
                    i <= k < entries@.len() ==> key_before(key@, (#[trigger] entries@[k]).key@)
            },
        },
{
    let mut low: usize = 0;
    let mut high: usize = entries.len();
    while low < high
        invariant
            keys_rise(entries@),
            low <= high <= entries@.len(),
            forall|k: int| 0 <= k < low ==> key_before((#[trigger] entries@[k]).key@, key@),
            forall|k: int|
                high <= k < entries@.len() ==> key_before(key@, (#[trigger] entries@[k]).key@),
        decreases high - low,
    {
        let mid = low + (high - low) / 2;
        match key_order(entries[mid].key.as_slice(), key) {
            KeyOrder::Before => {
                proof {
                    assert forall|k: int| 0 <= k < mid + 1 implies key_before(
                        (#[trigger] entries@[k]).key@,
                        key@,
                    ) by {
                        if k < mid {
                            assert(key_before(entries@[k].key@, entries@[mid as int].key@));
                            lemma_key_before_transitive(
                                entries@[k].key@,
                                entries@[mid as int].key@,
                                key@,
                            );
                        }
                    }
                }
                low = mid + 1;
            },
            KeyOrder::Same => {
                return Slot::At(mid);
            },
            KeyOrder::After => {
                proof {
                    assert forall|k: int| mid <= k < entries@.len() implies key_before(
                        key@,
                        (#[trigger] entries@[k]).key@,
                    ) by {
                        if mid < k {
                            assert(key_before(entries@[mid as int].key@, entries@[k].key@));
                            lemma_key_before_transitive(
                                key@,
                                entries@[mid as int].key@,
                                entries@[k].key@,
                            );
                        }
                    }
                }
                high = mid;
            },
        }
    }
    proof {
        lemma_key_before_irreflexive(key@);
        if holds_key(entries@, key@) {
            let k = index_of_key(entries@, key@);
            if k < low {
                assert(key_before(entries@[k].key@, key@));
            } else {
                assert(key_before(key@, entries@[k].key@));
            }
        }
    }
    Slot::Gap(low)
}

/// The gaiji table. Each key is a locator such as `3-2121`; each value is
/// the one character that the locator names. No key occurs twice.
pub struct GaijiTable {
    entries: Vec<Entry>,
}

impl View for GaijiTable {
    type V = Map<Seq<char>, char>;

    closed spec fn view(&self) -> Map<Seq<char>, char> {
        entries_map(self.entries@)
    }
}

impl GaijiTable {
    #[verifier::type_invariant]
    spec fn sorted(self) -> bool {
        keys_rise(self.entries@)
    }

    /// A table without entries.
    pub fn new() -> (table: Self)
        ensures
            table@ == Map::<Seq<char>, char>::empty(),
    {
        let table = GaijiTable { entries: Vec::new() };
        assert(table@ =~= Map::<Seq<char>, char>::empty());
        table
    }

    /// The number of keys in the table.
    pub fn len(&self) -> (n: usize)
        ensures
            self@.dom().finite(),
            n == self@.len(),
    {
        proof {
            use_type_invariant(self);
            lemma_entries_counted(self.entries@);
        }
        self.entries.len()
    }

    /// Whether the table holds no key.
    pub fn is_empty(&self) -> (empty: bool)
        ensures
            self@.dom().finite(),
            empty == (self@.len() == 0),
    {
        self.len() == 0
    }

    /// Maps `key` to `value`. An earlier value of the same key is replaced.
    pub fn insert(&mut self, key: Vec<char>, value: char)
        ensures
            final(self)@ == old(self)@.insert(key@, value),
    {
        proof {
            use_type_invariant(&*self);
        }
        let mut entries: Vec<Entry> = Vec::new();
        std::mem::swap(&mut entries, &mut self.entries);
        let ghost before = entries@;
        let ghost key_view = key@;
        match find_slot(&entries, key.as_slice()) {
            Slot::At(i) => {
                entries.set(i, Entry { key, value });
                proof {
                    let after = entries@;
                    assert forall|a: int, b: int| 0 <= a < b < after.len() implies key_before(
                        (#[trigger] after[a]).key@,
                        (#[trigger] after[b]).key@,
                    ) by {
                        assert(key_before(before[a].key@, before[b].key@));
                    }
                    assert forall|k: Seq<char>|
                        entries_map(after).contains_key(k) <==> entries_map(before).insert(
                            key_view,
                            value,
                        ).contains_key(k) by {
                        if holds_key(after, k) {
                            let j = index_of_key(after, k);
                            assert(before[j].key@ == k);
                        }
                        if holds_key(before, k) {
                            let j = index_of_key(before, k);
                            assert(after[j].key@ == k);
                        }
                        if k == key_view {
                            assert(after[i as int].key@ == k);
                        }
                    }
                    assert forall|k: Seq<char>| entries_map(after).contains_key(k) implies (
                    #[trigger] entries_map(after)[k]) == entries_map(before).insert(
                        key_view,
                        value,
                    )[k] by {
                        if k == key_view {
                            lemma_entry_in_map(after, i as int);
                        } else {
                            let j = index_of_key(after, k);
                            lemma_entry_in_map(after, j);
                            lemma_entry_in_map(before, j);
                        }
                    }
                    assert(entries_map(after) =~= entries_map(before).insert(key_view, value));
                }
            },
            Slot::Gap(i) => {
                entries.insert(i, Entry { key, value });
                proof {
                    let after = entries@;
                    assert forall|a: int, b: int| 0 <= a < b < after.len() implies key_before(
                        (#[trigger] after[a]).key@,
                        (#[trigger] after[b]).key@,
                    ) by {
                        if b < i {
                            assert(key_before(before[a].key@, before[b].key@));
                        } else if b == i {
                            assert(key_before(before[a].key@, key_view));
                        } else if a < i {
                            assert(key_before(before[a].key@, before[b - 1].key@));
                        } else if a == i {
                            assert(key_before(key_view, before[b - 1].key@));
                        } else {
                            assert(key_before(before[a - 1].key@, before[b - 1].key@));
                        }
                    }
                    assert forall|k: Seq<char>|
                        entries_map(after).contains_key(k) <==> entries_map(before).insert(
                            key_view,
                            value,
                        ).contains_key(k) by {
                        if holds_key(after, k) {
                            let j = index_of_key(after, k);
                            if j < i {
                                assert(before[j].key@ == k);
                            } else if j > i {
                                assert(before[j - 1].key@ == k);
                            }
                        }
                        if holds_key(before, k) {
                            let j = index_of_key(before, k);
                            if j < i {
                                assert(after[j].key@ == k);
                            } else {
                                assert(after[j + 1].key@ == k);
                            }
                        }
                        if k == key_view {
                            assert(after[i as int].key@ == k);
                        }
                    }
                    assert forall|k: Seq<char>| entries_map(after).contains_key(k) implies (
                    #[trigger] entries_map(after)[k]) == entries_map(before).insert(
                        key_view,
                        value,
                    )[k] by {
                        if k == key_view {
                            lemma_entry_in_map(after, i as int);
                        } else {
                            let j = index_of_key(after, k);
                            lemma_entry_in_map(after, j);
                            if j < i {
                                lemma_entry_in_map(before, j);
                            } else {
                                lemma_entry_in_map(before, j - 1);
                            }
                        }
                    }
                    assert(entries_map(after) =~= entries_map(before).insert(key_view, value));
                }
            },
        }
        self.entries = entries;
    }

    /// The character that the key `key` names, if the table holds the key.
    pub fn get_str(&self, key: &str) -> (value: Option<char>)
        ensures
            value == if self@.contains_key(key@) {
                Some(self@[key@])
            } else {
                None
            },
    {
        let chars = chars_of(key);
        self.get(chars.as_slice())
    }

    /// The character that `key` names, if the table holds the key.
    pub fn get(&self, key: &[char]) -> (value: Option<char>)
        ensures
            value == if self@.contains_key(key@) {
                Some(self@[key@])
            } else {
                None
            },
    {
        proof {
            use_type_invariant(self);
        }
        match find_slot(&self.entries, key) {
            Slot::At(i) => {
                proof {
                    lemma_entry_in_map(self.entries@, i as int);
                }
                Some(self.entries[i].value)
            },
            Slot::Gap(_) => None,
        }
    }
}

} // verus!
