//! The buffer of message keys that were skipped because their messages have
//! not arrived yet.
use crate::bytes;
use vstd::prelude::*;

verus! {

/// A chain key.
#[derive(Clone)]
pub struct ChainKey(pub [u8; 32]);

/// The key of one message.
#[derive(Clone)]
pub struct MessageKey(pub [u8; 32]);

/// Names a skipped message key: two indices are the same where the ratchet key
/// and the message number are; `stored_at` is not part of the name.
#[derive(Clone)]
pub struct SkippedKeyIndex {
    pub dh_ratchet_pub: [u8; 32],
    pub msg_num: u64,
    /// Messages received in all when the key was stored, for its expiry.
    pub stored_at: u64,
}

/// What the buffer holds under a name.
#[verifier::ext_equal]
pub struct SkippedEntry {
    pub key: Seq<u8>,
    pub stored_at: u64,
}

/// The name of a skipped key: the sender's ratchet key and the number of the
/// message.
pub type SkippedName = (Seq<u8>, u64);

/// The skipped message keys, each under its own name.
pub struct SkippedKeys {
    entries: Vec<(SkippedKeyIndex, MessageKey)>,
}

pub open spec fn entry_name(e: (SkippedKeyIndex, MessageKey)) -> SkippedName {
    (e.0.dh_ratchet_pub@, e.0.msg_num)
}

pub open spec fn entry_value(e: (SkippedKeyIndex, MessageKey)) -> SkippedEntry {
    SkippedEntry { key: e.1.0@, stored_at: e.0.stored_at }
}

/// No two entries have the same name.
pub open spec fn names_differ(s: Seq<(SkippedKeyIndex, MessageKey)>) -> bool {
    forall|i: int, j: int|
        0 <= i < j < s.len() ==> #[trigger] entry_name(s[i]) != #[trigger] entry_name(s[j])
}

spec fn holds(s: Seq<(SkippedKeyIndex, MessageKey)>, k: SkippedName, i: int) -> bool {
    0 <= i < s.len() && entry_name(s[i]) == k
}

/// The entries as a map from names.
pub closed spec fn entries_map(s: Seq<(SkippedKeyIndex, MessageKey)>) -> Map<
    SkippedName,
    SkippedEntry,
> {
    Map::new(
        |k: SkippedName| exists|i: int| holds(s, k, i),
        |k: SkippedName| entry_value(s[choose|i: int| holds(s, k, i)]),
    )
}

proof fn lemma_entry(s: Seq<(SkippedKeyIndex, MessageKey)>, i: int)
    requires
        names_differ(s),
        0 <= i < s.len(),
    ensures
        entries_map(s).dom().contains(entry_name(s[i])),
        entries_map(s)[entry_name(s[i])] == entry_value(s[i]),
{
    let k = entry_name(s[i]);
    assert(holds(s, k, i));
    let j = choose|j: int| holds(s, k, j);
    assert(holds(s, k, j));
    if i < j {
        assert(entry_name(s[i]) != entry_name(s[j]));
    } else if j < i {
        assert(entry_name(s[j]) != entry_name(s[i]));
    }
}

proof fn lemma_named(s: Seq<(SkippedKeyIndex, MessageKey)>, k: SkippedName) -> (i: int)
    requires
        entries_map(s).dom().contains(k),
    ensures
        holds(s, k, i),
{
    choose|i: int| holds(s, k, i)
}

/// Buffering under a name that is there already replaces the key and leaves
/// the time of storing.
pub open spec fn buffered(
    m: Map<SkippedName, SkippedEntry>,
    k: SkippedName,
    key: Seq<u8>,
    at: u64,
) -> Map<SkippedName, SkippedEntry> {
    m.insert(
        k,
        SkippedEntry {
            key,
            stored_at: if m.dom().contains(k) {
                m[k].stored_at
            } else {
                at
            },
        },
    )
}

/// What is left of the buffer once everything stored before `cutoff` is
/// dropped.
pub open spec fn kept(m: Map<SkippedName, SkippedEntry>, cutoff: u64) -> Map<
    SkippedName,
    SkippedEntry,
> {
    m.restrict(Set::new(|k: SkippedName| m.dom().contains(k) && m[k].stored_at >= cutoff))
}

/// Whether no more than `room` keys are left once everything stored before
/// `cutoff` is dropped.
pub open spec fn fits_from(m: Map<SkippedName, SkippedEntry>, room: nat, cutoff: u64) -> bool {
    kept(m, cutoff).dom().len() <= room
}

/// The earliest cutoff that leaves no more than `room` keys.
pub open spec fn least_cutoff(m: Map<SkippedName, SkippedEntry>, room: nat, cutoff: u64) -> bool {
    fits_from(m, room, cutoff) && forall|d: u64| d < cutoff ==> !#[trigger] fits_from(m, room, d)
}

/// The buffer once the oldest keys have given way, so that no more than `room`
/// are left. Keys that were stored together go together.
pub open spec fn trimmed(m: Map<SkippedName, SkippedEntry>, room: nat) -> Map<
    SkippedName,
    SkippedEntry,
> {
    if exists|c: u64| least_cutoff(m, room, c) {
        kept(m, choose|c: u64| least_cutoff(m, room, c))
    } else {
        Map::empty()
    }
}

/// Dropping old keys leaves no more than there were.
pub proof fn lemma_kept(m: Map<SkippedName, SkippedEntry>, cutoff: u64)
    requires
        m.dom().finite(),
    ensures
        kept(m, cutoff).dom().finite(),
        kept(m, cutoff).dom().len() <= m.dom().len(),
        forall|k: SkippedName| #[trigger]
            kept(m, cutoff).dom().contains(k) <==> m.dom().contains(k) && m[k].stored_at >= cutoff,
{
    assert(kept(m, cutoff).dom().subset_of(m.dom()));
    vstd::set_lib::lemma_len_subset(kept(m, cutoff).dom(), m.dom());
}

/// A trimmed buffer is a part of the buffer that leaves room; where there is
/// room already, it is the whole.
pub proof fn lemma_trimmed(m: Map<SkippedName, SkippedEntry>, room: nat)
    requires
        m.dom().finite(),
    ensures
        trimmed(m, room).dom().finite(),
        trimmed(m, room).dom().len() <= room,
        m.dom().len() <= room ==> trimmed(m, room) == m,
        forall|k: SkippedName| #[trigger]
            trimmed(m, room).dom().contains(k) ==> m.dom().contains(k) && trimmed(m, room)[k]
                == m[k],
{
    if exists|c: u64| least_cutoff(m, room, c) {
        lemma_kept(m, choose|c: u64| least_cutoff(m, room, c));
    }
    if m.dom().len() <= room {
        assert(kept(m, 0) =~= m);
        assert(least_cutoff(m, room, 0));
        let c = choose|c: u64| least_cutoff(m, room, c);
        assert(least_cutoff(m, room, c));
        assert(fits_from(m, room, 0));
        assert(c == 0);
    }
}

/// There are as many names as entries.
proof fn lemma_count(s: Seq<(SkippedKeyIndex, MessageKey)>)
    requires
        names_differ(s),
    ensures
        entries_map(s).dom().finite(),
        entries_map(s).dom().len() == s.len(),
    decreases s.len(),
{
    if s.len() == 0 {
        lemma_no_entries(s);
    } else {
        let i = s.len() - 1;
        let k = entry_name(s[i]);
        lemma_removed(s, i);
        lemma_entry(s, i);
        lemma_count(s.remove(i));
        assert(entries_map(s).dom() =~= entries_map(s.remove(i)).dom().insert(k));
    }
}

impl View for SkippedKeys {
    type V = Map<SkippedName, SkippedEntry>;

    closed spec fn view(&self) -> Map<SkippedName, SkippedEntry> {
        entries_map(self.entries@)
    }
}

impl SkippedKeys {
    /// Every name occurs once.
    pub closed spec fn wf(&self) -> bool {
        names_differ(self.entries@)
    }

    /// The entries, in the order they are kept in.
    pub closed spec fn listed(&self) -> Seq<(SkippedKeyIndex, MessageKey)> {
        self.entries@
    }

    /// The listing holds what the buffer holds, each name once.
    pub proof fn listing(&self)
        ensures
            self@ == entries_map(self.listed()),
            self.wf() == names_differ(self.listed()),
            self.wf() ==> self@.dom().finite() && self@.dom().len() == self.listed().len(),
    {
        if self.wf() {
            lemma_count(self.entries@);
        }
    }

    pub fn new() -> (r: Self)
        ensures
            r.wf(),
            r@ == Map::<SkippedName, SkippedEntry>::empty(),
            r.listed().len() == 0,
    {
        let r = SkippedKeys { entries: Vec::new() };
        assert(r@ =~= Map::<SkippedName, SkippedEntry>::empty());
        r
    }

    /// The number of keys.
    pub fn len(&self) -> (r: usize)
        ensures
            r == self.listed().len(),
    {
        self.entries.len()
    }

    /// Where a name stands.
    fn position(&self, dh_pub: &[u8; 32], n: u64) -> (r: Option<usize>)
        requires
            self.wf(),
        ensures
            match r {
                Some(i) => holds(self.entries@, (dh_pub@, n), i as int),
                None => !self@.dom().contains((dh_pub@, n)),
            },
    {
        let mut i: usize = 0;
        while i < self.entries.len()
            invariant
                i <= self.entries@.len(),
                forall|j: int| 0 <= j < i ==> !holds(self.entries@, (dh_pub@, n), j),
            decreases self.entries@.len() - i,
        {
            let e = &self.entries[i];
            if e.0.msg_num == n && bytes::same_bytes(&e.0.dh_ratchet_pub, dh_pub) {
                assert(holds(self.entries@, (dh_pub@, n), i as int));
                return Some(i);
            }
            assert(!holds(self.entries@, (dh_pub@, n), i as int));
            i = i + 1;
        }
        proof {
            if self@.dom().contains((dh_pub@, n)) {
                let j = lemma_named(self.entries@, (dh_pub@, n));
                assert(!holds(self.entries@, (dh_pub@, n), j));
            }
        }
        None
    }

    /// Takes a key out of the buffer.
    pub fn remove(&mut self, dh_pub: &[u8; 32], n: u64) -> (r: Option<MessageKey>)
        requires
            old(self).wf(),
        ensures
            final(self).wf(),
            final(self)@ == old(self)@.remove((dh_pub@, n)),
            match r {
                Some(mk) => old(self)@.dom().contains((dh_pub@, n)) && mk.0@ == old(self)@[(
                    dh_pub@,
                    n,
                )].key,
                None => !old(self)@.dom().contains((dh_pub@, n)),
            },
    {
        let ghost s = self.entries@;
        let ghost k = (dh_pub@, n);
        match self.position(dh_pub, n) {
            None => {
                assert(self@ =~= old(self)@.remove(k));
                None
            },
            Some(i) => {
                let (_, mk) = self.entries.remove(i);
                let ghost t = self.entries@;
                proof {
                    assert(t =~= s.remove(i as int));
                    lemma_entry(s, i as int);
                    lemma_removed(s, i as int);
                }
                Some(mk)
            },
        }
    }

    /// Buffers a key.
    pub fn insert(&mut self, index: SkippedKeyIndex, mk: MessageKey)
        requires
            old(self).wf(),
        ensures
            final(self).wf(),
            final(self)@ == buffered(
                old(self)@,
                (index.dh_ratchet_pub@, index.msg_num),
                mk.0@,
                index.stored_at,
            ),
    {
        let ghost s = self.entries@;
        let ghost k = (index.dh_ratchet_pub@, index.msg_num);
        match self.position(&index.dh_ratchet_pub, index.msg_num) {
            None => {
                let ghost e = (index, mk);
                self.entries.push((index, mk));
                let ghost t = self.entries@;
                proof {
                    assert(names_differ(t)) by {
                        assert forall|a: int, b: int| 0 <= a < b < t.len() implies
                            #[trigger] entry_name(t[a]) != #[trigger] entry_name(t[b]) by {
                            if b < s.len() {
                                assert(entry_name(s[a]) != entry_name(s[b]));
                            } else {
                                lemma_entry(s, a);
                            }
                        }
                    }
                    lemma_entry(t, s.len() as int);
                    assert forall|q: SkippedName|
                        entries_map(t).dom().contains(q) <==> (entries_map(s).dom().contains(q)
                            || q == k) by {
                        if entries_map(t).dom().contains(q) {
                            let j = lemma_named(t, q);
                            if j < s.len() {
                                lemma_entry(s, j);
                            }
                        }
                        if entries_map(s).dom().contains(q) {
                            let j = lemma_named(s, q);
                            assert(t[j] == s[j]);
                            lemma_entry(t, j);
                        }
                    }
                    assert forall|q: SkippedName| entries_map(s).dom().contains(q) implies
                        entries_map(t)[q] == entries_map(s)[q] by {
                        let j = lemma_named(s, q);
                        assert(t[j] == s[j]);
                        lemma_entry(t, j);
                        lemma_entry(s, j);
                    }
                    assert(entries_map(t) =~= buffered(
                        entries_map(s),
                        k,
                        mk.0@,
                        index.stored_at,
                    ));
                }
            },
            Some(i) => {
                let kept_index = SkippedKeyIndex {
                    dh_ratchet_pub: index.dh_ratchet_pub,
                    msg_num: index.msg_num,
                    stored_at: self.entries[i].0.stored_at,
                };
                self.entries.set(i, (kept_index, mk));
                let ghost t = self.entries@;
                proof {
                    lemma_entry(s, i as int);
                    assert forall|a: int| 0 <= a < t.len() implies entry_name(#[trigger] t[a])
                        == entry_name(s[a]) by {}
                    assert(names_differ(t)) by {
                        assert forall|a: int, b: int| 0 <= a < b < t.len() implies
                            #[trigger] entry_name(t[a]) != #[trigger] entry_name(t[b]) by {
                            assert(entry_name(s[a]) != entry_name(s[b]));
                        }
                    }
                    lemma_entry(t, i as int);
                    assert forall|q: SkippedName|
                        entries_map(t).dom().contains(q) <==> entries_map(s).dom().contains(q) by {
                        if entries_map(t).dom().contains(q) {
                            let j = lemma_named(t, q);
                            lemma_entry(s, j);
                        }
                        if entries_map(s).dom().contains(q) {
                            let j = lemma_named(s, q);
                            assert(entry_name(t[j]) == entry_name(s[j]));
                            lemma_entry(t, j);
                        }
                    }
                    assert forall|q: SkippedName|
                        q != k && entries_map(s).dom().contains(q) implies entries_map(t)[q]
                        == entries_map(s)[q] by {
                        let j = lemma_named(s, q);
                        assert(j != i);
                        assert(t[j] == s[j]);
                        lemma_entry(t, j);
                        lemma_entry(s, j);
                    }
                    assert(entries_map(t) =~= buffered(
                        entries_map(s),
                        k,
                        mk.0@,
                        index.stored_at,
                    ));
                }
            },
        }
    }

    /// Drops every key that was stored before `cutoff`.
    pub fn retain_from(&mut self, cutoff: u64)
        requires
            old(self).wf(),
        ensures
            final(self).wf(),
            final(self)@ == kept(old(self)@, cutoff),
    {
        let ghost s = self.entries@;
        let mut i: usize = 0;
        while i < self.entries.len()
            invariant
                i <= self.entries@.len(),
                names_differ(self.entries@),
                names_differ(s),
                kept(entries_map(self.entries@), cutoff) == kept(entries_map(s), cutoff),
                forall|j: int| 0 <= j < i ==> self.entries@[j].0.stored_at >= cutoff,
            decreases self.entries@.len() - i,
        {
            if self.entries[i].0.stored_at >= cutoff {
                i = i + 1;
            } else {
                let ghost before = self.entries@;
                let dh_pub = self.entries[i].0.dh_ratchet_pub;
                let n: u64 = self.entries[i].0.msg_num;
                let ghost k = (dh_pub@, n);
                let _ = self.entries.remove(i);
                let ghost t = self.entries@;
                proof {
                    lemma_entry(before, i as int);
                    lemma_removed(before, i as int);
                    assert(t =~= before.remove(i as int));
                    assert(kept(entries_map(t), cutoff) =~= kept(entries_map(before), cutoff));
                    assert forall|j: int| 0 <= j < i implies t[j].0.stored_at >= cutoff by {
                        assert(t[j] == before[j]);
                    }
                }
            }
        }
        proof {
            let t = self.entries@;
            assert forall|q: SkippedName| entries_map(t).dom().contains(q) implies entries_map(
                t,
            )[q].stored_at >= cutoff by {
                let j = lemma_named(t, q);
                lemma_entry(t, j);
            }
            assert(kept(entries_map(t), cutoff) =~= entries_map(t));
        }
    }

    /// When the oldest key was stored.
    fn oldest(&self) -> (r: u64)
        requires
            self.entries@.len() > 0,
        ensures
            exists|j: int| 0 <= j < self.entries@.len() && self.entries@[j].0.stored_at == r,
            forall|j: int| 0 <= j < self.entries@.len() ==> self.entries@[j].0.stored_at >= r,
    {
        let mut r: u64 = self.entries[0].0.stored_at;
        let mut i: usize = 1;
        while i < self.entries.len()
            invariant
                1 <= i <= self.entries@.len(),
                exists|j: int| 0 <= j < self.entries@.len() && self.entries@[j].0.stored_at == r,
                forall|j: int| 0 <= j < i ==> self.entries@[j].0.stored_at >= r,
            decreases self.entries@.len() - i,
        {
            if self.entries[i].0.stored_at < r {
                r = self.entries[i].0.stored_at;
            }
            i = i + 1;
        }
        r
    }

    /// Drops the oldest keys until no more than `room` are left.
    pub fn trim_to(&mut self, room: usize)
        requires
            old(self).wf(),
        ensures
            final(self).wf(),
            final(self)@ == trimmed(old(self)@, room as nat),
    {
        let ghost m = self@;
        let mut cutoff: u64 = 0;
        proof {
            lemma_count(self.entries@);
            assert(kept(m, 0) =~= m);
        }
        while self.entries.len() > room
            invariant
                self.wf(),
                m == old(self)@,
                m.dom().finite(),
                self@ == kept(m, cutoff),
                forall|d: u64| d < cutoff ==> !#[trigger] fits_from(m, room as nat, d),
            decreases self.entries@.len(),
        {
            let ghost s = self.entries@;
            let oldest: u64 = self.oldest();
            proof {
                lemma_count(s);
                lemma_kept(m, cutoff);
                assert forall|d: u64| cutoff <= d <= oldest implies !#[trigger] fits_from(
                    m,
                    room as nat,
                    d,
                ) by {
                    assert forall|k: SkippedName| kept(m, cutoff).dom().contains(k) implies m[k].stored_at
                        >= d by {
                        let j = lemma_named(s, k);
                        lemma_entry(s, j);
                    }
                    assert(kept(m, d) =~= kept(m, cutoff));
                }
            }
            if oldest == u64::MAX {
                self.entries.clear();
                proof {
                    lemma_no_entries(self.entries@);
                    assert(!exists|c: u64| least_cutoff(m, room as nat, c)) by {
                        if exists|c: u64| least_cutoff(m, room as nat, c) {
                            let c = choose|c: u64| least_cutoff(m, room as nat, c);
                            assert(fits_from(m, room as nat, c));
                        }
                    }
                }
                return;
            }
            self.retain_from(oldest + 1);
            proof {
                assert(kept(kept(m, cutoff), (oldest + 1) as u64) =~= kept(m, (oldest + 1) as u64))
                    by {
                    assert forall|k: SkippedName| kept(m, cutoff).dom().contains(k) implies m[k].stored_at
                        >= cutoff by {}
                    let j = choose|j: int| 0 <= j < s.len() && s[j].0.stored_at == oldest;
                    lemma_entry(s, j);
                    assert(cutoff <= oldest);
                }
                lemma_count(self.entries@);
                lemma_fewer(s, self.entries@, oldest);
            }
            cutoff = oldest + 1;
        }
        proof {
            lemma_count(self.entries@);
            assert(fits_from(m, room as nat, cutoff));
            assert(least_cutoff(m, room as nat, cutoff));
            let c = choose|c: u64| least_cutoff(m, room as nat, c);
            assert(least_cutoff(m, room as nat, c));
            assert(fits_from(m, room as nat, c));
            assert(c == cutoff);
        }
    }

    /// The entries as a list.
    pub fn list(&self) -> (r: Vec<(SkippedKeyIndex, [u8; 32])>)
        ensures
            r@.len() == self.listed().len(),
            forall|i: int|
                0 <= i < r@.len() ==> (#[trigger] r@[i]).0.dh_ratchet_pub
                    == self.listed()[i].0.dh_ratchet_pub && r@[i].0.msg_num
                    == self.listed()[i].0.msg_num && r@[i].0.stored_at
                    == self.listed()[i].0.stored_at && r@[i].1 == self.listed()[i].1.0,
    {
        let mut r: Vec<(SkippedKeyIndex, [u8; 32])> = Vec::new();
        let mut i: usize = 0;
        while i < self.entries.len()
            invariant
                i <= self.entries@.len(),
                r@.len() == i,
                forall|j: int|
                    0 <= j < i ==> (#[trigger] r@[j]).0.dh_ratchet_pub
                        == self.entries@[j].0.dh_ratchet_pub && r@[j].0.msg_num
                        == self.entries@[j].0.msg_num && r@[j].0.stored_at
                        == self.entries@[j].0.stored_at && r@[j].1 == self.entries@[j].1.0,
            decreases self.entries@.len() - i,
        {
            let e = &self.entries[i];
            r.push(
                (
                    SkippedKeyIndex {
                        dh_ratchet_pub: e.0.dh_ratchet_pub,
                        msg_num: e.0.msg_num,
                        stored_at: e.0.stored_at,
                    },
                    e.1.0,
                ),
            );
            i = i + 1;
        }
        r
    }
}

/// An empty list is an empty buffer.
pub proof fn lemma_no_entries(s: Seq<(SkippedKeyIndex, MessageKey)>)
    requires
        s.len() == 0,
    ensures
        entries_map(s) == Map::<SkippedName, SkippedEntry>::empty(),
{
    assert(entries_map(s) =~= Map::<SkippedName, SkippedEntry>::empty());
}

/// The last entry of a list is buffered behind the others.
pub proof fn lemma_last_entry(s: Seq<(SkippedKeyIndex, MessageKey)>)
    requires
        names_differ(s),
        s.len() > 0,
    ensures
        names_differ(s.drop_last()),
        entries_map(s) == buffered(
            entries_map(s.drop_last()),
            entry_name(s.last()),
            entry_value(s.last()).key,
            entry_value(s.last()).stored_at,
        ),
{
    let i = s.len() - 1;
    lemma_removed(s, i);
    assert(s.remove(i) =~= s.drop_last());
    lemma_entry(s, i);
    assert(entries_map(s) =~= buffered(
        entries_map(s.drop_last()),
        entry_name(s.last()),
        entry_value(s.last()).key,
        entry_value(s.last()).stored_at,
    ));
}

/// Removing the entry at `i` removes its name.
proof fn lemma_removed(s: Seq<(SkippedKeyIndex, MessageKey)>, i: int)
    requires
        names_differ(s),
        0 <= i < s.len(),
    ensures
        names_differ(s.remove(i)),
        entries_map(s.remove(i)) == entries_map(s).remove(entry_name(s[i])),
{
    let t = s.remove(i);
    let k = entry_name(s[i]);
    assert forall|a: int, b: int| 0 <= a < b < t.len() implies #[trigger] entry_name(t[a])
        != #[trigger] entry_name(t[b]) by {
        let a2 = if a < i { a } else { a + 1 };
        let b2 = if b < i { b } else { b + 1 };
        assert(t[a] == s[a2] && t[b] == s[b2]);
        assert(entry_name(s[a2]) != entry_name(s[b2]));
    }
    assert forall|q: SkippedName|
        entries_map(t).dom().contains(q) <==> entries_map(s).remove(k).dom().contains(q) by {
        if entries_map(t).dom().contains(q) {
            let j = lemma_named(t, q);
            let j2 = if j < i { j } else { j + 1 };
            assert(t[j] == s[j2]);
            lemma_entry(s, j2);
            if q == k {
                if j2 < i {
                    assert(entry_name(s[j2]) != entry_name(s[i]));
                } else {
                    assert(entry_name(s[i]) != entry_name(s[j2]));
                }
            }
        }
        if entries_map(s).remove(k).dom().contains(q) {
            let j = lemma_named(s, q);
            assert(j != i);
            let j2 = if j < i { j } else { j - 1 };
            assert(t[j2] == s[j]);
            lemma_entry(t, j2);
        }
    }
    assert forall|q: SkippedName| entries_map(t).dom().contains(q) implies entries_map(t)[q]
        == entries_map(s)[q] by {
        let j = lemma_named(t, q);
        let j2 = if j < i { j } else { j + 1 };
        assert(t[j] == s[j2]);
        lemma_entry(s, j2);
        lemma_entry(t, j);
    }
    assert(entries_map(t) =~= entries_map(s).remove(k));
}

/// Dropping everything up to the oldest key leaves fewer entries.
proof fn lemma_fewer(
    s: Seq<(SkippedKeyIndex, MessageKey)>,
    t: Seq<(SkippedKeyIndex, MessageKey)>,
    oldest: u64,
)
    requires
        names_differ(s),
        names_differ(t),
        oldest < u64::MAX,
        entries_map(t) == kept(entries_map(s), (oldest + 1) as u64),
        exists|j: int| 0 <= j < s.len() && s[j].0.stored_at == oldest,
    ensures
        t.len() < s.len(),
{
    let j = choose|j: int| 0 <= j < s.len() && s[j].0.stored_at == oldest;
    let k = entry_name(s[j]);
    lemma_count(s);
    lemma_count(t);
    lemma_entry(s, j);
    assert(!entries_map(t).dom().contains(k));
    assert(entries_map(t).dom().subset_of(entries_map(s).dom().remove(k)));
    vstd::set_lib::lemma_len_subset(entries_map(t).dom(), entries_map(s).dom().remove(k));
}

} // verus!
