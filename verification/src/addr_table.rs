//! The address blocklist: a bounded table from 32-bit IPv4 addresses (host
//! order) to opaque markers. The filter only asks whether a key is present;
//! the control plane inserts and removes entries.

use vstd::prelude::*;
use crate::table::{Marker, TableFull, CAPACITY};

verus! {

/// No key occurs in two entries.
pub open spec fn addr_keys_distinct(s: Seq<(u32, Marker)>) -> bool {
    forall|i: int, j: int| 0 <= i < j < s.len() ==> (#[trigger] s[i]).0 != (#[trigger] s[j]).0
}

/// Some entry of `s` has the key `key`.
pub open spec fn addr_present(s: Seq<(u32, Marker)>, key: u32) -> bool {
    exists|i: int| 0 <= i < s.len() && (#[trigger] s[i]).0 == key
}

/// Bounded table of blocked addresses, in the order in which they were added.
pub struct AddrBlocklist {
    entries: Vec<(u32, Marker)>,
}

impl AddrBlocklist {
    /// The entries as `(key, marker)` pairs, oldest first.
    pub closed spec fn view(&self) -> Seq<(u32, Marker)> {
        self.entries@
    }

    /// The table holds at most `CAPACITY` entries and no key twice.
    pub open spec fn wf(&self) -> bool {
        &&& self@.len() <= CAPACITY
        &&& addr_keys_distinct(self@)
    }

    /// The table has an entry for `key`.
    pub open spec fn blocks(&self, key: u32) -> bool {
        addr_present(self@, key)
    }

    /// An empty table.
    pub fn new() -> (t: Self)
        ensures
            t.wf(),
            t@ == Seq::<(u32, Marker)>::empty(),
    {
        AddrBlocklist { entries: Vec::new() }
    }

    /// Number of entries.
    pub fn len(&self) -> (n: usize)
        ensures
            n == self@.len(),
    {
        self.entries.len()
    }

    /// Whether the table is well formed. Every table made by `new` and
    /// changed by `insert` and `remove` is; a caller that cannot know so may
    /// ask.
    pub fn is_wf(&self) -> (ok: bool)
        ensures
            ok == self.wf(),
    {
        let n: usize = self.entries.len();
        if n > CAPACITY {
            return false;
        }
        let mut b: usize = 0;
        while b < n
            invariant
                n == self.entries@.len(),
                b <= n,
                forall|i: int, j: int|
                    0 <= i < j < b ==> (#[trigger] self.entries@[i]).0 != (
                    #[trigger] self.entries@[j]).0,
            decreases n - b,
        {
            let key: u32 = self.entries[b].0;
            let mut a: usize = 0;
            while a < b
                invariant
                    n == self.entries@.len(),
                    b < n,
                    a <= b,
                    key == self.entries@[b as int].0,
                    forall|i: int| 0 <= i < a ==> (#[trigger] self.entries@[i]).0 != key,
                decreases b - a,
            {
                if self.entries[a].0 == key {
                    assert(self.entries@[a as int].0 == self.entries@[b as int].0);
                    return false;
                }
                a += 1;
            }
            b += 1;
        }
        true
    }

    /// Position of the first entry for `key`, if there is one.
    pub fn position(&self, key: u32) -> (r: Option<usize>)
        ensures
            match r {
                Some(i) => i < self@.len() && self@[i as int].0 == key && forall|j: int|
                    0 <= j < i ==> (#[trigger] self@[j]).0 != key,
                None => !self.blocks(key),
            },
    {
        let n: usize = self.entries.len();
        let mut i: usize = 0;
        while i < n
            invariant
                n == self.entries@.len(),
                i <= n,
                forall|j: int| 0 <= j < i ==> (#[trigger] self.entries@[j]).0 != key,
            decreases n - i,
        {
            if self.entries[i].0 == key {
                return Some(i);
            }
            i += 1;
        }
        None
    }

    /// Point lookup: the marker stored for `key`, if the key is present.
    pub fn get(&self, key: u32) -> (r: Option<Marker>)
        ensures
            r is Some <==> self.blocks(key),
            match r {
                Some(m) => exists|i: int|
                    0 <= i < self@.len() && #[trigger] self@[i] == (key, m) && forall|j: int|
                        0 <= j < i ==> (#[trigger] self@[j]).0 != key,
                None => true,
            },
    {
        match self.position(key) {
            Some(i) => {
                let m: Marker = self.entries[i].1;
                assert(self@[i as int] == (key, m));
                Some(m)
            },
            None => None,
        }
    }

    /// Whether `key` is present.
    pub fn contains(&self, key: u32) -> (r: bool)
        ensures
            r == self.blocks(key),
    {
        self.position(key).is_some()
    }

    /// Adds `key` with `marker`. A key that is present keeps its place and
    /// takes the new marker. A new key goes to the end, unless the table is
    /// full: then nothing changes and `TableFull` is returned.
    pub fn insert(&mut self, key: u32, marker: Marker) -> (r: Result<(), TableFull>)
        requires
            old(self).wf(),
        ensures
            final(self).wf(),
            r is Err <==> !old(self).blocks(key) && old(self)@.len() >= CAPACITY,
            r is Err ==> final(self)@ == old(self)@,
            r is Ok && old(self).blocks(key) ==> exists|i: int|
                0 <= i < old(self)@.len() && (#[trigger] old(self)@[i]).0 == key && final(self)@
                    == old(self)@.update(i, (key, marker)),
            r is Ok && !old(self).blocks(key) ==> final(self)@ == old(self)@.push((key, marker)),
            r is Ok ==> final(self).blocks(key),
            forall|k: u32| k != key ==> final(self).blocks(k) == old(self).blocks(k),
    {
        match self.position(key) {
            Some(i) => {
                self.entries.set(i, (key, marker));
                proof {
                    let before = old(self)@;
                    let after = self@;
                    assert(after == before.update(i as int, (key, marker)));
                    assert(after[i as int].0 == key);
                    assert forall|k: u32| k != key implies addr_present(after, k) == addr_present(
                        before,
                        k,
                    ) by {
                        if addr_present(before, k) {
                            let j = choose|j: int| 0 <= j < before.len() && (#[trigger] before[j]).0 == k;
                            assert(after[j].0 == k);
                        }
                        if addr_present(after, k) {
                            let j = choose|j: int| 0 <= j < after.len() && (#[trigger] after[j]).0 == k;
                            assert(before[j].0 == k);
                        }
                    }
                    assert forall|a: int, b: int| 0 <= a < b < after.len() implies (
                    #[trigger] after[a]).0 != (#[trigger] after[b]).0 by {
                        assert(after[a].0 == before[a].0);
                        assert(after[b].0 == before[b].0);
                    }
                }
                Ok(())
            },
            None => {
                if self.entries.len() >= CAPACITY {
                    return Err(TableFull);
                }
                self.entries.push((key, marker));
                proof {
                    let before = old(self)@;
                    let after = self@;
                    assert(after == before.push((key, marker)));
                    assert(after[before.len() as int].0 == key);
                    assert forall|k: u32| k != key implies addr_present(after, k) == addr_present(
                        before,
                        k,
                    ) by {
                        if addr_present(before, k) {
                            let j = choose|j: int| 0 <= j < before.len() && (#[trigger] before[j]).0 == k;
                            assert(after[j].0 == k);
                        }
                        if addr_present(after, k) {
                            let j = choose|j: int| 0 <= j < after.len() && (#[trigger] after[j]).0 == k;
                            assert(before[j].0 == k);
                        }
                    }
                    assert forall|a: int, b: int| 0 <= a < b < after.len() implies (
                    #[trigger] after[a]).0 != (#[trigger] after[b]).0 by {
                        if b < before.len() {
                            assert(after[a] == before[a]);
                            assert(after[b] == before[b]);
                        } else {
                            assert(after[a] == before[a]);
                        }
                    }
                }
                Ok(())
            },
        }
    }

    /// Takes the entry for `key` out, keeping the order of the others, and
    /// returns its marker; `None`, and no change, where the key is absent.
    pub fn remove(&mut self, key: u32) -> (r: Option<Marker>)
        requires
            old(self).wf(),
        ensures
            final(self).wf(),
            r is Some <==> old(self).blocks(key),
            r is None ==> final(self)@ == old(self)@,
            match r {
                Some(m) => exists|i: int|
                    0 <= i < old(self)@.len() && #[trigger] old(self)@[i] == (key, m)
                        && final(self)@ == old(self)@.remove(i),
                None => true,
            },
            !final(self).blocks(key),
            forall|k: u32| k != key ==> final(self).blocks(k) == old(self).blocks(k),
    {
        match self.position(key) {
            Some(i) => {
                let gone = self.entries.remove(i);
                proof {
                    let before = old(self)@;
                    let after = self@;
                    assert(after == before.remove(i as int));
                    assert(before[i as int] == (key, gone.1));
                    assert forall|a: int| 0 <= a < after.len() implies (#[trigger] after[a]).0
                        != key by {
                        if a < i {
                            assert(after[a] == before[a]);
                        } else {
                            assert(after[a] == before[a + 1]);
                        }
                    }
                    assert forall|k: u32| k != key implies addr_present(after, k) == addr_present(
                        before,
                        k,
                    ) by {
                        if addr_present(before, k) {
                            let j = choose|j: int| 0 <= j < before.len() && (#[trigger] before[j]).0 == k;
                            if j < i {
                                assert(after[j].0 == k);
                            } else {
                                assert(after[j - 1] == before[j]);
                                assert(after[j - 1].0 == k);
                            }
                        }
                        if addr_present(after, k) {
                            let j = choose|j: int| 0 <= j < after.len() && (#[trigger] after[j]).0 == k;
                            if j < i {
                                assert(before[j].0 == k);
                            } else {
                                assert(before[j + 1].0 == k);
                            }
                        }
                    }
                    assert forall|a: int, b: int| 0 <= a < b < after.len() implies (
                    #[trigger] after[a]).0 != (#[trigger] after[b]).0 by {
                        let a0 = if a < i { a } else { a + 1 };
                        let b0 = if b < i { b } else { b + 1 };
                        assert(after[a] == before[a0]);
                        assert(after[b] == before[b0]);
                    }
                }
                Some(gone.1)
            },
            None => None,
        }
    }

    /// The keys of all entries, oldest first.
    pub fn keys(&self) -> (out: Vec<u32>)
        ensures
            out@.len() == self@.len(),
            forall|i: int| 0 <= i < self@.len() ==> out@[i] == (#[trigger] self@[i]).0,
            self.wf() ==> out@.no_duplicates(),
    {
        let n: usize = self.entries.len();
        let mut out: Vec<u32> = Vec::new();
        let mut i: usize = 0;
        while i < n
            invariant
                n == self.entries@.len(),
                i <= n,
                out@.len() == i,
                forall|j: int| 0 <= j < i ==> out@[j] == (#[trigger] self.entries@[j]).0,
            decreases n - i,
        {
            out.push(self.entries[i].0);
            i += 1;
        }
        proof {
            if self.wf() {
                assert forall|a: int, b: int|
                    0 <= a < out@.len() && 0 <= b < out@.len() && a != b implies out@[a]
                    != out@[b] by {
                    if a < b {
                        assert(self@[a].0 != self@[b].0);
                    } else {
                        assert(self@[b].0 != self@[a].0);
                    }
                }
            }
        }
        out
    }
}

} // verus!
