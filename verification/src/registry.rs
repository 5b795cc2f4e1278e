//! Keyed store of per-device state, one entry per active connection.
//!
//! A key is the serial port name or network address of the connection. The
//! whole registry is mutated under exclusive access; removing a key that is
//! not present is a no-op, not an error.

use vstd::prelude::*;

use crate::device::DeviceConnectionStatus;
use crate::device::MeshDevice;
use crate::device::MeshDeviceView;

verus! {

/// Identifier of one physical connection (port name or address).
pub type DeviceKey = String;

/// One registry entry: the connection key and the device state it owns.
#[derive(Clone, PartialEq, Debug)]
pub struct RegistryEntry {
    pub key: DeviceKey,
    pub device: MeshDevice,
}

#[verifier::ext_equal]
pub struct RegistryEntryView {
    pub key: Seq<char>,
    pub device: MeshDeviceView,
}

impl View for RegistryEntry {
    type V = RegistryEntryView;

    open spec fn view(&self) -> RegistryEntryView {
        RegistryEntryView { key: self.key@, device: self.device@ }
    }
}

/// Index of the first entry with the given key, or -1.
pub open spec fn find_entry(entries: Seq<RegistryEntryView>, key: Seq<char>) -> int
    decreases entries.len(),
{
    if entries.len() == 0 {
        -1
    } else if entries[0].key == key {
        0
    } else {
        let rest = find_entry(entries.drop_first(), key);
        if rest < 0 {
            -1
        } else {
            rest + 1
        }
    }
}

/// `find_entry` depends only on the keys: two entry sequences with the
/// same keys in the same order give the same answer.
pub proof fn lemma_find_entry_same_keys(
    a: Seq<RegistryEntryView>,
    b: Seq<RegistryEntryView>,
    key: Seq<char>,
)
    requires
        a.len() == b.len(),
        forall|i: int| 0 <= i < a.len() ==> a[i].key == b[i].key,
    ensures
        find_entry(a, key) == find_entry(b, key),
    decreases a.len(),
{
    if a.len() > 0 {
        assert forall|i: int| 0 <= i < a.drop_first().len()
            implies a.drop_first()[i].key == b.drop_first()[i].key by {
            assert(a.drop_first()[i] == a[i + 1]);
            assert(b.drop_first()[i] == b[i + 1]);
        }
        lemma_find_entry_same_keys(a.drop_first(), b.drop_first(), key);
    }
}

/// An entry after its device has been marked disconnected; nothing else
/// about the entry changes.
pub open spec fn disconnected_entry(e: RegistryEntryView) -> RegistryEntryView {
    RegistryEntryView {
        device: MeshDeviceView {
            status: DeviceConnectionStatus::Disconnected,
            ..e.device
        },
        ..e
    }
}

/// The registry of connected devices.
pub struct DeviceRegistry {
    pub entries: Vec<RegistryEntry>,
}

impl View for DeviceRegistry {
    type V = Seq<RegistryEntryView>;

    open spec fn view(&self) -> Seq<RegistryEntryView> {
        self.entries@.map_values(|e: RegistryEntry| e@)
    }
}

/// `find_entry` over a whole sequence is determined by the part of the
/// sequence after any prefix known to hold no match.
proof fn lemma_find_entry_skip(entries: Seq<RegistryEntryView>, key: Seq<char>, at: int)
    requires
        0 <= at <= entries.len(),
        forall|i: int| 0 <= i < at ==> entries[i].key != key,
    ensures
        find_entry(entries, key) == if find_entry(entries.skip(at), key) < 0 {
            -1int
        } else {
            at + find_entry(entries.skip(at), key)
        },
    decreases at,
{
    if at == 0 {
        assert(entries.skip(0) =~= entries);
    } else {
        assert(entries.skip(1).skip(at - 1) =~= entries.skip(at));
        lemma_find_entry_skip(entries.skip(1), key, at - 1);
        assert(entries.drop_first() =~= entries.skip(1));
    }
}

impl DeviceRegistry {
    /// Keys are unique: the key identifies exactly one active connection.
    pub open spec fn wf(&self) -> bool {
        forall|i: int, j: int|
            0 <= i < j < self@.len() ==> self@[i].key != self@[j].key
    }

    /// An empty registry.
    pub fn new() -> (r: DeviceRegistry)
        ensures
            r@ == Seq::<RegistryEntryView>::empty(),
            r.wf(),
    {
        let r = DeviceRegistry { entries: Vec::new() };
        proof {
            assert(r@ =~= Seq::<RegistryEntryView>::empty());
        }
        r
    }

    /// Number of active connections.
    pub fn len(&self) -> (n: usize)
        ensures
            n == self@.len(),
    {
        self.entries.len()
    }

    /// Position of the entry for the given key, if one exists.
    pub fn index_of_key(&self, key: &DeviceKey) -> (r: Option<usize>)
        ensures
            (match r {
                Some(i) => i < self@.len() && find_entry(self@, key@) == i as int
                    && self@[i as int].key == key@,
                None => find_entry(self@, key@) == -1,
            }),
            (r is None) ==> forall|i: int| 0 <= i < self@.len() ==> self@[i].key != key@,
    {
        let ghost es = self@;
        let mut at: usize = 0;
        while at < self.entries.len()
            invariant
                at <= es.len(),
                es == self@,
                es.len() == self.entries@.len(),
                forall|i: int| 0 <= i < at ==> es[i].key != key@,
            decreases es.len() - at,
        {
            if self.entries[at].key == *key {
                proof {
                    lemma_find_entry_skip(es, key@, at as int);
                    assert(es.skip(at as int)[0] == es[at as int]);
                }
                return Some(at);
            }
            at = at + 1;
        }
        proof {
            lemma_find_entry_skip(es, key@, at as int);
            assert(es.skip(at as int) =~= Seq::<RegistryEntryView>::empty());
        }
        None
    }

    /// Store the device under the given key, replacing any previous device
    /// held under the same key.
    pub fn insert(&mut self, key: DeviceKey, device: MeshDevice)
        requires
            old(self).wf(),
        ensures
            final(self).wf(),
            ({
                let at = find_entry(old(self)@, key@);
                let entry = RegistryEntryView { key: key@, device: device@ };
                if at < 0 {
                    final(self)@ == old(self)@.push(entry)
                } else {
                    final(self)@ == old(self)@.update(at, entry)
                }
            }),
    {
        let entry = RegistryEntry { key: key.clone(), device: device };
        match self.index_of_key(&key) {
            Some(at) => {
                self.entries[at] = entry;
                proof {
                    assert(self@ =~= old(self)@.update(
                        find_entry(old(self)@, key@),
                        RegistryEntryView { key: key@, device: device@ },
                    ));
                }
            },
            None => {
                self.entries.push(entry);
                proof {
                    assert(self@ =~= old(self)@.push(
                        RegistryEntryView { key: key@, device: device@ },
                    ));
                }
            },
        }
    }

    /// Read access to the device for the given key.
    pub fn get(&self, key: &DeviceKey) -> (r: Option<&MeshDevice>)
        ensures
            (match r {
                Some(d) => find_entry(self@, key@) >= 0
                    && d@ == self@[find_entry(self@, key@)].device,
                None => find_entry(self@, key@) == -1,
            }),
    {
        match self.index_of_key(key) {
            Some(at) => Some(&self.entries[at].device),
            None => None,
        }
    }

    /// Drop the entry for the given key. Removing a key that is not present
    /// is a no-op.
    pub fn remove(&mut self, key: &DeviceKey)
        requires
            old(self).wf(),
        ensures
            final(self).wf(),
            ({
                let at = find_entry(old(self)@, key@);
                if at < 0 {
                    final(self)@ == old(self)@
                } else {
                    final(self)@ == old(self)@.remove(at)
                }
            }),
    {
        match self.index_of_key(key) {
            Some(at) => {
                self.entries.remove(at);
                proof {
                    assert(self@ =~= old(self)@.remove(find_entry(old(self)@, key@)));
                }
            },
            None => {},
        }
    }

    /// Mark every registered device as disconnected, leaving everything
    /// else about each entry unchanged.
    pub fn set_all_disconnected(&mut self)
        requires
            old(self).wf(),
        ensures
            final(self).wf(),
            final(self)@.len() == old(self)@.len(),
            forall|i: int| 0 <= i < old(self)@.len()
                ==> final(self)@[i] == disconnected_entry(old(self)@[i]),
    {
        let n = self.entries.len();
        let mut at: usize = 0;
        while at < n
            invariant
                n == self.entries@.len(),
                at <= n,
                old(self)@.len() == n,
                forall|i: int| at <= i < n ==> self@[i] == old(self)@[i],
                forall|i: int| 0 <= i < at
                    ==> self@[i] == disconnected_entry(old(self)@[i]),
            decreases n - at,
        {
            let ghost prev = self@;
            let ghost prev_entries = self.entries@;
            self.entries[at].device.status = DeviceConnectionStatus::Disconnected;
            proof {
                assert forall|i: int| 0 <= i < n && i != at as int
                    implies self@[i] == prev[i] by {
                    assert(self.entries@[i] == prev_entries[i]);
                }
                assert(self@[at as int] =~= disconnected_entry(old(self)@[at as int]));
                assert forall|i: int| 0 <= i < at as int + 1
                    implies self@[i] == disconnected_entry(old(self)@[i]) by {
                    if i == at as int {
                        assert(self@[i] =~= disconnected_entry(old(self)@[i]));
                    } else {
                        assert(self@[i] == prev[i]);
                    }
                }
            }
            at = at + 1;
        }
        proof {
            assert forall|i: int, j: int| 0 <= i < j < self@.len() implies self@[i].key
                != self@[j].key by {
                assert(self@[i].key == old(self)@[i].key);
                assert(self@[j].key == old(self)@[j].key);
            }
        }
    }

    /// Drop every entry.
    pub fn clear(&mut self)
        ensures
            final(self).wf(),
            final(self)@ == Seq::<RegistryEntryView>::empty(),
    {
        self.entries.clear();
        proof {
            assert(self@ =~= Seq::<RegistryEntryView>::empty());
        }
    }
}

} // verus!
