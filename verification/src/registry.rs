//! The registry of live peripherals that an adapter keeps, as far as a
//! session needs it: a session asks it whether its peripheral is still
//! tracked, and never tells it anything.

use crate::peripheral::PeripheralId;
use vstd::prelude::*;

verus! {

/// The peripherals that an adapter tracks, by their identifiers.
#[derive(Debug)]
pub struct Registry {
    live: Vec<PeripheralId>,
}

impl View for Registry {
    type V = Set<Seq<u8>>;

    /// The addresses of the peripherals tracked.
    closed spec fn view(&self) -> Set<Seq<u8>> {
        Set::new(|address: Seq<u8>| exists|i: int| 0 <= i < self.live@.len() && self.live@[i]@ == address)
    }
}

impl Registry {
    /// A registry that tracks nothing.
    pub fn new() -> (res: Self)
        ensures
            res@ == Set::<Seq<u8>>::empty(),
    {
        let res = Registry { live: Vec::new() };
        assert(res@ =~= Set::<Seq<u8>>::empty());
        res
    }

    /// Whether the peripheral is tracked.
    pub fn tracks(&self, id: &PeripheralId) -> (res: bool)
        ensures
            res == self@.contains(id@),
    {
        let mut i: usize = 0;
        while i < self.live.len()
            invariant
                i <= self.live.len(),
                forall|j: int| 0 <= j < i ==> self.live@[j]@ != id@,
            decreases self.live.len() - i,
        {
            if self.live[i] == *id {
                return true;
            }
            i = i + 1;
        }
        false
    }

    /// Starts to track the peripheral.
    pub fn add(&mut self, id: PeripheralId)
        ensures
            final(self)@ == old(self)@.insert(id@),
    {
        let ghost before = self.live@;
        self.live.push(id);
        assert(self@ =~= old(self)@.insert(id@)) by {
            assert forall|address: Seq<u8>| self@.contains(address) <==> old(self)@.insert(
                id@,
            ).contains(address) by {
                if old(self)@.contains(address) {
                    let i = choose|i: int| 0 <= i < before.len() && before[i]@ == address;
                    assert(self.live@[i]@ == address);
                }
                if address == id@ {
                    assert(self.live@[before.len() as int]@ == address);
                }
                if self@.contains(address) {
                    let i = choose|i: int| 0 <= i < self.live@.len() && self.live@[i]@ == address;
                    if i < before.len() {
                        assert(before[i]@ == address);
                    }
                }
            }
        }
    }

    /// Stops to track the peripheral.
    pub fn remove(&mut self, id: &PeripheralId)
        ensures
            final(self)@ == old(self)@.remove(id@),
    {
        let ghost before = self.live@;
        let mut kept: Vec<PeripheralId> = Vec::new();
        let mut i: usize = 0;
        while i < self.live.len()
            invariant
                i <= self.live.len(),
                self.live@ == before,
                forall|k: int| 0 <= k < kept@.len() ==> (#[trigger] kept@[k])@ != id@ && exists|j: int|
                    0 <= j < i && before[j]@ == kept@[k]@,
                forall|j: int|
                    0 <= j < i && (#[trigger] before[j])@ != id@ ==> exists|k: int|
                        0 <= k < kept@.len() && kept@[k]@ == before[j]@,
            decreases self.live.len() - i,
        {
            if self.live[i] != *id {
                let ghost prior = kept@;
                kept.push(self.live[i]);
                proof {
                    assert(kept@[prior.len() as int]@ == before[i as int]@);
                    assert forall|j: int|
                        0 <= j < i + 1 && (#[trigger] before[j])@ != id@ implies exists|k: int|
                        0 <= k < kept@.len() && kept@[k]@ == before[j]@ by {
                        if j < i {
                            let k = choose|k: int| 0 <= k < prior.len() && prior[k]@ == before[j]@;
                            assert(kept@[k]@ == before[j]@);
                        }
                    }
                }
            }
            i = i + 1;
        }
        self.live = kept;
        assert(self@ =~= old(self)@.remove(id@)) by {
            assert forall|address: Seq<u8>| self@.contains(address) <==> old(self)@.remove(
                id@,
            ).contains(address) by {
                if self@.contains(address) {
                    let k = choose|k: int| 0 <= k < self.live@.len() && self.live@[k]@ == address;
                    assert(self.live@[k]@ != id@);
                }
                if old(self)@.remove(id@).contains(address) {
                    let j = choose|j: int| 0 <= j < before.len() && before[j]@ == address;
                    assert(before[j]@ != id@);
                }
            }
        }
    }
}

} // verus!
