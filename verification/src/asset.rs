use vstd::prelude::*;

use crate::addressing::{Identity, SigningCapability};

verus! {

/// A reference to one asset unit: the slot the ledger assigned at creation.
#[derive(Clone, Copy, PartialEq, Eq, Structural, Debug)]
pub struct AssetUnitRef {
    pub index: usize,
}

/// One indivisible, non-fractional asset unit.
///
/// A unit is created empty under a sole controller and issued at most once;
/// its supply never exceeds one, which is what makes the unit a faithful
/// external stand-in for a single credential.
#[derive(Clone, Copy, PartialEq, Eq, Debug)]
pub struct AssetUnit {
    /// The sole mint and freeze controller of the unit.
    pub controller: Identity,
    /// How many of the unit exist: zero before issuance, one after.
    pub supply: u64,
    /// Who holds the issued unit, once it is issued.
    pub holder: Option<Identity>,
}

impl AssetUnit {
    /// A unit is sound when it was issued at most once and has a holder
    /// exactly when it was issued.
    pub open spec fn wf(self) -> bool {
        &&& self.supply <= 1
        &&& (self.supply == 0 <==> self.holder is None)
    }
}

/// The asset service: a ledger of uniquely issued, indivisible units.
pub struct AssetLedger {
    pub units: Vec<AssetUnit>,
}

impl AssetLedger {
    /// Every unit on the ledger is sound.
    pub open spec fn wf(self) -> bool {
        forall|i: int| 0 <= i < self.units@.len() ==> (#[trigger] self.units@[i]).wf()
    }

    /// An empty ledger.
    pub fn new() -> (r: AssetLedger)
        ensures
            r.units@.len() == 0,
            r.wf(),
    {
        AssetLedger { units: Vec::new() }
    }

    /// Creates a fresh, not yet issued unit with `controller` as its sole
    /// mint and freeze controller, and returns its reference.
    pub fn create_unit(&mut self, controller: Identity) -> (r: AssetUnitRef)
        requires
            old(self).wf(),
        ensures
            final(self).units@ == old(self).units@.push(
                AssetUnit { controller, supply: 0, holder: None },
            ),
            r.index == old(self).units@.len(),
            final(self).wf(),
    {
        let index: usize = self.units.len();
        self.units.push(AssetUnit { controller, supply: 0, holder: None });
        AssetUnitRef { index }
    }

    /// Issues the single indivisible unit `unit` to `to`.
    ///
    /// The service honours the request only under the genuine capability of
    /// the unit's controller, and only for a unit that was never issued; the
    /// protocol establishes both before it calls.
    pub fn mint_unit(&mut self, unit: AssetUnitRef, to: Identity, capability: &SigningCapability)
        requires
            old(self).wf(),
            unit.index < old(self).units@.len(),
            capability.is_genuine(),
            capability.authority_owner == old(self).units@[unit.index as int].controller,
            old(self).units@[unit.index as int].supply == 0,
        ensures
            final(self).units@ == old(self).units@.update(
                unit.index as int,
                AssetUnit {
                    controller: old(self).units@[unit.index as int].controller,
                    supply: 1,
                    holder: Some(to),
                },
            ),
            final(self).wf(),
    {
        let controller = self.units[unit.index].controller;
        self.units.set(unit.index, AssetUnit { controller, supply: 1, holder: Some(to) });
    }

    /// Reads the unit a reference points at, if the reference is on the
    /// ledger.
    pub fn unit(&self, unit: AssetUnitRef) -> (r: Option<AssetUnit>)
        ensures
            unit.index < self.units@.len() ==> r == Some(self.units@[unit.index as int]),
            unit.index >= self.units@.len() ==> r is None,
    {
        if unit.index < self.units.len() {
            Some(self.units[unit.index])
        } else {
            None
        }
    }
}

} // verus!
