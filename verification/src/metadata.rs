use vstd::prelude::*;

use crate::addressing::{Identity, SigningCapability};
use crate::asset::AssetUnitRef;
use crate::errors::SkillChainError;

verus! {

/// The human-readable registration of one asset unit.
pub struct MetadataEntry {
    pub unit: AssetUnitRef,
    pub name: String,
    pub symbol: String,
    pub uri: String,
    /// Resale royalty in basis points; zero for every credential.
    pub royalty_basis_points: u16,
    /// Whether the registration may later be updated by its authority.
    pub is_mutable: bool,
    /// Who retains the right to update the registration.
    pub update_authority: Identity,
}

/// The mathematical image of a metadata entry.
#[verifier::ext_equal]
pub struct MetadataImage {
    pub unit: AssetUnitRef,
    pub name: Seq<char>,
    pub symbol: Seq<char>,
    pub uri: Seq<char>,
    pub royalty_basis_points: u16,
    pub is_mutable: bool,
    pub update_authority: Identity,
}

impl MetadataEntry {
    /// The entry as its mathematical image.
    pub open spec fn image(self) -> MetadataImage {
        MetadataImage {
            unit: self.unit,
            name: self.name@,
            symbol: self.symbol@,
            uri: self.uri@,
            royalty_basis_points: self.royalty_basis_points,
            is_mutable: self.is_mutable,
            update_authority: self.update_authority,
        }
    }
}

/// A metadata pointer the registry accepts: non-empty.
pub open spec fn uri_well_formed(uri: Seq<char>) -> bool {
    uri.len() > 0
}

/// Whether some entry in `entries` registers `unit`.
pub open spec fn has_registration(entries: Seq<MetadataImage>, unit: AssetUnitRef) -> bool {
    exists|i: int| 0 <= i < entries.len() && (#[trigger] entries[i]).unit == unit
}

/// The metadata service: at most one registration per asset unit, each with a
/// well-formed pointer.
pub struct MetadataRegistry {
    pub entries: Vec<MetadataEntry>,
}

impl MetadataRegistry {
    /// The registrations as their mathematical images.
    pub open spec fn images(self) -> Seq<MetadataImage> {
        self.entries@.map_values(|e: MetadataEntry| e.image())
    }

    /// Every stored pointer is well-formed and no unit is registered twice.
    pub open spec fn wf(self) -> bool {
        &&& forall|i: int|
            0 <= i < self.images().len() ==> uri_well_formed((#[trigger] self.images()[i]).uri)
        &&& forall|i: int, j: int|
            0 <= i < self.images().len() && 0 <= j < self.images().len() && i != j ==> (
            #[trigger] self.images()[i]).unit != (#[trigger] self.images()[j]).unit
    }

    /// An empty registry.
    pub fn new() -> (r: MetadataRegistry)
        ensures
            r.images().len() == 0,
            r.wf(),
    {
        MetadataRegistry { entries: Vec::new() }
    }

    /// Attaches `(name, symbol, uri)` to `unit` on behalf of the capability's
    /// owner, who retains the right to update the registration.
    ///
    /// The service refuses a malformed pointer, a counterfeit capability, and
    /// a unit that is already registered; on refusal nothing is stored.
    pub fn attach(
        &mut self,
        unit: AssetUnitRef,
        name: String,
        symbol: String,
        uri: String,
        royalty_basis_points: u16,
        is_mutable: bool,
        capability: &SigningCapability,
    ) -> (r: Result<(), SkillChainError>)
        requires
            old(self).wf(),
        ensures
            final(self).wf(),
            r is Ok <==> uri_well_formed(uri@) && capability.is_genuine() && !has_registration(
                old(self).images(),
                unit,
            ),
            r is Ok ==> final(self).images() == old(self).images().push(
                MetadataImage {
                    unit,
                    name: name@,
                    symbol: symbol@,
                    uri: uri@,
                    royalty_basis_points,
                    is_mutable,
                    update_authority: capability.authority_owner,
                },
            ),
            r is Err ==> final(self).images() == old(self).images() && r == Err::<
                (),
                SkillChainError,
            >(SkillChainError::MetadataServiceError),
    {
        if uri.as_str().is_empty() || !capability.check_genuine() || self.is_registered(unit) {
            return Err(SkillChainError::MetadataServiceError);
        }
        let entry = MetadataEntry {
            unit,
            name,
            symbol,
            uri,
            royalty_basis_points,
            is_mutable,
            update_authority: capability.authority_owner,
        };
        let ghost pushed = entry.image();
        self.entries.push(entry);
        proof {
            assert(self.images() =~= old(self).images().push(pushed));
            assert forall|i: int| 0 <= i < self.images().len() implies uri_well_formed(
                (#[trigger] self.images()[i]).uri,
            ) by {
                if i < old(self).images().len() {
                    assert(uri_well_formed(old(self).images()[i].uri));
                }
            }
            assert forall|i: int, j: int|
                0 <= i < self.images().len() && 0 <= j < self.images().len() && i != j implies (
            #[trigger] self.images()[i]).unit != (#[trigger] self.images()[j]).unit by {
                if i < old(self).images().len() && j < old(self).images().len() {
                    assert(old(self).images()[i].unit != old(self).images()[j].unit);
                }
            }
        }
        Ok(())
    }

    /// Whether `unit` is already registered.
    pub fn is_registered(&self, unit: AssetUnitRef) -> (r: bool)
        ensures
            r == has_registration(self.images(), unit),
    {
        let mut i: usize = 0;
        while i < self.entries.len()
            invariant
                0 <= i <= self.entries@.len(),
                forall|j: int| 0 <= j < i ==> (#[trigger] self.images()[j]).unit != unit,
            decreases self.entries@.len() - i,
        {
            let entry = &self.entries[i];
            if entry.unit == unit {
                assert(self.images()[i as int].unit == unit);
                return true;
            }
            i = i + 1;
        }
        false
    }

    /// Reads the registration of `unit`, if there is one.
    pub fn registration(&self, unit: AssetUnitRef) -> (r: Option<&MetadataEntry>)
        requires
            self.wf(),
        ensures
            r is Some <==> has_registration(self.images(), unit),
            r matches Some(e) ==> e.image().unit == unit && self.images().contains(e.image()),
    {
        let mut i: usize = 0;
        while i < self.entries.len()
            invariant
                0 <= i <= self.entries@.len(),
                forall|j: int| 0 <= j < i ==> (#[trigger] self.images()[j]).unit != unit,
            decreases self.entries@.len() - i,
        {
            let entry = &self.entries[i];
            if entry.unit == unit {
                assert(self.images()[i as int] == entry.image());
                return Some(entry);
            }
            i = i + 1;
        }
        None
    }
}

} // verus!
