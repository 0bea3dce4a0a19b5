use vstd::prelude::*;
use crate::types::{Address, ContractError};
use crate::table::{AddressTable, PairSet};
use crate::model::link_check;
use crate::plan::check_link;

verus! {

/// The link authorization guard: it holds both indexes of the links between
/// trainers and patients, and answers whether a trainer may act on a patient.
pub struct AccessControl {
    patient_trainer: AddressTable<Address>,
    trainer_patient: PairSet,
}

impl AccessControl {
    pub closed spec fn wf(&self) -> bool {
        self.patient_trainer.wf() && self.trainer_patient.wf()
    }

    /// The backward index: each linked patient's trainer.
    pub closed spec fn backward(&self) -> Map<Address, Address> {
        self.patient_trainer@
    }

    /// The forward index: the linked (trainer, patient) pairs.
    pub closed spec fn forward(&self) -> Set<(Address, Address)> {
        self.trainer_patient@
    }

    /// A guard with no links.
    pub fn new() -> (r: Self)
        ensures
            r.wf(),
            r.backward() == Map::<Address, Address>::empty(),
            r.forward() == Set::<(Address, Address)>::empty(),
    {
        AccessControl { patient_trainer: AddressTable::new(), trainer_patient: PairSet::new() }
    }

    /// Whether patient `patient_id` is linked to some trainer.
    pub fn is_patient(&self, patient_id: &Address) -> (r: bool)
        requires
            self.wf(),
        ensures
            r == self.backward().contains_key(*patient_id),
    {
        self.patient_trainer.contains(patient_id)
    }

    /// The trainer that patient `patient_id` is linked to.
    pub fn linked_trainer(&self, patient_id: &Address) -> (r: Option<Address>)
        requires
            self.wf(),
        ensures
            match r {
                Some(t) => self.backward().contains_key(*patient_id) && t == self.backward()[*patient_id],
                None => !self.backward().contains_key(*patient_id),
            },
    {
        match self.patient_trainer.get(patient_id) {
            Some(t) => Some(*t),
            None => None,
        }
    }

    /// Whether trainer `trainer_id` may act on patient `patient_id`: `NoLink`
    /// if the patient is linked to no one, `WrongTrainer` if to another
    /// trainer, `NotLinked` if the forward index disagrees.
    pub fn trainer_has_patient_access(&self, trainer_id: &Address, patient_id: &Address) -> (r: Result<
        (),
        ContractError,
    >)
        requires
            self.wf(),
        ensures
            r == link_check(self.backward(), self.forward(), *trainer_id, *patient_id),
    {
        let linked = self.linked_trainer(patient_id);
        let pair_present = self.trainer_patient.contains(trainer_id, patient_id);
        check_link(linked, pair_present, *trainer_id)
    }

    /// Writes both index entries of the link of `patient_id` to `trainer_id`.
    pub fn create_link(&mut self, trainer_id: Address, patient_id: Address)
        requires
            old(self).wf(),
        ensures
            final(self).wf(),
            final(self).backward() == old(self).backward().insert(patient_id, trainer_id),
            final(self).forward() == old(self).forward().insert((trainer_id, patient_id)),
    {
        self.patient_trainer.set(patient_id, trainer_id);
        self.trainer_patient.insert(trainer_id, patient_id);
    }

    /// Removes both index entries of the link of `patient_id` to `trainer_id`.
    pub fn remove_link(&mut self, trainer_id: &Address, patient_id: &Address)
        requires
            old(self).wf(),
        ensures
            final(self).wf(),
            final(self).backward() == old(self).backward().remove(*patient_id),
            final(self).forward() == old(self).forward().remove((*trainer_id, *patient_id)),
    {
        let _ = self.patient_trainer.take(patient_id);
        self.trainer_patient.remove(trainer_id, patient_id);
    }
}

} // verus!
