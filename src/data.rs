use vstd::prelude::*;
use crate::types::{Address, PatientData, PatientDataView};
use crate::table::AddressTable;

verus! {

/// The subject record store: each patient's record set.
pub struct DataStore {
    records: AddressTable<PatientData>,
}

impl DataStore {
    pub closed spec fn wf(&self) -> bool {
        self.records.wf()
    }

    /// Each patient's record set, as values.
    pub closed spec fn records(&self) -> Map<Address, PatientDataView> {
        self.records@.map_values(|d: PatientData| d@)
    }

    /// A store with no record sets.
    pub fn new() -> (r: Self)
        ensures
            r.wf(),
            r.records() == Map::<Address, PatientDataView>::empty(),
    {
        let r = DataStore { records: AddressTable::new() };
        assert(r.records() =~= Map::<Address, PatientDataView>::empty());
        r
    }

    /// The record set of `patient_id`.
    pub fn get(&self, patient_id: &Address) -> (r: Option<&PatientData>)
        requires
            self.wf(),
        ensures
            match r {
                Some(d) => self.records().contains_key(*patient_id) && d@ == self.records()[*patient_id],
                None => !self.records().contains_key(*patient_id),
            },
    {
        self.records.get(patient_id)
    }

    /// Removes the record set of `patient_id` and hands it back, if there was one.
    pub fn take(&mut self, patient_id: &Address) -> (r: Option<PatientData>)
        requires
            old(self).wf(),
        ensures
            final(self).wf(),
            final(self).records() == old(self).records().remove(*patient_id),
            match r {
                Some(d) => old(self).records().contains_key(*patient_id) && d@ == old(self).records()[*patient_id],
                None => !old(self).records().contains_key(*patient_id),
            },
    {
        let r = self.records.take(patient_id);
        assert(self.records() =~= old(self).records().remove(*patient_id));
        r
    }

    /// Stores `data` as the record set of `patient_id`, replacing any earlier one.
    pub fn put(&mut self, patient_id: Address, data: PatientData)
        requires
            old(self).wf(),
        ensures
            final(self).wf(),
            final(self).records() == old(self).records().insert(patient_id, data@),
    {
        let ghost v = data@;
        self.records.set(patient_id, data);
        assert(self.records() =~= old(self).records().insert(patient_id, v));
    }
}

} // verus!
