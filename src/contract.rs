use vstd::prelude::*;
use crate::types::{Address, ContractError, TrainerInfo, PatientData, RecordKind, Event};
use crate::table::AddressTable;
use crate::access::AccessControl;
use crate::data::DataStore;
use crate::plan::{plan_register, plan_link, plan_unlink, plan_update};
use crate::model::{
    Model,
    lemma_initial_inv,
    lemma_register_inv,
    lemma_link_inv,
    lemma_unlink_inv,
    lemma_update_record_inv,
};

verus! {

/// The store: the trainer registry, the link guard, the patients' records
/// and the log of announced events.
///
/// Every operation is specified as a transition of [`Model`]: on success it
/// makes all of its writes, on failure none. The caller is expected to have
/// authenticated the principal that acts (the trainer for registration,
/// linking, unlinking and updates; the patient for reads of their own data)
/// before calling.
pub struct TrainerPatientContract {
    trainers: AddressTable<TrainerInfo>,
    access: AccessControl,
    data: DataStore,
    events: Vec<Event>,
}

impl View for TrainerPatientContract {
    type V = Model;

    closed spec fn view(&self) -> Model {
        Model {
            trainers: self.trainers@,
            patient_trainer: self.access.backward(),
            trainer_patient: self.access.forward(),
            patient_data: self.data.records(),
            events: self.events@,
        }
    }
}

impl TrainerPatientContract {
    /// The representation is sound and the state is consistent.
    pub closed spec fn wf(&self) -> bool {
        &&& self.trainers.wf()
        &&& self.access.wf()
        &&& self.data.wf()
        &&& self@.inv()
    }

    /// An empty store: no trainer registered, no patient linked.
    pub fn initialize() -> (r: Self)
        ensures
            r.wf(),
            r@ == Model::initial(),
    {
        let r = TrainerPatientContract {
            trainers: AddressTable::new(),
            access: AccessControl::new(),
            data: DataStore::new(),
            events: Vec::new(),
        };
        proof {
            lemma_initial_inv();
            assert(r@.events =~= Seq::<Event>::empty());
            assert(r@ == Model::initial());
        }
        r
    }

    /// Registers `trainer_id` as an active trainer with no patients;
    /// `TrainerExists` if it is registered already.
    pub fn register_trainer(&mut self, trainer_id: Address) -> (r: Result<(), ContractError>)
        requires
            old(self).wf(),
        ensures
            final(self).wf(),
            (final(self)@, r) == old(self)@.register(trainer_id),
    {
        let writes = plan_register(self.trainers.contains(&trainer_id), trainer_id)?;
        proof {
            lemma_register_inv(self@, trainer_id);
        }
        self.trainers.set(trainer_id, writes.trainer);
        self.events.push(writes.event);
        Ok(())
    }

    /// Links `patient_id` to `trainer_id` at time `now` and gives the patient
    /// an empty record set: `NoTrainer` if the trainer is not registered,
    /// `Inactive` if it is not active, `Linked` if the patient is linked to
    /// any trainer, this one included.
    pub fn link_patient(&mut self, trainer_id: Address, patient_id: Address, now: u64) -> (r: Result<
        (),
        ContractError,
    >)
        requires
            old(self).wf(),
            old(self)@.can_link(trainer_id),
        ensures
            final(self).wf(),
            (final(self)@, r) == old(self)@.link(trainer_id, patient_id, now),
    {
        let trainer = match self.trainers.get(&trainer_id) {
            Some(info) => Some(*info),
            None => None,
        };
        let patient_linked = self.access.is_patient(&patient_id);
        let writes = plan_link(trainer, patient_linked, trainer_id, patient_id, now)?;
        proof {
            lemma_link_inv(self@, trainer_id, patient_id, now);
        }
        self.access.create_link(writes.trainer_id, writes.patient_id);
        self.data.put(writes.patient_id, writes.data);
        self.trainers.set(writes.trainer_id, writes.trainer);
        self.events.push(writes.event);
        Ok(())
    }

    /// Whether `trainer_id` may act on `patient_id`: `NoLink` if the patient
    /// is linked to no trainer, `WrongTrainer` if to another one, `NotLinked`
    /// if the forward index holds no entry for the pair.
    pub fn verify_trainer_patient_link(&self, trainer_id: &Address, patient_id: &Address) -> (r: Result<
        (),
        ContractError,
    >)
        requires
            self.wf(),
        ensures
            r == self@.verify_link(*trainer_id, *patient_id),
    {
        self.access.trainer_has_patient_access(trainer_id, patient_id)
    }

    /// `trainer_id` overwrites the record of the given kind of `patient_id`
    /// with `content` and stamps the record set with `now`; the errors of
    /// [`Self::verify_trainer_patient_link`], or `NoData`.
    pub fn update_record(
        &mut self,
        trainer_id: &Address,
        patient_id: &Address,
        kind: RecordKind,
        content: Vec<String>,
        now: u64,
    ) -> (r: Result<(), ContractError>)
        requires
            old(self).wf(),
        ensures
            final(self).wf(),
            (final(self)@, r) == old(self)@.update_record(*trainer_id, *patient_id, kind, content@, now),
    {
        let ghost content_view = content@;
        self.access.trainer_has_patient_access(trainer_id, patient_id)?;
        proof {
            lemma_update_record_inv(self@, *trainer_id, *patient_id, kind, content_view, now);
        }
        let data = self.data.take(patient_id);
        let writes = plan_update(data, *patient_id, kind, content, now)?;
        self.data.put(writes.patient_id, writes.data);
        self.events.push(writes.event);
        proof {
            assert(self@.patient_data =~= old(self)@.update_record(
                *trainer_id,
                *patient_id,
                kind,
                content_view,
                now,
            ).0.patient_data);
        }
        Ok(())
    }

    /// Overwrites the patient's exercise routines; see [`Self::update_record`].
    pub fn update_exercise_routines(
        &mut self,
        trainer_id: &Address,
        patient_id: &Address,
        routines: Vec<String>,
        now: u64,
    ) -> (r: Result<(), ContractError>)
        requires
            old(self).wf(),
        ensures
            final(self).wf(),
            (final(self)@, r) == old(self)@.update_record(
                *trainer_id,
                *patient_id,
                RecordKind::ExerciseRoutines,
                routines@,
                now,
            ),
    {
        self.update_record(trainer_id, patient_id, RecordKind::ExerciseRoutines, routines, now)
    }

    /// Overwrites the patient's meal plans; see [`Self::update_record`].
    pub fn update_meal_plans(
        &mut self,
        trainer_id: &Address,
        patient_id: &Address,
        meal_plans: Vec<String>,
        now: u64,
    ) -> (r: Result<(), ContractError>)
        requires
            old(self).wf(),
        ensures
            final(self).wf(),
            (final(self)@, r) == old(self)@.update_record(
                *trainer_id,
                *patient_id,
                RecordKind::MealPlans,
                meal_plans@,
                now,
            ),
    {
        self.update_record(trainer_id, patient_id, RecordKind::MealPlans, meal_plans, now)
    }

    /// Overwrites the patient's progress updates; see [`Self::update_record`].
    pub fn update_progress(
        &mut self,
        trainer_id: &Address,
        patient_id: &Address,
        progress_updates: Vec<String>,
        now: u64,
    ) -> (r: Result<(), ContractError>)
        requires
            old(self).wf(),
        ensures
            final(self).wf(),
            (final(self)@, r) == old(self)@.update_record(
                *trainer_id,
                *patient_id,
                RecordKind::ProgressUpdates,
                progress_updates@,
                now,
            ),
    {
        self.update_record(trainer_id, patient_id, RecordKind::ProgressUpdates, progress_updates, now)
    }

    /// The record set of `patient_id`, read by the patient; `NoData` if the
    /// patient was never linked.
    pub fn get_patient_data(&self, patient_id: &Address) -> (r: Result<&PatientData, ContractError>)
        requires
            self.wf(),
        ensures
            match r {
                Ok(d) => self@.patient_data.contains_key(*patient_id) && d@ == self@.patient_data[*patient_id],
                Err(e) => !self@.patient_data.contains_key(*patient_id) && e == ContractError::NoData,
            },
    {
        match self.data.get(patient_id) {
            Some(d) => Ok(d),
            None => Err(ContractError::NoData),
        }
    }

    /// The record of the given kind of `patient_id`, read by the patient;
    /// `NoData` if the patient was never linked.
    pub fn get_record(&self, patient_id: &Address, kind: RecordKind) -> (r: Result<&Vec<String>, ContractError>)
        requires
            self.wf(),
        ensures
            match r {
                Ok(c) => self@.patient_data.contains_key(*patient_id) && c@ == self@.patient_data[*patient_id].record(kind),
                Err(e) => !self@.patient_data.contains_key(*patient_id) && e == ContractError::NoData,
            },
    {
        match self.data.get(patient_id) {
            Some(d) => Ok(d.get_record(kind)),
            None => Err(ContractError::NoData),
        }
    }

    /// The registry's record of `trainer_id`; `NoTrainer` if it is not registered.
    pub fn get_trainer_info(&self, trainer_id: &Address) -> (r: Result<TrainerInfo, ContractError>)
        requires
            self.wf(),
        ensures
            r == self@.trainer_info(*trainer_id),
    {
        match self.trainers.get(trainer_id) {
            Some(info) => Ok(*info),
            None => Err(ContractError::NoTrainer),
        }
    }

    /// The trainer that `patient_id` is linked to, read by the patient;
    /// `NoLink` if the patient is linked to no trainer.
    pub fn get_patient_trainer(&self, patient_id: &Address) -> (r: Result<Address, ContractError>)
        requires
            self.wf(),
        ensures
            r == self@.trainer_of(*patient_id),
    {
        match self.access.linked_trainer(patient_id) {
            Some(t) => Ok(t),
            None => Err(ContractError::NoLink),
        }
    }

    /// Removes the link of `patient_id` to `trainer_id` and lowers the
    /// trainer's patient count, never below zero; the patient's record set
    /// stays. The errors of [`Self::verify_trainer_patient_link`].
    pub fn unlink_patient(&mut self, trainer_id: &Address, patient_id: &Address) -> (r: Result<
        (),
        ContractError,
    >)
        requires
            old(self).wf(),
        ensures
            final(self).wf(),
            (final(self)@, r) == old(self)@.unlink(*trainer_id, *patient_id),
    {
        self.access.trainer_has_patient_access(trainer_id, patient_id)?;
        let trainer = match self.trainers.get(trainer_id) {
            Some(info) => Some(*info),
            None => None,
        };
        let writes = plan_unlink(trainer, *trainer_id, *patient_id)?;
        proof {
            lemma_unlink_inv(self@, *trainer_id, *patient_id);
        }
        self.access.remove_link(&writes.trainer_id, &writes.patient_id);
        self.trainers.set(writes.trainer_id, writes.trainer);
        self.events.push(writes.event);
        Ok(())
    }

    /// What the successful changes announced so far, oldest first.
    pub fn events(&self) -> (r: &Vec<Event>)
        ensures
            r@ == self@.events,
    {
        &self.events
    }
}

} // verus!
