use vstd::prelude::*;

verus! {

/// An externally authenticated principal: a 256-bit key, held as two 128-bit
/// halves, together with whether it names a contract or an account.
///
/// Entities are keyed by their address directly: the internal entity id of a
/// principal is the principal itself.
#[derive(Clone, Copy, Debug, PartialEq, Eq, Hash, Structural)]
pub struct Address {
    pub is_contract: bool,
    pub high: u128,
    pub low: u128,
}

impl Address {
    /// An account address with the given key halves.
    pub fn account(high: u128, low: u128) -> (r: Address)
        ensures
            r == (Address { is_contract: false, high, low }),
    {
        Address { is_contract: false, high, low }
    }

    /// A contract address with the given key halves.
    pub fn contract(high: u128, low: u128) -> (r: Address)
        ensures
            r == (Address { is_contract: true, high, low }),
    {
        Address { is_contract: true, high, low }
    }
}

/// Why an operation of the store was refused.
#[derive(Clone, Copy, Debug, PartialEq, Eq, Structural)]
pub enum ContractError {
    /// The trainer is already registered.
    TrainerExists,
    /// No trainer is registered under that address.
    NoTrainer,
    /// The trainer is registered but not active.
    Inactive,
    /// The patient is already linked to a trainer.
    Linked,
    /// The patient has no record set.
    NoData,
    /// The patient is not linked to any trainer.
    NoLink,
    /// The patient is linked to another trainer.
    WrongTrainer,
    /// The forward index holds no link for the pair.
    NotLinked,
}

impl ContractError {
    /// The numeric code of the error, as the host reports it.
    pub fn code(&self) -> (r: u32)
        ensures
            r == self.spec_code(),
    {
        match self {
            ContractError::TrainerExists => 1,
            ContractError::NoTrainer => 2,
            ContractError::Inactive => 3,
            ContractError::Linked => 4,
            ContractError::NoData => 5,
            ContractError::NoLink => 6,
            ContractError::WrongTrainer => 7,
            ContractError::NotLinked => 8,
        }
    }

    pub open spec fn spec_code(&self) -> u32 {
        match self {
            ContractError::TrainerExists => 1,
            ContractError::NoTrainer => 2,
            ContractError::Inactive => 3,
            ContractError::Linked => 4,
            ContractError::NoData => 5,
            ContractError::NoLink => 6,
            ContractError::WrongTrainer => 7,
            ContractError::NotLinked => 8,
        }
    }
}

/// The registry's record of a trainer.
#[derive(Clone, Copy, Debug, PartialEq, Eq, Structural)]
pub struct TrainerInfo {
    pub trainer_id: Address,
    pub active: bool,
    pub patient_count: u32,
}

/// The named records that a patient's record set holds.
#[derive(Clone, Copy, Debug, PartialEq, Eq, Structural)]
pub enum RecordKind {
    /// The exercise routines that the trainer sets.
    ExerciseRoutines,
    /// The meal plans that the trainer sets.
    MealPlans,
    /// The progress log that the trainer keeps.
    ProgressUpdates,
}

/// A patient's record set: one list of entries per record kind, and the
/// logical time of the last write.
#[derive(Debug)]
pub struct PatientData {
    pub patient_id: Address,
    pub trainer_id: Address,
    pub exercise_routines: Vec<String>,
    pub meal_plans: Vec<String>,
    pub progress_updates: Vec<String>,
    pub last_updated: u64,
}

/// The mathematical value of a [`PatientData`].
pub struct PatientDataView {
    pub patient_id: Address,
    pub trainer_id: Address,
    pub exercise_routines: Seq<String>,
    pub meal_plans: Seq<String>,
    pub progress_updates: Seq<String>,
    pub last_updated: u64,
}

impl View for PatientData {
    type V = PatientDataView;

    open spec fn view(&self) -> PatientDataView {
        PatientDataView {
            patient_id: self.patient_id,
            trainer_id: self.trainer_id,
            exercise_routines: self.exercise_routines@,
            meal_plans: self.meal_plans@,
            progress_updates: self.progress_updates@,
            last_updated: self.last_updated,
        }
    }
}

impl PatientDataView {
    /// The record set that linking creates: every record empty.
    pub open spec fn empty(patient_id: Address, trainer_id: Address, now: u64) -> PatientDataView {
        PatientDataView {
            patient_id,
            trainer_id,
            exercise_routines: Seq::empty(),
            meal_plans: Seq::empty(),
            progress_updates: Seq::empty(),
            last_updated: now,
        }
    }

    /// The content of the record of the given kind.
    pub open spec fn record(self, kind: RecordKind) -> Seq<String> {
        match kind {
            RecordKind::ExerciseRoutines => self.exercise_routines,
            RecordKind::MealPlans => self.meal_plans,
            RecordKind::ProgressUpdates => self.progress_updates,
        }
    }

    /// The record set with the record of the given kind replaced by
    /// `content`, stamped with `now`.
    pub open spec fn with_record(self, kind: RecordKind, content: Seq<String>, now: u64) -> PatientDataView {
        match kind {
            RecordKind::ExerciseRoutines => PatientDataView {
                exercise_routines: content,
                last_updated: now,
                ..self
            },
            RecordKind::MealPlans => PatientDataView { meal_plans: content, last_updated: now, ..self },
            RecordKind::ProgressUpdates => PatientDataView {
                progress_updates: content,
                last_updated: now,
                ..self
            },
        }
    }
}

impl PatientData {
    /// An empty record set for `patient_id`, linked to `trainer_id`, created at `now`.
    pub fn empty(patient_id: Address, trainer_id: Address, now: u64) -> (r: PatientData)
        ensures
            r@ == PatientDataView::empty(patient_id, trainer_id, now),
    {
        let r = PatientData {
            patient_id,
            trainer_id,
            exercise_routines: Vec::new(),
            meal_plans: Vec::new(),
            progress_updates: Vec::new(),
            last_updated: now,
        };
        assert(r@.exercise_routines =~= Seq::<String>::empty());
        assert(r@.meal_plans =~= Seq::<String>::empty());
        assert(r@.progress_updates =~= Seq::<String>::empty());
        r
    }

    /// Reads the record of the given kind.
    pub fn get_record(&self, kind: RecordKind) -> (r: &Vec<String>)
        ensures
            r@ == self@.record(kind),
    {
        match kind {
            RecordKind::ExerciseRoutines => &self.exercise_routines,
            RecordKind::MealPlans => &self.meal_plans,
            RecordKind::ProgressUpdates => &self.progress_updates,
        }
    }

    /// Replaces the record of the given kind by `content` and stamps the set
    /// with `now`.
    pub fn set_record(&mut self, kind: RecordKind, content: Vec<String>, now: u64)
        ensures
            final(self)@ == old(self)@.with_record(kind, content@, now),
    {
        match kind {
            RecordKind::ExerciseRoutines => self.exercise_routines = content,
            RecordKind::MealPlans => self.meal_plans = content,
            RecordKind::ProgressUpdates => self.progress_updates = content,
        }
        self.last_updated = now;
    }
}

/// What a successful change of the store announces to outside observers.
#[derive(Clone, Copy, Debug, PartialEq, Eq, Structural)]
pub enum Event {
    /// A trainer was registered.
    TrainerRegistered { trainer: Address },
    /// A patient was linked to a trainer.
    LinkCreated { trainer: Address, patient: Address },
    /// A record of a patient was overwritten.
    RecordUpdated { kind: RecordKind, patient: Address },
    /// The link of a patient to a trainer was removed.
    LinkRemoved { trainer: Address, patient: Address },
}

} // verus!
