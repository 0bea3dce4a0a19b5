use vstd::prelude::*;
use crate::types::{Address, ContractError, TrainerInfo, PatientData, PatientDataView, RecordKind, Event};
use crate::model::count_after_unlink;

verus! {

/// The writes of a registration.
#[derive(Clone, Copy, Debug, PartialEq, Eq, Structural)]
pub struct RegisterWrites {
    /// The new registry record, stored under its trainer.
    pub trainer: TrainerInfo,
    pub event: Event,
}

/// The writes of a link, to be applied together.
#[derive(Debug)]
pub struct LinkWrites {
    pub trainer_id: Address,
    pub patient_id: Address,
    /// The trainer's registry record, with the new patient counted.
    pub trainer: TrainerInfo,
    /// The patient's new, empty record set.
    pub data: PatientData,
    pub event: Event,
}

/// The writes of an unlink, to be applied together: both index entries of
/// the pair are removed.
#[derive(Clone, Copy, Debug, PartialEq, Eq, Structural)]
pub struct UnlinkWrites {
    pub trainer_id: Address,
    pub patient_id: Address,
    /// The trainer's registry record, with the patient no longer counted.
    pub trainer: TrainerInfo,
    pub event: Event,
}

/// The writes of a record update.
#[derive(Debug)]
pub struct UpdateWrites {
    pub patient_id: Address,
    /// The patient's record set, with the record replaced.
    pub data: PatientData,
    pub event: Event,
}

/// The guard's decision from what the two indexes hold for a patient: the
/// trainer of the backward index, if any, and whether the forward index
/// holds the pair (`trainer_id`, patient).
pub fn check_link(linked_trainer: Option<Address>, pair_present: bool, trainer_id: Address) -> (r: Result<
    (),
    ContractError,
>)
    ensures
        r == (match linked_trainer {
            None => Err(ContractError::NoLink),
            Some(t) => if t != trainer_id {
                Err(ContractError::WrongTrainer)
            } else if !pair_present {
                Err(ContractError::NotLinked)
            } else {
                Ok(())
            },
        }),
{
    match linked_trainer {
        None => Err(ContractError::NoLink),
        Some(t) => {
            if t != trainer_id {
                Err(ContractError::WrongTrainer)
            } else if !pair_present {
                Err(ContractError::NotLinked)
            } else {
                Ok(())
            }
        },
    }
}

/// Registration of `trainer_id`, given whether it is registered already.
pub fn plan_register(registered: bool, trainer_id: Address) -> (r: Result<RegisterWrites, ContractError>)
    ensures
        registered ==> r == Err::<RegisterWrites, ContractError>(ContractError::TrainerExists),
        !registered ==> r == Ok::<RegisterWrites, ContractError>(
            RegisterWrites {
                trainer: TrainerInfo { trainer_id, active: true, patient_count: 0 },
                event: Event::TrainerRegistered { trainer: trainer_id },
            },
        ),
{
    if registered {
        return Err(ContractError::TrainerExists);
    }
    Ok(RegisterWrites {
        trainer: TrainerInfo { trainer_id, active: true, patient_count: 0 },
        event: Event::TrainerRegistered { trainer: trainer_id },
    })
}

/// A link of `patient_id` to `trainer_id` at `now`, given the trainer's
/// registry record, if any, and whether the patient is linked already.
pub fn plan_link(
    trainer: Option<TrainerInfo>,
    patient_linked: bool,
    trainer_id: Address,
    patient_id: Address,
    now: u64,
) -> (r: Result<LinkWrites, ContractError>)
    requires
        trainer matches Some(info) ==> info.patient_count < u32::MAX,
    ensures
        match trainer {
            None => r == Err::<LinkWrites, ContractError>(ContractError::NoTrainer),
            Some(info) => if !info.active {
                r == Err::<LinkWrites, ContractError>(ContractError::Inactive)
            } else if patient_linked {
                r == Err::<LinkWrites, ContractError>(ContractError::Linked)
            } else {
                r matches Ok(w) && {
                    &&& w.trainer_id == trainer_id
                    &&& w.patient_id == patient_id
                    &&& w.trainer == (TrainerInfo { patient_count: (info.patient_count + 1) as u32, ..info })
                    &&& w.data@ == PatientDataView::empty(patient_id, trainer_id, now)
                    &&& w.event == (Event::LinkCreated { trainer: trainer_id, patient: patient_id })
                }
            },
        },
{
    let info = match trainer {
        Some(info) => info,
        None => return Err(ContractError::NoTrainer),
    };
    if !info.active {
        return Err(ContractError::Inactive);
    }
    if patient_linked {
        return Err(ContractError::Linked);
    }
    Ok(LinkWrites {
        trainer_id,
        patient_id,
        trainer: TrainerInfo { patient_count: info.patient_count + 1, ..info },
        data: PatientData::empty(patient_id, trainer_id, now),
        event: Event::LinkCreated { trainer: trainer_id, patient: patient_id },
    })
}

/// The removal of the link of `patient_id` to `trainer_id`, once the guard
/// has admitted it, given the trainer's registry record, if any.
pub fn plan_unlink(trainer: Option<TrainerInfo>, trainer_id: Address, patient_id: Address) -> (r: Result<
    UnlinkWrites,
    ContractError,
>)
    ensures
        r == (match trainer {
            None => Err(ContractError::NoTrainer),
            Some(info) => Ok(
                UnlinkWrites {
                    trainer_id,
                    patient_id,
                    trainer: TrainerInfo { patient_count: count_after_unlink(info.patient_count), ..info },
                    event: Event::LinkRemoved { trainer: trainer_id, patient: patient_id },
                },
            ),
        }),
{
    let info = match trainer {
        Some(info) => info,
        None => return Err(ContractError::NoTrainer),
    };
    let count: u32 = if info.patient_count > 0 {
        info.patient_count - 1
    } else {
        0
    };
    Ok(UnlinkWrites {
        trainer_id,
        patient_id,
        trainer: TrainerInfo { patient_count: count, ..info },
        event: Event::LinkRemoved { trainer: trainer_id, patient: patient_id },
    })
}

/// The replacement of the record of the given kind of `patient_id` by
/// `content` at `now`, once the guard has admitted it, given the patient's
/// record set, if any.
pub fn plan_update(
    data: Option<PatientData>,
    patient_id: Address,
    kind: RecordKind,
    content: Vec<String>,
    now: u64,
) -> (r: Result<UpdateWrites, ContractError>)
    ensures
        match data {
            None => r == Err::<UpdateWrites, ContractError>(ContractError::NoData),
            Some(d) => r matches Ok(w) && {
                &&& w.patient_id == patient_id
                &&& w.data@ == d@.with_record(kind, content@, now)
                &&& w.event == (Event::RecordUpdated { kind, patient: patient_id })
            },
        },
{
    let mut d = match data {
        Some(d) => d,
        None => return Err(ContractError::NoData),
    };
    d.set_record(kind, content, now);
    Ok(UpdateWrites { patient_id, data: d, event: Event::RecordUpdated { kind, patient: patient_id } })
}

} // verus!
