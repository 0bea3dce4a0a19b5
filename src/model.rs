use vstd::prelude::*;
use crate::types::{Address, ContractError, TrainerInfo, PatientDataView, RecordKind, Event};

verus! {

/// The mathematical state of the store.
pub struct Model {
    /// The registry: each registered trainer's record.
    pub trainers: Map<Address, TrainerInfo>,
    /// The backward index: each linked patient's trainer.
    pub patient_trainer: Map<Address, Address>,
    /// The forward index: the (trainer, patient) pairs that are linked.
    pub trainer_patient: Set<(Address, Address)>,
    /// Each patient's record set.
    pub patient_data: Map<Address, PatientDataView>,
    /// What the successful changes announced, oldest first.
    pub events: Seq<Event>,
}

/// Whether trainer `t` may act on patient `s`, given the backward index
/// `links` and the forward index `pairs`.
pub open spec fn link_check(
    links: Map<Address, Address>,
    pairs: Set<(Address, Address)>,
    t: Address,
    s: Address,
) -> Result<(), ContractError> {
    if !links.contains_key(s) {
        Err(ContractError::NoLink)
    } else if links[s] != t {
        Err(ContractError::WrongTrainer)
    } else if !pairs.contains((t, s)) {
        Err(ContractError::NotLinked)
    } else {
        Ok(())
    }
}

/// The patient count after one patient leaves: one less, never below zero.
pub open spec fn count_after_unlink(count: u32) -> u32 {
    if count > 0 {
        (count - 1) as u32
    } else {
        0
    }
}

/// The patients that the backward index links to trainer `t`.
pub open spec fn patients_of(links: Map<Address, Address>, t: Address) -> Set<Address> {
    links.dom().filter(|s: Address| links[s] == t)
}

impl Model {
    /// The store that initialization creates: nothing registered, nothing linked.
    pub open spec fn initial() -> Model {
        Model {
            trainers: Map::empty(),
            patient_trainer: Map::empty(),
            trainer_patient: Set::empty(),
            patient_data: Map::empty(),
            events: Seq::empty(),
        }
    }

    /// Whether the backward index links patient `s` to trainer `t`.
    pub open spec fn is_linked(self, t: Address, s: Address) -> bool {
        self.patient_trainer.contains_key(s) && self.patient_trainer[s] == t
    }

    /// The consistency that every operation keeps.
    pub open spec fn inv(self) -> bool {
        &&& self.patient_trainer.dom().finite()
        &&& forall|t: Address| #[trigger]
            self.trainers.contains_key(t) ==> self.trainers[t].trainer_id == t
        &&& forall|s: Address| #[trigger]
            self.patient_trainer.contains_key(s) ==> self.trainers.contains_key(self.patient_trainer[s])
        &&& forall|t: Address, s: Address| #[trigger]
            self.trainer_patient.contains((t, s)) <==> self.is_linked(t, s)
        &&& forall|t: Address| #[trigger]
            self.trainers.contains_key(t) ==> self.trainers[t].patient_count == patients_of(
                self.patient_trainer,
                t,
            ).len()
        &&& forall|s: Address| #[trigger]
            self.patient_trainer.contains_key(s) ==> {
                &&& self.patient_data.contains_key(s)
                &&& self.patient_data[s].trainer_id == self.patient_trainer[s]
            }
        &&& forall|s: Address| #[trigger]
            self.patient_data.contains_key(s) ==> self.patient_data[s].patient_id == s
    }

    /// Whether a link for trainer `t` keeps its patient count within `u32`.
    pub open spec fn can_link(self, t: Address) -> bool {
        self.trainers.contains_key(t) ==> self.trainers[t].patient_count < u32::MAX
    }

    /// Registers trainer `t`, active and with no patients.
    pub open spec fn register(self, t: Address) -> (Model, Result<(), ContractError>) {
        if self.trainers.contains_key(t) {
            (self, Err(ContractError::TrainerExists))
        } else {
            (
                Model {
                    trainers: self.trainers.insert(
                        t,
                        TrainerInfo { trainer_id: t, active: true, patient_count: 0 },
                    ),
                    events: self.events.push(Event::TrainerRegistered { trainer: t }),
                    ..self
                },
                Ok(()),
            )
        }
    }

    /// Links patient `s` to trainer `t` at time `now`, with an empty record set.
    pub open spec fn link(self, t: Address, s: Address, now: u64) -> (Model, Result<(), ContractError>) {
        if !self.trainers.contains_key(t) {
            (self, Err(ContractError::NoTrainer))
        } else if !self.trainers[t].active {
            (self, Err(ContractError::Inactive))
        } else if self.patient_trainer.contains_key(s) {
            (self, Err(ContractError::Linked))
        } else {
            let info = self.trainers[t];
            (
                Model {
                    trainers: self.trainers.insert(
                        t,
                        TrainerInfo { patient_count: (info.patient_count + 1) as u32, ..info },
                    ),
                    patient_trainer: self.patient_trainer.insert(s, t),
                    trainer_patient: self.trainer_patient.insert((t, s)),
                    patient_data: self.patient_data.insert(s, PatientDataView::empty(s, t, now)),
                    events: self.events.push(Event::LinkCreated { trainer: t, patient: s }),
                },
                Ok(()),
            )
        }
    }

    /// Whether trainer `t` may act on patient `s`: the check that guards
    /// every change to a patient's records and links.
    pub open spec fn verify_link(self, t: Address, s: Address) -> Result<(), ContractError> {
        link_check(self.patient_trainer, self.trainer_patient, t, s)
    }

    /// Removes the link of patient `s` to trainer `t`; the record set stays.
    pub open spec fn unlink(self, t: Address, s: Address) -> (Model, Result<(), ContractError>) {
        match self.verify_link(t, s) {
            Err(e) => (self, Err(e)),
            Ok(_) => if !self.trainers.contains_key(t) {
                (self, Err(ContractError::NoTrainer))
            } else {
                let info = self.trainers[t];
                let count = count_after_unlink(info.patient_count);
                (
                    Model {
                        trainers: self.trainers.insert(t, TrainerInfo { patient_count: count, ..info }),
                        patient_trainer: self.patient_trainer.remove(s),
                        trainer_patient: self.trainer_patient.remove((t, s)),
                        events: self.events.push(Event::LinkRemoved { trainer: t, patient: s }),
                        ..self
                    },
                    Ok(()),
                )
            },
        }
    }

    /// Trainer `t` overwrites the record of the given kind of patient `s`
    /// with `content`, at time `now`.
    pub open spec fn update_record(
        self,
        t: Address,
        s: Address,
        kind: RecordKind,
        content: Seq<String>,
        now: u64,
    ) -> (Model, Result<(), ContractError>) {
        match self.verify_link(t, s) {
            Err(e) => (self, Err(e)),
            Ok(_) => if !self.patient_data.contains_key(s) {
                (self, Err(ContractError::NoData))
            } else {
                (
                    Model {
                        patient_data: self.patient_data.insert(
                            s,
                            self.patient_data[s].with_record(kind, content, now),
                        ),
                        events: self.events.push(Event::RecordUpdated { kind, patient: s }),
                        ..self
                    },
                    Ok(()),
                )
            },
        }
    }

    /// The registry's record of trainer `t`.
    pub open spec fn trainer_info(self, t: Address) -> Result<TrainerInfo, ContractError> {
        if self.trainers.contains_key(t) {
            Ok(self.trainers[t])
        } else {
            Err(ContractError::NoTrainer)
        }
    }

    /// The trainer that patient `s` is linked to.
    pub open spec fn trainer_of(self, s: Address) -> Result<Address, ContractError> {
        if self.patient_trainer.contains_key(s) {
            Ok(self.patient_trainer[s])
        } else {
            Err(ContractError::NoLink)
        }
    }
}

proof fn lemma_patients_of_insert(links: Map<Address, Address>, s: Address, t: Address, u: Address)
    requires
        links.dom().finite(),
        !links.contains_key(s),
    ensures
        patients_of(links.insert(s, t), u).len() as int == if u == t {
            patients_of(links, u).len() + 1int
        } else {
            patients_of(links, u).len() as int
        },
{
    links.dom().lemma_len_filter(|x: Address| links[x] == u);
    if u == t {
        assert(patients_of(links.insert(s, t), u) =~= patients_of(links, u).insert(s));
    } else {
        assert(patients_of(links.insert(s, t), u) =~= patients_of(links, u));
    }
}

proof fn lemma_patients_of_remove(links: Map<Address, Address>, s: Address, u: Address)
    requires
        links.dom().finite(),
        links.contains_key(s),
    ensures
        patients_of(links.remove(s), u).len() as int == if u == links[s] {
            patients_of(links, u).len() - 1
        } else {
            patients_of(links, u).len() as int
        },
{
    links.dom().lemma_len_filter(|x: Address| links[x] == u);
    if u == links[s] {
        assert(patients_of(links.remove(s), u) =~= patients_of(links, u).remove(s));
    } else {
        assert(patients_of(links.remove(s), u) =~= patients_of(links, u));
    }
}

/// The initial store is consistent.
pub proof fn lemma_initial_inv()
    ensures
        Model::initial().inv(),
{
    let m = Model::initial();
    assert forall|t: Address| #[trigger] m.trainers.contains_key(t) implies m.trainers[t].patient_count
        == patients_of(m.patient_trainer, t).len() by {}
}

/// Registration keeps the store consistent.
pub proof fn lemma_register_inv(m: Model, t: Address)
    requires
        m.inv(),
    ensures
        m.register(t).0.inv(),
{
    let n = m.register(t).0;
    if !m.trainers.contains_key(t) {
        assert forall|u: Address| #[trigger] n.trainers.contains_key(u) implies n.trainers[u].patient_count
            == patients_of(n.patient_trainer, u).len() by {
            if u == t {
                m.patient_trainer.dom().lemma_len_filter(|x: Address| m.patient_trainer[x] == u);
                assert forall|x: Address| !#[trigger] patients_of(m.patient_trainer, u).contains(x) by {}
                assert(patients_of(m.patient_trainer, u) =~= Set::empty());
            }
        }
    }
}

/// Linking keeps the store consistent.
pub proof fn lemma_link_inv(m: Model, t: Address, s: Address, now: u64)
    requires
        m.inv(),
        m.can_link(t),
    ensures
        m.link(t, s, now).0.inv(),
{
    let n = m.link(t, s, now).0;
    if m.link(t, s, now).1 is Ok {
        assert forall|u: Address| #[trigger] n.trainers.contains_key(u) implies n.trainers[u].patient_count
            == patients_of(n.patient_trainer, u).len() by {
            lemma_patients_of_insert(m.patient_trainer, s, t, u);
        }
        assert forall|u: Address, x: Address| #[trigger]
            n.trainer_patient.contains((u, x)) <==> n.is_linked(u, x) by {
            if x != s {
                assert(m.trainer_patient.contains((u, x)) <==> m.is_linked(u, x));
            }
        }
    }
}

/// Unlinking keeps the store consistent.
pub proof fn lemma_unlink_inv(m: Model, t: Address, s: Address)
    requires
        m.inv(),
    ensures
        m.unlink(t, s).0.inv(),
{
    let n = m.unlink(t, s).0;
    if m.unlink(t, s).1 is Ok {
        assert(m.patient_trainer[s] == t);
        assert forall|u: Address| #[trigger] n.trainers.contains_key(u) implies n.trainers[u].patient_count
            == patients_of(n.patient_trainer, u).len() by {
            lemma_patients_of_remove(m.patient_trainer, s, u);
            if u == t {
                assert(patients_of(m.patient_trainer, u).contains(s));
                m.patient_trainer.dom().lemma_len_filter(|x: Address| m.patient_trainer[x] == u);
            }
        }
        assert forall|u: Address, x: Address| #[trigger]
            n.trainer_patient.contains((u, x)) <==> n.is_linked(u, x) by {
            assert(m.trainer_patient.contains((u, x)) <==> m.is_linked(u, x));
        }
    }
}

/// Overwriting a record keeps the store consistent.
pub proof fn lemma_update_record_inv(
    m: Model,
    t: Address,
    s: Address,
    kind: RecordKind,
    content: Seq<String>,
    now: u64,
)
    requires
        m.inv(),
    ensures
        m.update_record(t, s, kind, content, now).0.inv(),
{
}

} // verus!
