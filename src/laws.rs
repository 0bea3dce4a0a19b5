use vstd::prelude::*;
use crate::types::{Address, ContractError, RecordKind};
use crate::model::{
    Model,
    patients_of,
    lemma_register_inv,
    lemma_link_inv,
    lemma_unlink_inv,
    lemma_update_record_inv,
};

verus! {

/// One change to the store, as a caller requests it.
pub enum Op {
    Register { trainer: Address },
    Link { trainer: Address, patient: Address, now: u64 },
    Unlink { trainer: Address, patient: Address },
    Update { trainer: Address, patient: Address, kind: RecordKind, content: Seq<String>, now: u64 },
}

impl Model {
    /// The outcome of one operation.
    pub open spec fn step(self, op: Op) -> (Model, Result<(), ContractError>) {
        match op {
            Op::Register { trainer } => self.register(trainer),
            Op::Link { trainer, patient, now } => self.link(trainer, patient, now),
            Op::Unlink { trainer, patient } => self.unlink(trainer, patient),
            Op::Update { trainer, patient, kind, content, now } => self.update_record(
                trainer,
                patient,
                kind,
                content,
                now,
            ),
        }
    }

    /// Whether the store accepts the call at all: a link must keep the
    /// trainer's patient count within `u32`.
    pub open spec fn admits(self, op: Op) -> bool {
        match op {
            Op::Link { trainer, .. } => self.can_link(trainer),
            _ => true,
        }
    }

    /// The state after the operations, in order, whether each succeeded or failed.
    pub open spec fn run(self, ops: Seq<Op>) -> Model
        decreases ops.len(),
    {
        if ops.len() == 0 {
            self
        } else {
            self.step(ops[0]).0.run(ops.drop_first())
        }
    }

    /// Whether the store accepts each of the operations in turn.
    pub open spec fn admits_all(self, ops: Seq<Op>) -> bool
        decreases ops.len(),
    {
        if ops.len() == 0 {
            true
        } else {
            self.admits(ops[0]) && self.step(ops[0]).0.admits_all(ops.drop_first())
        }
    }
}

/// Every operation, successful or failed, keeps the store consistent.
pub proof fn lemma_step_inv(m: Model, op: Op)
    requires
        m.inv(),
        m.admits(op),
    ensures
        m.step(op).0.inv(),
{
    match op {
        Op::Register { trainer } => lemma_register_inv(m, trainer),
        Op::Link { trainer, patient, now } => lemma_link_inv(m, trainer, patient, now),
        Op::Unlink { trainer, patient } => lemma_unlink_inv(m, trainer, patient),
        Op::Update { trainer, patient, kind, content, now } => lemma_update_record_inv(
            m,
            trainer,
            patient,
            kind,
            content,
            now,
        ),
    }
}

/// After any sequence of operations, failed ones included, the store is
/// consistent: in particular the forward index holds (t, s) exactly when the
/// backward index maps s to t, and each trainer's patient count is the
/// number of patients linked to it.
pub proof fn lemma_run_inv(m: Model, ops: Seq<Op>)
    requires
        m.inv(),
        m.admits_all(ops),
    ensures
        m.run(ops).inv(),
    decreases ops.len(),
{
    if ops.len() > 0 {
        lemma_step_inv(m, ops[0]);
        lemma_run_inv(m.step(ops[0]).0, ops.drop_first());
    }
}

/// A failed operation leaves the store as it was.
pub proof fn lemma_failed_step_unchanged(m: Model, op: Op)
    requires
        m.step(op).1 is Err,
    ensures
        m.step(op).0 == m,
{
}

/// A patient is linked to at most one trainer, and linking a patient that
/// is linked already fails with `Linked`, whoever the linked trainer is,
/// as soon as the requesting trainer is registered and active.
pub proof fn lemma_link_exclusive(m: Model, s: Address, t1: Address, t2: Address, now: u64)
    requires
        m.inv(),
        m.trainer_patient.contains((t1, s)),
    ensures
        m.trainer_patient.contains((t2, s)) ==> t1 == t2,
        m.trainers.contains_key(t2) && m.trainers[t2].active ==> m.link(t2, s, now) == (
        m,
        Err::<(), ContractError>(ContractError::Linked),
        ),
{
    assert(m.is_linked(t1, s));
    if m.trainer_patient.contains((t2, s)) {
        assert(m.is_linked(t2, s));
    }
}

/// The forward index holds (t, s) exactly when the backward index maps s to t.
pub proof fn lemma_dual_index(m: Model, t: Address, s: Address)
    requires
        m.inv(),
    ensures
        m.trainer_patient.contains((t, s)) <==> (m.patient_trainer.contains_key(s)
            && m.patient_trainer[s] == t),
{
    assert(m.trainer_patient.contains((t, s)) <==> m.is_linked(t, s));
}

/// A registered trainer's patient count is the number of patients linked to it.
pub proof fn lemma_count_correct(m: Model, t: Address)
    requires
        m.inv(),
        m.trainers.contains_key(t),
    ensures
        m.trainers[t].patient_count == patients_of(m.patient_trainer, t).len(),
{
}

/// A trainer other than the one a patient is linked to can neither update
/// the patient's records nor unlink the patient: both fail with
/// `WrongTrainer` and change nothing.
pub proof fn lemma_wrong_trainer_gated(
    m: Model,
    t1: Address,
    t2: Address,
    s: Address,
    kind: RecordKind,
    content: Seq<String>,
    now: u64,
)
    requires
        m.is_linked(t1, s),
        t2 != t1,
    ensures
        m.update_record(t2, s, kind, content, now) == (m, Err::<(), ContractError>(ContractError::WrongTrainer)),
        m.unlink(t2, s) == (m, Err::<(), ContractError>(ContractError::WrongTrainer)),
{
}

/// Registering the same trainer a second time fails with `TrainerExists`
/// and changes nothing.
pub proof fn lemma_register_twice(m: Model, t: Address)
    ensures
        m.register(t).0.register(t) == (m.register(t).0, Err::<(), ContractError>(ContractError::TrainerExists)),
{
}

/// After a link of `s` to `t` and its removal, `s` can be linked again, to
/// `t` or to any other registered and active trainer `t2`; the unlink lowers
/// the count of `t` by one and the new link raises the count of `t2` by one.
pub proof fn lemma_relink_after_unlink(m: Model, t: Address, t2: Address, s: Address, now1: u64, now2: u64)
    requires
        m.inv(),
        m.link(t, s, now1).1 is Ok,
        m.can_link(t),
        m.trainers.contains_key(t2),
        m.trainers[t2].active,
        m.can_link(t2),
    ensures
        ({
            let m1 = m.link(t, s, now1).0;
            let m2 = m1.unlink(t, s).0;
            let m3 = m2.link(t2, s, now2).0;
            &&& m1.unlink(t, s).1 is Ok
            &&& m2.link(t2, s, now2).1 is Ok
            &&& m2.trainers[t].patient_count == m1.trainers[t].patient_count - 1
            &&& m3.trainers[t2].patient_count == m2.trainers[t2].patient_count + 1
            &&& m3.is_linked(t2, s)
        }),
{
    let m1 = m.link(t, s, now1).0;
    lemma_link_inv(m, t, s, now1);
    assert(m1.is_linked(t, s));
    assert(m1.trainer_patient.contains((t, s)));
    let m2 = m1.unlink(t, s).0;
    lemma_unlink_inv(m1, t, s);
    assert(!m2.patient_trainer.contains_key(s));
}

} // verus!
