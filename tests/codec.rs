use trainer_patient_link::plan::{check_link, plan_link, plan_register, plan_unlink, plan_update};
use trainer_patient_link::{Address, ContractError, Event, PatientData, RecordKind, TrainerInfo};

fn account_bytes(key: [u8; 32]) -> Vec<u8> {
    let mut out = vec![0, 0, 0, 18, 0, 0, 0, 0, 0, 0, 0, 0];
    out.extend_from_slice(&key);
    out
}

#[test]
fn decodes_an_account_address() {
    let mut key = [0u8; 32];
    key[15] = 1;
    key[31] = 2;
    key[0] = 0xab;
    let a = Address::from_xdr(&account_bytes(key)).unwrap();
    assert!(!a.is_contract);
    assert_eq!(a.high, (0xab << 120) | 1);
    assert_eq!(a.low, 2);
}

#[test]
fn decodes_a_contract_address() {
    let mut bytes = vec![0, 0, 0, 18, 0, 0, 0, 1];
    bytes.extend_from_slice(&[0xff; 16]);
    bytes.extend_from_slice(&[0x01; 16]);
    let a = Address::from_xdr(&bytes).unwrap();
    assert_eq!(a, Address::contract(u128::MAX, 0x0101_0101_0101_0101_0101_0101_0101_0101));
}

#[test]
fn rejects_other_encodings() {
    assert_eq!(Address::from_xdr(&[]), None);
    let mut wrong_tag = account_bytes([7; 32]);
    wrong_tag[3] = 17;
    assert_eq!(Address::from_xdr(&wrong_tag), None);
    let mut wrong_key_type = account_bytes([7; 32]);
    wrong_key_type[11] = 1;
    assert_eq!(Address::from_xdr(&wrong_key_type), None);
    let short = &account_bytes([7; 32])[..43];
    assert_eq!(Address::from_xdr(short), None);
}

#[test]
fn encoding_round_trips() {
    let a = Address::account(0x0102_0304_0506_0708_090a_0b0c_0d0e_0f10, 42);
    let bytes = a.to_xdr();
    assert_eq!(bytes.len(), 44);
    assert_eq!(&bytes[..12], &[0, 0, 0, 18, 0, 0, 0, 0, 0, 0, 0, 0]);
    assert_eq!(bytes[12], 0x01);
    assert_eq!(bytes[27], 0x10);
    assert_eq!(bytes[43], 42);
    assert_eq!(Address::from_xdr(&bytes), Some(a));
    let c = Address::contract(5, u128::MAX);
    let bytes = c.to_xdr();
    assert_eq!(bytes.len(), 40);
    assert_eq!(Address::from_xdr(&bytes), Some(c));
}

#[test]
fn guard_decisions() {
    let t = Address::account(0, 1);
    let other = Address::account(0, 2);
    assert_eq!(check_link(None, false, t), Err(ContractError::NoLink));
    assert_eq!(check_link(Some(other), true, t), Err(ContractError::WrongTrainer));
    assert_eq!(check_link(Some(t), false, t), Err(ContractError::NotLinked));
    assert_eq!(check_link(Some(t), true, t), Ok(()));
}

#[test]
fn planned_writes() {
    let t = Address::account(0, 1);
    let s = Address::account(0, 2);
    assert_eq!(plan_register(true, t), Err(ContractError::TrainerExists));
    let w = plan_register(false, t).unwrap();
    assert_eq!(w.trainer, TrainerInfo { trainer_id: t, active: true, patient_count: 0 });
    assert_eq!(w.event, Event::TrainerRegistered { trainer: t });

    let info = TrainerInfo { trainer_id: t, active: true, patient_count: 3 };
    assert!(matches!(plan_link(None, false, t, s, 0), Err(ContractError::NoTrainer)));
    let inactive = TrainerInfo { active: false, ..info };
    assert!(matches!(plan_link(Some(inactive), false, t, s, 0), Err(ContractError::Inactive)));
    assert!(matches!(plan_link(Some(info), true, t, s, 0), Err(ContractError::Linked)));
    let w = plan_link(Some(info), false, t, s, 77).unwrap();
    assert_eq!(w.trainer.patient_count, 4);
    assert_eq!(w.data.patient_id, s);
    assert_eq!(w.data.trainer_id, t);
    assert_eq!(w.data.last_updated, 77);
    assert!(w.data.meal_plans.is_empty());

    assert_eq!(plan_unlink(None, t, s), Err(ContractError::NoTrainer));
    assert_eq!(plan_unlink(Some(info), t, s).unwrap().trainer.patient_count, 2);
    let none_left = TrainerInfo { patient_count: 0, ..info };
    assert_eq!(plan_unlink(Some(none_left), t, s).unwrap().trainer.patient_count, 0);

    let content = vec!["Swim: 20min".to_string()];
    assert!(matches!(
        plan_update(None, s, RecordKind::ExerciseRoutines, content.clone(), 1),
        Err(ContractError::NoData)
    ));
    let w = plan_update(Some(PatientData::empty(s, t, 0)), s, RecordKind::ExerciseRoutines, content.clone(), 9)
        .unwrap();
    assert_eq!(w.data.exercise_routines, content);
    assert_eq!(w.data.last_updated, 9);
    assert_eq!(w.event, Event::RecordUpdated { kind: RecordKind::ExerciseRoutines, patient: s });
}
