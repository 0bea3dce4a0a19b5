use trainer_patient_link::{Address, ContractError, Event, RecordKind, TrainerPatientContract};

fn account(n: u128) -> Address {
    Address::account(7, n)
}

fn entries(items: &[&str]) -> Vec<String> {
    items.iter().map(|s| s.to_string()).collect()
}

#[test]
fn scenario_register_link_update_unlink() {
    let mut store = TrainerPatientContract::initialize();
    let a = account(1);
    let b = account(2);
    let s = account(3);

    store.register_trainer(a).unwrap();
    assert_eq!(store.link_patient(a, s, 100), Ok(()));
    assert_eq!(store.get_trainer_info(&a).unwrap().patient_count, 1);

    let plan = entries(&["Breakfast: eggs", "Dinner: fish"]);
    assert_eq!(store.update_record(&a, &s, RecordKind::MealPlans, plan.clone(), 101), Ok(()));
    let data = store.get_patient_data(&s).unwrap();
    assert_eq!(data.meal_plans, plan);
    assert_eq!(data.last_updated, 101);

    store.register_trainer(b).unwrap();
    assert_eq!(store.link_patient(b, s, 102), Err(ContractError::Linked));

    assert_eq!(store.unlink_patient(&a, &s), Ok(()));
    assert_eq!(store.get_trainer_info(&a).unwrap().patient_count, 0);

    let plan2 = entries(&["Lunch: rice"]);
    assert_eq!(store.update_record(&a, &s, RecordKind::MealPlans, plan2, 103), Err(ContractError::NoLink));
}

#[test]
fn link_is_exclusive_even_for_the_same_trainer() {
    let mut store = TrainerPatientContract::initialize();
    let t = account(1);
    let s = account(2);
    store.register_trainer(t).unwrap();
    store.link_patient(t, s, 0).unwrap();
    assert_eq!(store.link_patient(t, s, 1), Err(ContractError::Linked));
    assert_eq!(store.get_trainer_info(&t).unwrap().patient_count, 1);
    assert_eq!(store.get_patient_trainer(&s), Ok(t));
}

#[test]
fn indexes_agree_after_failed_calls() {
    let mut store = TrainerPatientContract::initialize();
    let t1 = account(1);
    let t2 = account(2);
    let s = account(3);
    store.register_trainer(t1).unwrap();
    store.register_trainer(t2).unwrap();
    store.link_patient(t1, s, 0).unwrap();
    assert_eq!(store.unlink_patient(&t2, &s), Err(ContractError::WrongTrainer));
    assert_eq!(store.link_patient(t2, s, 0), Err(ContractError::Linked));
    assert_eq!(store.verify_trainer_patient_link(&t1, &s), Ok(()));
    assert_eq!(store.verify_trainer_patient_link(&t2, &s), Err(ContractError::WrongTrainer));
    assert_eq!(store.get_patient_trainer(&s), Ok(t1));
}

#[test]
fn count_follows_links() {
    let mut store = TrainerPatientContract::initialize();
    let t = account(1);
    store.register_trainer(t).unwrap();
    for n in 10..15 {
        store.link_patient(t, account(n), 0).unwrap();
    }
    assert_eq!(store.get_trainer_info(&t).unwrap().patient_count, 5);
    store.unlink_patient(&t, &account(12)).unwrap();
    store.unlink_patient(&t, &account(10)).unwrap();
    assert_eq!(store.get_trainer_info(&t).unwrap().patient_count, 3);
    assert_eq!(store.unlink_patient(&t, &account(10)), Err(ContractError::NoLink));
    assert_eq!(store.get_trainer_info(&t).unwrap().patient_count, 3);
}

#[test]
fn wrong_trainer_changes_nothing() {
    let mut store = TrainerPatientContract::initialize();
    let t1 = account(1);
    let t2 = account(2);
    let s = account(3);
    store.register_trainer(t1).unwrap();
    store.register_trainer(t2).unwrap();
    store.link_patient(t1, s, 5).unwrap();
    let events_before = store.events().len();
    let result = store.update_progress(&t2, &s, entries(&["forged"]), 6);
    assert_eq!(result, Err(ContractError::WrongTrainer));
    assert_eq!(store.unlink_patient(&t2, &s), Err(ContractError::WrongTrainer));
    let data = store.get_patient_data(&s).unwrap();
    assert!(data.progress_updates.is_empty());
    assert_eq!(data.last_updated, 5);
    assert_eq!(store.events().len(), events_before);
    assert_eq!(store.get_trainer_info(&t1).unwrap().patient_count, 1);
}

#[test]
fn second_registration_is_rejected() {
    let mut store = TrainerPatientContract::initialize();
    let t = account(1);
    assert_eq!(store.register_trainer(t), Ok(()));
    assert_eq!(store.register_trainer(t), Err(ContractError::TrainerExists));
    assert_eq!(store.events().len(), 1);
    let info = store.get_trainer_info(&t).unwrap();
    assert!(info.active);
    assert_eq!(info.patient_count, 0);
}

#[test]
fn relink_after_unlink() {
    let mut store = TrainerPatientContract::initialize();
    let t = account(1);
    let t2 = account(2);
    let s = account(3);
    store.register_trainer(t).unwrap();
    store.register_trainer(t2).unwrap();
    store.link_patient(t, s, 0).unwrap();
    store.unlink_patient(&t, &s).unwrap();
    assert_eq!(store.get_trainer_info(&t).unwrap().patient_count, 0);
    assert_eq!(store.link_patient(t2, s, 9), Ok(()));
    assert_eq!(store.get_trainer_info(&t2).unwrap().patient_count, 1);
    assert_eq!(store.get_patient_trainer(&s), Ok(t2));
    assert_eq!(store.get_patient_data(&s).unwrap().trainer_id, t2);

    store.unlink_patient(&t2, &s).unwrap();
    assert_eq!(store.link_patient(t, s, 10), Ok(()));
    assert_eq!(store.get_trainer_info(&t).unwrap().patient_count, 1);
    assert_eq!(store.get_trainer_info(&t2).unwrap().patient_count, 0);
}

#[test]
fn link_without_registration_fails() {
    let mut store = TrainerPatientContract::initialize();
    assert_eq!(store.link_patient(account(1), account(2), 0), Err(ContractError::NoTrainer));
    assert_eq!(store.get_patient_trainer(&account(2)), Err(ContractError::NoLink));
}

#[test]
fn records_are_kept_after_unlink() {
    let mut store = TrainerPatientContract::initialize();
    let t = account(1);
    let s = account(2);
    store.register_trainer(t).unwrap();
    store.link_patient(t, s, 0).unwrap();
    let routine = entries(&["Plank: 3x60s"]);
    store.update_exercise_routines(&t, &s, routine.clone(), 4).unwrap();
    store.unlink_patient(&t, &s).unwrap();
    assert_eq!(store.get_record(&s, RecordKind::ExerciseRoutines), Ok(&routine));
    assert_eq!(store.get_patient_trainer(&s), Err(ContractError::NoLink));
}

#[test]
fn each_record_kind_is_separate() {
    let mut store = TrainerPatientContract::initialize();
    let t = account(1);
    let s = account(2);
    store.register_trainer(t).unwrap();
    store.link_patient(t, s, 1).unwrap();
    assert!(store.get_record(&s, RecordKind::ProgressUpdates).unwrap().is_empty());
    let progress = entries(&["Week 1: 2kg down"]);
    store.update_record(&t, &s, RecordKind::ProgressUpdates, progress.clone(), 2).unwrap();
    assert_eq!(store.get_record(&s, RecordKind::ProgressUpdates), Ok(&progress));
    assert!(store.get_record(&s, RecordKind::ExerciseRoutines).unwrap().is_empty());
    assert!(store.get_record(&s, RecordKind::MealPlans).unwrap().is_empty());
    assert_eq!(store.get_record(&account(9), RecordKind::MealPlans), Err(ContractError::NoData));
}

#[test]
fn events_follow_successful_calls() {
    let mut store = TrainerPatientContract::initialize();
    let t = account(1);
    let s = account(2);
    store.register_trainer(t).unwrap();
    store.link_patient(t, s, 0).unwrap();
    store.update_meal_plans(&t, &s, entries(&["Soup"]), 1).unwrap();
    let _ = store.register_trainer(t);
    store.unlink_patient(&t, &s).unwrap();
    assert_eq!(
        store.events(),
        &vec![
            Event::TrainerRegistered { trainer: t },
            Event::LinkCreated { trainer: t, patient: s },
            Event::RecordUpdated { kind: RecordKind::MealPlans, patient: s },
            Event::LinkRemoved { trainer: t, patient: s },
        ]
    );
}

#[test]
fn error_codes() {
    assert_eq!(ContractError::TrainerExists.code(), 1);
    assert_eq!(ContractError::NoTrainer.code(), 2);
    assert_eq!(ContractError::Inactive.code(), 3);
    assert_eq!(ContractError::Linked.code(), 4);
    assert_eq!(ContractError::NoData.code(), 5);
    assert_eq!(ContractError::NoLink.code(), 6);
    assert_eq!(ContractError::WrongTrainer.code(), 7);
    assert_eq!(ContractError::NotLinked.code(), 8);
}

#[test]
fn account_and_contract_addresses_differ() {
    let mut store = TrainerPatientContract::initialize();
    let account = Address::account(4, 4);
    let contract = Address::contract(4, 4);
    store.register_trainer(account).unwrap();
    assert_eq!(store.register_trainer(contract), Ok(()));
    assert_eq!(store.get_trainer_info(&contract).unwrap().trainer_id, contract);
}
