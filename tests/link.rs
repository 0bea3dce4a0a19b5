use trainer_patient_link::{Address, ContractError, TrainerPatientContract};

fn generate(n: u128) -> Address {
    Address::account(0x5eed, n)
}

fn strings(items: &[&str]) -> Vec<String> {
    items.iter().map(|s| s.to_string()).collect()
}

#[test]
fn test_trainer_registration() {
    let mut client = TrainerPatientContract::initialize();
    let trainer = generate(1);

    client.register_trainer(trainer).unwrap();

    let trainer_info = client.get_trainer_info(&trainer).unwrap();
    assert_eq!(trainer_info.trainer_id, trainer);
    assert_eq!(trainer_info.active, true);
    assert_eq!(trainer_info.patient_count, 0);
}

#[test]
fn test_link_patient() {
    let mut client = TrainerPatientContract::initialize();
    let trainer = generate(1);
    let patient = generate(2);

    client.register_trainer(trainer).unwrap();
    client.link_patient(trainer, patient, 0).unwrap();

    let linked_trainer = client.get_patient_trainer(&patient).unwrap();
    assert_eq!(linked_trainer, trainer);

    let trainer_info = client.get_trainer_info(&trainer).unwrap();
    assert_eq!(trainer_info.patient_count, 1);
}

#[test]
fn test_update_patient_data() {
    let mut client = TrainerPatientContract::initialize();
    let trainer = generate(1);
    let patient = generate(2);

    client.register_trainer(trainer).unwrap();
    client.link_patient(trainer, patient, 0).unwrap();

    let routines = strings(&["Push-ups: 3x15", "Squats: 3x20"]);
    let meals = strings(&["Breakfast: Oatmeal", "Lunch: Salad"]);
    let progress = strings(&["Week 1: 10% up", "Week 2: 15% up"]);

    client.update_exercise_routines(&trainer, &patient, routines.clone(), 0).unwrap();
    client.update_meal_plans(&trainer, &patient, meals.clone(), 0).unwrap();
    client.update_progress(&trainer, &patient, progress.clone(), 0).unwrap();

    let patient_data = client.get_patient_data(&patient).unwrap();
    assert_eq!(patient_data.exercise_routines, routines);
    assert_eq!(patient_data.meal_plans, meals);
    assert_eq!(patient_data.progress_updates, progress);
}

#[test]
fn test_unauthorized_update() {
    let mut client = TrainerPatientContract::initialize();
    let trainer1 = generate(1);
    let trainer2 = generate(2);
    let patient = generate(3);

    client.register_trainer(trainer1).unwrap();
    client.register_trainer(trainer2).unwrap();
    client.link_patient(trainer1, patient, 0).unwrap();

    let routines = strings(&["Unauthorized"]);
    let result = client.update_exercise_routines(&trainer2, &patient, routines, 0);
    assert!(result.is_err());

    if let Err(error) = result {
        assert_eq!(error, ContractError::WrongTrainer);
    }
}

#[test]
fn test_unlink_patient() {
    let mut client = TrainerPatientContract::initialize();
    let trainer = generate(1);
    let patient = generate(2);

    client.register_trainer(trainer).unwrap();
    client.link_patient(trainer, patient, 0).unwrap();

    let trainer_info = client.get_trainer_info(&trainer).unwrap();
    assert_eq!(trainer_info.patient_count, 1);

    client.unlink_patient(&trainer, &patient).unwrap();

    let trainer_info = client.get_trainer_info(&trainer).unwrap();
    assert_eq!(trainer_info.patient_count, 0);
}

#[test]
fn test_duplicate_trainer_registration() {
    let mut client = TrainerPatientContract::initialize();
    let trainer = generate(1);

    client.register_trainer(trainer).unwrap();

    let result = client.register_trainer(trainer);
    assert!(result.is_err());

    if let Err(error) = result {
        assert_eq!(error, ContractError::TrainerExists);
    }
}

#[test]
fn test_patient_already_linked() {
    let mut client = TrainerPatientContract::initialize();
    let trainer1 = generate(1);
    let trainer2 = generate(2);
    let patient = generate(3);

    client.register_trainer(trainer1).unwrap();
    client.register_trainer(trainer2).unwrap();
    client.link_patient(trainer1, patient, 0).unwrap();

    let result = client.link_patient(trainer2, patient, 0);
    assert!(result.is_err());

    if let Err(error) = result {
        assert_eq!(error, ContractError::Linked);
    }
}

#[test]
fn test_get_nonexistent_data() {
    let client = TrainerPatientContract::initialize();
    let patient = generate(1);

    let result = client.get_patient_data(&patient);
    assert!(result.is_err());

    if let Err(error) = result {
        assert_eq!(error, ContractError::NoData);
    }
}

#[test]
fn test_get_nonexistent_trainer() {
    let client = TrainerPatientContract::initialize();
    let trainer = generate(1);

    let result = client.get_trainer_info(&trainer);
    assert!(result.is_err());

    if let Err(error) = result {
        assert_eq!(error, ContractError::NoTrainer);
    }
}

#[test]
fn test_patient_access_own_data() {
    let mut client = TrainerPatientContract::initialize();
    let trainer = generate(1);
    let patient = generate(2);

    client.register_trainer(trainer).unwrap();
    client.link_patient(trainer, patient, 0).unwrap();

    let routines = strings(&["Daily walk: 30min", "Stretching: 15min"]);

    client.update_exercise_routines(&trainer, &patient, routines.clone(), 0).unwrap();

    let patient_data = client.get_patient_data(&patient).unwrap();
    assert_eq!(patient_data.patient_id, patient);
    assert_eq!(patient_data.trainer_id, trainer);
    assert_eq!(patient_data.exercise_routines, routines);
}

#[test]
fn test_multiple_patients_per_trainer() {
    let mut client = TrainerPatientContract::initialize();
    let trainer = generate(1);
    let patient1 = generate(2);
    let patient2 = generate(3);

    client.register_trainer(trainer).unwrap();
    client.link_patient(trainer, patient1, 0).unwrap();
    client.link_patient(trainer, patient2, 0).unwrap();

    let trainer_info = client.get_trainer_info(&trainer).unwrap();
    assert_eq!(trainer_info.patient_count, 2);

    let linked_trainer1 = client.get_patient_trainer(&patient1).unwrap();
    let linked_trainer2 = client.get_patient_trainer(&patient2).unwrap();
    assert_eq!(linked_trainer1, trainer);
    assert_eq!(linked_trainer2, trainer);
}

#[test]
fn test_register_trainer() {
    let mut client = TrainerPatientContract::initialize();
    let trainer = generate(10);

    let result = client.register_trainer(trainer);

    assert!(result.is_ok());
}

#[test]
fn test_add_patient() {
    let mut client = TrainerPatientContract::initialize();
    let trainer = generate(10);
    client.register_trainer(trainer).unwrap();

    let patient = generate(11);
    let result = client.link_patient(trainer, patient, 0);

    assert!(result.is_ok());
}
