//! A relationship store that binds trainers (supervisors) to patients
//! (subjects) through an exclusive, doubly indexed link, and gates every
//! change to a patient's records on that link.
//!
//! The state of the store is modelled by [`model::Model`]; each operation of
//! [`contract::TrainerPatientContract`] is specified as a transition of that
//! model, and [`laws`] proves the properties that hold across operations.

pub mod types;
pub mod xdr;
pub mod table;
pub mod model;
pub mod access;
pub mod data;
pub mod plan;
pub mod contract;
pub mod laws;

pub use types::{Address, ContractError, TrainerInfo, PatientData, RecordKind, Event};
pub use access::AccessControl;
pub use data::DataStore;
pub use contract::TrainerPatientContract;
