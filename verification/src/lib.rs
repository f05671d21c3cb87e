//! The control plane of a virtual machine monitor.

pub mod abort_laws;
pub mod action_laws;
pub mod answer_laws;
pub mod config;
pub mod config_laws;
pub mod configuration_actions;
pub mod control;
pub mod control_laws;
pub mod delivery;
pub mod device;
pub mod device_laws;
pub mod devices;
pub mod dispatch;
pub mod endpoint;
pub mod engine;
pub mod error;
pub mod exactness_laws;
pub mod exchange_laws;
pub mod faults;
pub mod features;
pub mod lifecycle;
pub mod lifecycle_laws;
pub mod loop_laws;
pub mod loop_step_laws;
pub mod migration;
pub mod migration_laws;
pub mod model;
pub mod plan;
pub mod progress_laws;
pub mod receiving_laws;
pub mod request_laws;
pub mod requests;
pub mod restore_actions;
pub mod restore_laws;
pub mod run;
pub mod sending_laws;
pub mod sending_start;
pub mod session_actions;
pub mod session_laws;
pub mod signals;
pub mod soundness;
pub mod startup;
pub mod startup_laws;
pub mod straight;
pub mod trace;
pub mod transfer_laws;
pub mod vmm;
