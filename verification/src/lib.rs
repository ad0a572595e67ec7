pub mod clock;
pub mod control_socket;
pub mod daemon;
pub mod dependency_preflight;
pub mod discussion_state;
pub mod e2e_replay;
pub mod executor;
pub mod failure_state;
pub mod forge;
pub mod gate_ledger;
pub mod gate_pass_record;
pub mod ignore_for_queue;
pub mod json;
pub mod path;
pub mod text;
