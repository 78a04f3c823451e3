//! The records the driver reads from the host: the companion process, its handshake
//! file, and the errors its API reports.
pub mod api_error;
pub mod errors;
pub mod lcu_process;
pub mod league_ux_process;
pub mod lockfile;
