pub mod aggregate;
pub mod aggregate_laws;
pub mod relay;
pub mod relay_laws;
pub mod session;
pub mod session_laws;
