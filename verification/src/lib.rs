pub mod contract;
pub mod decimal;
pub mod error;
pub mod msg;
pub mod response;
pub mod state;
pub mod store;
pub mod laws;
