pub mod hub;
pub mod registry;
pub mod route;
pub mod state;
