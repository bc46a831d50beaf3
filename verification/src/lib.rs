pub mod cell;
pub mod errors;
pub mod loader;
pub mod session;
pub mod source;
pub mod table;
pub mod view_state;
