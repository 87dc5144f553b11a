pub mod forward;
pub mod hosts;
pub mod input;
pub mod lifecycle;
pub mod registry;
pub mod session;
pub mod shutdown;
pub mod text;
