pub mod channel;
pub mod message;
