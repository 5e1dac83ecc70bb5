pub mod bytes;
pub mod client;
pub mod endpoint;
pub mod errors;
pub mod gql;
pub mod health;
pub mod json;
pub mod ops;
pub mod transport;
