//! The request and collection model of a REST workbench: stored requests,
//! the store that holds them, the policy that turns one into an outbound
//! call, the capture of a response, and the import of Postman collections.

pub mod method;
pub mod model;
pub mod ownership;
pub mod postman;
pub mod request;
pub mod response;
pub mod session;
pub mod table;
pub mod text;
pub mod workspace;
