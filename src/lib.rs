pub mod error;
pub mod url;
pub mod traverse;
pub mod resource;
pub mod uploader;
pub mod remote;
pub mod plan;
