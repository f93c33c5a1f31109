pub mod sanitize;
pub mod transcode;
pub mod validate;
