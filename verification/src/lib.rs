pub mod shim;
pub mod strnum;
pub mod auth;
pub mod cache;
pub mod dispatch;
pub mod glob;
pub mod log_fmt;
pub mod method;
pub mod pathitem;
pub mod range;
pub mod render;
pub mod resolve;
pub mod scan;
pub mod uri;
