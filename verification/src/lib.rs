//! Verified core of a one-way Notion → Paperless-ngx synchronisation service.

pub mod collection;
pub mod helpers;
pub mod model;
pub mod notion;
pub mod number;
pub mod paperless;
pub mod sync;
pub mod text;
