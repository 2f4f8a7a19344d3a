//! Authentication, authorization and schema-migration rules of a small web
//! service, with every rule stated as a contract and proved.

pub mod accounts;
pub mod auth;
pub mod csrf;
pub mod handlers;
pub mod middleware;
pub mod migrations;
pub mod models;
pub mod script;
pub mod templates;
pub mod text;
