//! Core of a self-hosted authentication gateway: credentials and groups in a
//! store, sessions, the public origin of a request, the OpenID Connect login
//! and the policy that decides on its claims.

pub mod auth;
pub mod base_url;
pub mod claims_engine;
pub mod config;
pub mod error;
pub mod headers;
pub mod login;
pub mod models;
pub mod oidc;
pub mod requests;
pub mod session;
pub mod store;
pub mod store_laws;
pub mod table;
pub mod text;
