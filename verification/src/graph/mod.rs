//! Microsoft Graph adapter logic: error model, response classification,
//! URL construction, hashing and the upload / throttle state machines.

pub mod adapter;
pub mod client;
pub mod codec;
pub mod delta;
pub mod download;
pub mod error;
pub mod fakes;
pub mod id_token;
pub mod items;
pub mod json;
pub mod listener;
pub mod ops;
pub mod pkce;
pub mod quickxor;
pub mod status;
pub mod throttle;
pub mod token;
pub mod upload;
