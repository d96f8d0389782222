//! Verified core of a battery powered weather node.
use vstd::prelude::*;

pub mod boot;
pub mod config;
pub mod form;
pub mod form_laws;
pub mod html;
pub mod json;
pub mod network;
pub mod nvs;
pub mod portal;
pub mod probe;
pub mod saving;
pub mod sensor;
pub mod text;

verus! {

} // verus!
