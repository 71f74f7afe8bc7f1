//! Verified core of the Kolo rotational savings (Ajo/Esusu) contracts.
pub mod account;
pub mod calls;
pub mod effects;
pub mod entry_laws;
pub mod error;
pub mod ttl;
pub mod contract;
pub mod well_formed;
pub mod savings_group;
pub mod laws;
