//! Core logic of a marketplace backend that connects service workers and job
//! seekers with customers: token-based authentication, KYC gating, rate
//! limiting, subscription payments, geo-proximity worker search, and review
//! aggregation.
//!
//! Everything here is pure with respect to the outside world: clock readings,
//! store contents and gateway responses enter as plain values, and the
//! functions say in their contracts what they decide.

pub mod auth;
pub mod catalog;
pub mod config;
pub mod crypto;
pub mod dates;
pub mod errors;
pub mod gates;
pub mod ids;
pub mod jobseekers;
pub mod kyc;
pub mod paging;
pub mod ratelimit;
pub mod reviews;
pub mod sorting;
pub mod subscription;
pub mod text;
pub mod token;
pub mod uploads;
pub mod users;
pub mod workers;
pub mod validation;
