//! DOKP — observation lake, projections, governance and person pages.
//!
//! The crate is the verified core of the platform: closed domain algebras,
//! the registry and lake invariants, the projection DAG, propagation,
//! governance decisions, identity resolution and the API helpers.

pub mod adapter;
pub mod api;
pub mod domain;
pub mod governance;
pub mod identity;
pub mod lake;
pub mod person_page;
pub mod propagation;
pub mod registry;
pub mod runtime;
pub mod projection;
pub mod seqs;
pub mod table;
pub mod text;
pub mod trusted;
