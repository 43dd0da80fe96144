//! A privilege broker for agents: dangerous commands pass only with a human's approval.

pub mod audit;
pub mod boundary_laws;
pub mod ceremonies;
pub mod ceremony_laws;
pub mod cli;
pub mod cli_laws;
pub mod config;
pub mod crypto;
pub mod daemon;
pub mod daemon_laws;
pub mod effects;
pub mod engine;
pub mod envelope_laws;
pub mod host;
pub mod host_laws;
pub mod keys;
pub mod layer_laws;
pub mod level;
pub mod manager;
pub mod manager_laws;
pub mod match_laws;
pub mod normalize;
pub mod normalize_laws;
pub mod paths;
pub mod patterns;
pub mod plugin;
pub mod policy;
pub mod policy_laws;
pub mod proto;
pub mod relay;
pub mod relay_laws;
pub mod table;
pub mod text;
pub mod text_laws;
pub mod webauthn;
