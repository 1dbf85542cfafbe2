//! SendSure: a wallet-agnostic, intent-aware transaction preflight check.
//!
//! A user states what they mean to send, swap, approve or sign; the engine compares that
//! intent with the proposed transaction and answers READY, REVIEW or STOP, with the rule
//! that decided and every rule that fired.
pub mod decision;
pub mod engine;
pub mod evaluation;
pub mod http;
pub mod intent;
pub mod laws;
pub mod registries;
pub mod rules;
pub mod scenarios;
pub mod server;
pub mod text;
pub mod validators;

pub use decision::Decision;
pub use engine::evaluate;
pub use evaluation::{Evaluation, RuleHit};
pub use http::{parse_content_length, HttpRequestReader, ReadStep};
pub use intent::{ActionType, Intent};
pub use registries::{ContractProfile, DepositProfile, Exchange, Network, Registries, Token};
pub use scenarios::{count_decisions, demo_scenarios, Scenario};
pub use server::{allow_origin_header, handle_accept_error, is_ignorable_connection_error, route_request, Route};
