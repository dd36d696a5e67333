//! Packet routing rules: conditions over destination address, port and
//! protocol, ordered by priority, with a default action when none matches.
pub mod action;
pub mod config;
pub mod context;
pub mod decision;
pub mod engine;
pub mod matcher;
pub mod rule;

pub use action::RoutingAction;
pub use config::{ConfigError, RuleConfig};
pub use context::PacketContext;
pub use decision::RoutingDecision;
pub use engine::{HotReloadableEngine, RoutingEngine};
pub use rule::{MatchCondition, Protocol, RoutingRule};
