//! Actions and the metadata that the store attaches to them.

pub mod enabling_condition;
pub use enabling_condition::EnablingCondition;

pub mod action_id;
pub use action_id::ActionId;

pub mod action_meta;
pub use action_meta::{ActionMeta, RecursionDepth};

pub mod action_with_meta;
pub use action_with_meta::ActionWithMeta;
