//! Selection of the compilation targets an operation should run against.

pub mod profile;
pub mod resolve;
pub mod target;

pub use profile::Profile;
pub use resolve::{
    call_for_targets, fallback_targets, get_targets, try_get_targets, FallbackBehavior, OrElse,
    TargetError,
};
pub use target::{Catalog, Target, TargetTrait};
