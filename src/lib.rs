//! Verified core of a desktop Git client backend: parsing of the `git`
//! tool's textual output, the decisions of multi-step workflows, and the
//! argument lists handed to the tool.

pub mod args;
pub mod avatar;
pub mod diff;
pub mod listing;
pub mod log;
pub mod model;
pub mod refs;
pub mod status;
pub mod text;
pub mod workflow;
