//! Types and rules for the confident automation of CloudFormation deployments:
//! parameter sets with their merge algebra, deployment metadata, and the check
//! that a deployment continues what is currently deployed.

pub mod algebra;
pub mod change_set;
pub mod command;
pub mod commit;
pub mod compatibility;
pub mod digest;
pub mod error;
pub mod filter;
pub mod laws;
pub mod metadata;
pub mod ordered_map;
pub mod output;
pub mod parameter;
pub mod parameters;
pub mod patterns;
pub mod s3;
pub mod stack;
pub mod tag;
pub mod template;
pub mod text;
