//! Host transforms: the plans by which a host offers the tools of a server in another form.

pub mod code_help;
pub mod dto;
pub mod host_result;
pub mod host_transform;
pub mod naming;
pub mod plan;
pub mod plan_equality;
