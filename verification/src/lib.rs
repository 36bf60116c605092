//! Verified core logic of the Navop terminal, SSH and middleware tooling.
use vstd::prelude::*;

pub mod decimal;
pub mod form_fields;
pub mod host_key;
pub mod host_key_catalog;
pub mod host_key_laws;
pub mod host_key_store;
pub mod host_key_verifier;
pub mod host_patterns;
pub mod json_value;
pub mod line_timeline;
pub mod message_event;
pub mod middleware_forms;
pub mod middleware_lists;
pub mod middleware_pages;
pub mod ssh_shell_integration;
pub mod nav_tree_state;
pub mod paths;
pub mod query_inputs;
pub mod redis_tools;
pub mod resource_nav;
pub mod retirement;
pub mod rocketmq_form;
pub mod rocketmq_runtime;
pub mod rocketmq_tabs;
pub mod rocketmq_tree;
pub mod rocketmq_tree_state;
pub mod route_binding;
pub mod text;
pub mod text_build;
pub mod text_sets;
pub mod workbench_state;
pub mod workspace_source;

verus! {

} // verus!
