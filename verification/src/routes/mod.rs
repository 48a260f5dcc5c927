//! What the HTTP handlers decide, between reading a request and writing a
//! response.

pub mod task_relationship_types;
pub mod task_relationships;
pub mod task_template_groups;
pub mod task_templates;
