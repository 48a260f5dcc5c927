//! The rows of the store and the operations on them.

pub mod task;
pub mod task_relationship;
pub mod task_relationship_type;
pub mod task_template;
pub mod task_template_group;
