//! Parts that do not know about requests.
pub mod equal_reader;
pub mod task_pool;
