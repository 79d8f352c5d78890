//! Multi queue block layer.

pub mod command;
pub mod feature;
pub mod gen_disk;
pub mod request;
pub mod request_flag;
pub mod request_list;
pub mod request_queue;
pub mod tag_set;
