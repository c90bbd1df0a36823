pub mod context;
pub mod event_loop;
pub mod reader;
pub mod sink;
