pub mod alarm;
pub mod error;
pub mod repo;
pub mod types;
pub mod zmq;
pub mod service;
pub mod text;
