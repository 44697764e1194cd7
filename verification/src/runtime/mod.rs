pub mod buffers;
pub mod locks;
pub mod queues;
pub mod registry;
pub mod subscriptions;
pub mod tasks;
