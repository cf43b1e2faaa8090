//! Execution engine for workflows.
//!
//! A workflow is a graph of nodes (start, activities, parallel gates, exclusive gates, end)
//! joined by pointers. The engine turns a workflow into a [`Job`](crate::workflow::Job),
//! walks it node by node as nodes report completion, and wakes activity futures when the
//! outside world answers.
//!
//! The library holds the decisions: how a job is built, which nodes follow a finished node,
//! when a closing parallel gate lets execution through, what the reactor and the spawner
//! record and hand back. Awaiting channels, sockets and files is done by the program
//! around it.

pub mod channel;
pub mod executor;
pub mod expression;
pub mod node;
pub mod reactor;
pub mod registry;
pub mod spawner;
pub mod text;
pub mod workflow;
