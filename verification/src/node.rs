//! The interface that every node of a job offers.
//!
//! The concrete node types are in [`types`]; [`types::JobNode`] holds any one of them.

use vstd::prelude::*;

use crate::workflow::{Message, NodeStatus, Parameter, WorkflowNodeType};

pub mod types;

verus! {

/// The error type used for defining an exception when running a node
#[derive(Clone, Debug, PartialEq)]
pub enum NodeError {
    /// The node failed, with a description of why
    Failed(String),
    /// The node could not be reached
    Communication,
}

/// The message a node with the given position sends once it has executed with the given
/// outcome: its position, a success with the outputs as context, or a failure with an
/// empty context.
pub open spec fn message_for(
    position: usize,
    outcome: Result<Vec<Parameter>, NodeError>,
    msg: Message,
) -> bool {
    &&& msg.pointer == position
    &&& match outcome {
        Ok(context) => msg.status == NodeStatus::Success && msg.context@ == context@,
        Err(_) => msg.status == NodeStatus::Failed && msg.context@.len() == 0,
    }
}

/// The message a node with the given position sends when it succeeds with no outputs.
pub open spec fn success_message(position: usize, msg: Message) -> bool {
    &&& msg.pointer == position
    &&& msg.status == NodeStatus::Success
    &&& msg.context@.len() == 0
}

/// The Node trait is to be implemented by all node types that can occur in a workflow
pub trait Node {
    /// The type of the node.
    spec fn node_kind(&self) -> WorkflowNodeType;

    /// The id of the node.
    spec fn node_id(&self) -> Seq<char>;

    /// The position of the node in its job.
    spec fn node_position(&self) -> usize;

    /// Return the type of node, this is used for easily locating the Start and End nodes
    fn kind(&self) -> (kind: WorkflowNodeType)
        ensures
            kind == self.node_kind(),
    ;

    /// The current node ID, used by the [`Job`](crate::workflow::Job) struct to know the current node
    fn id(&self) -> (id: &str)
        ensures
            id@ == self.node_id(),
    ;

    /// A pointer to the current nodes position in the [`Job.nodes`](crate::workflow::Job) collection
    fn position(&self) -> (position: usize)
        ensures
            position == self.node_position(),
    ;

    /// Create the message to be sent to the executor once the node has executed with the
    /// given outcome.
    fn create_msg(&self, outcome: Result<Vec<Parameter>, NodeError>) -> (msg: Message)
        ensures
            message_for(self.node_position(), outcome, msg),
    {
        match outcome {
            Ok(context) => Message {
                pointer: self.position(),
                status: NodeStatus::Success,
                context,
            },
            Err(_) => Message {
                pointer: self.position(),
                status: NodeStatus::Failed,
                context: Vec::new(),
            },
        }
    }
}

} // verus!
