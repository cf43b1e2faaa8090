//! Workflows and jobs.
//!
//! A [`Workflow`] is the stored description of a process: a list of nodes, each pointing to
//! the nodes that follow it. A [`Job`] is a workflow while it runs: each node becomes a
//! concrete node type, and [`Job::next_node`] says which nodes follow a finished one.

use vstd::prelude::*;

use tokio::sync::mpsc::{Receiver, Sender};
use vstd::hash_map::StringHashMap;

use crate::channel::{
    clone_message_sender, message_capacity, message_channel, reports_to, same_event_channel,
    CHANNEL_CAPACITY,
};
use crate::expression::{admissible, evaluate, evaluation, is_admissible, ExprValue};
use crate::node::types::{
    activity_settings, ran, read_activity_settings, Activity, End, Exclusive, JobNode, NodeAction,
    Parallel, Start,
};
use crate::node::Node;
use crate::reactor::Event;
use crate::text::{fresh_id, is_uuid_v4_text, text_eq};

verus! {

/// A pointer from one node to another, followed only where its expression (if any)
/// evaluates to `true`.
#[derive(Clone, Debug, PartialEq)]
pub struct Pointer {
    /// ID of the node that is being pointed to
    pub points_to: String,
    /// The expression that must be evaluated to true if the pointer is to be followed
    expression: Option<String>,
}

impl Pointer {
    /// A pointer to `points_to`, guarded by `expression` where there is one.
    pub fn new(points_to: String, expression: Option<String>) -> (pointer: Self)
        ensures
            pointer.target() == points_to,
            pointer.guard() == expression,
    {
        Pointer { points_to, expression }
    }

    /// The id of the node pointed to.
    pub closed spec fn target(&self) -> String {
        self.points_to
    }

    /// The expression that guards the pointer.
    pub closed spec fn guard(&self) -> Option<String> {
        self.expression
    }

    /// The id of the node pointed to.
    pub fn points_to(&self) -> (target: &String)
        ensures
            *target == self.target(),
    {
        &self.points_to
    }

    /// The expression that guards the pointer.
    pub fn expression(&self) -> (e: &Option<String>)
        ensures
            *e == self.guard(),
    {
        &self.expression
    }

    /// A copy of the pointer, field by field.
    pub fn duplicate(&self) -> (copy: Self)
        ensures
            copy == *self,
    {
        let expression = match &self.expression {
            Some(e) => Some(e.clone()),
            None => None,
        };
        Pointer { points_to: self.points_to.clone(), expression }
    }
}

/// A copy of a list of pointers.
fn copy_pointers(pointers: &Vec<Pointer>) -> (copy: Vec<Pointer>)
    ensures
        copy@ == pointers@,
{
    let mut copy: Vec<Pointer> = Vec::new();
    let mut i: usize = 0;
    while i < pointers.len()
        invariant
            i <= pointers@.len(),
            copy@ == pointers@.take(i as int),
        decreases pointers@.len() - i,
    {
        copy.push(pointers[i].duplicate());
        assert(pointers@.take(i as int).push(pointers@[i as int]) =~= pointers@.take(i + 1));
        i = i + 1;
    }
    assert(pointers@.take(i as int) =~= pointers@);
    copy
}

/// A JSON value as it stands in a parameter. Numbers keep their decimal text.
#[derive(Debug, PartialEq)]
pub enum ParamValue {
    Null,
    Bool(bool),
    Number(String),
    Text(String),
    Array(Vec<ParamValue>),
    Object(Vec<(String, ParamValue)>),
}

impl ParamValue {
    /// The text of a text value.
    pub open spec fn spec_as_str(&self) -> Option<Seq<char>> {
        match self {
            ParamValue::Text(s) => Some(s@),
            _ => None,
        }
    }

    /// The truth value of a boolean value.
    pub open spec fn spec_as_bool(&self) -> Option<bool> {
        match self {
            ParamValue::Bool(b) => Some(*b),
            _ => None,
        }
    }

    /// The text of a text value, `None` for any other value.
    pub fn as_str(&self) -> (s: Option<&str>)
        ensures
            match s {
                Some(s) => self.spec_as_str() == Some(s@),
                None => self.spec_as_str() is None,
            },
    {
        match self {
            ParamValue::Text(s) => Some(s.as_str()),
            _ => None,
        }
    }

    /// The truth value of a boolean value, `None` for any other value.
    pub fn as_bool(&self) -> (b: Option<bool>)
        ensures
            b == self.spec_as_bool(),
    {
        match self {
            ParamValue::Bool(b) => Some(*b),
            _ => None,
        }
    }
}

/// A parameter: a key, the name of its type, and a value.
#[derive(Debug, PartialEq)]
pub struct Parameter {
    /// The key of the parameter
    pub key: String,
    /// The type of parameter
    kind: String,
    /// The value of the parameter
    pub value: ParamValue,
}

impl Parameter {
    /// A parameter with the given key, type name and value.
    pub fn new(key: String, kind: String, value: ParamValue) -> (parameter: Self)
        ensures
            parameter.spec_key() == key,
            parameter.value_type() == kind,
            parameter.spec_value() == value,
    {
        Parameter { key, kind, value }
    }

    /// The key of the parameter.
    pub closed spec fn spec_key(&self) -> String {
        self.key
    }

    /// The value of the parameter.
    pub closed spec fn spec_value(&self) -> ParamValue {
        self.value
    }

    /// The key of the parameter.
    pub fn key(&self) -> (key: &String)
        ensures
            *key == self.spec_key(),
    {
        &self.key
    }

    /// The value of the parameter.
    pub fn value(&self) -> (value: &ParamValue)
        ensures
            *value == self.spec_value(),
    {
        &self.value
    }

    /// The name of the parameter's type.
    pub closed spec fn value_type(&self) -> String {
        self.kind
    }

    /// The name of the parameter's type.
    pub fn kind(&self) -> (k: &String)
        ensures
            *k == self.value_type(),
    {
        &self.kind
    }
}

/// A node of a workflow: an item to be executed or an instruction on how to go on.
#[derive(Debug)]
pub struct WorkflowNode {
    /// The type of Node
    kind: WorkflowNodeType,
    /// Unique ID for the node
    pub id: String,
    /// The nodes which `self` points to in the Workflow
    pointers: Vec<Pointer>,
    /// Any inputs associated with `self`
    pub parameters: Option<Vec<Parameter>>,
}

impl WorkflowNode {
    /// A workflow node of the given type, id, pointers and parameters.
    pub fn new(
        kind: WorkflowNodeType,
        id: String,
        pointers: Vec<Pointer>,
        parameters: Option<Vec<Parameter>>,
    ) -> (node: Self)
        ensures
            node.node_type() == kind,
            node.spec_id() == id,
            node.targets() == pointers@,
            node.spec_parameters() == parameters,
    {
        WorkflowNode { kind, id, pointers, parameters }
    }

    /// The id of the node.
    pub closed spec fn spec_id(&self) -> String {
        self.id
    }

    /// The parameters of the node.
    pub closed spec fn spec_parameters(&self) -> Option<Vec<Parameter>> {
        self.parameters
    }

    /// The id of the node.
    pub fn id(&self) -> (id: &String)
        ensures
            *id == self.spec_id(),
    {
        &self.id
    }

    /// The parameters of the node.
    pub fn parameters(&self) -> (parameters: &Option<Vec<Parameter>>)
        ensures
            *parameters == self.spec_parameters(),
    {
        &self.parameters
    }

    /// The type of the node.
    pub closed spec fn node_type(&self) -> WorkflowNodeType {
        self.kind
    }

    /// The pointers leaving the node.
    pub closed spec fn targets(&self) -> Seq<Pointer> {
        self.pointers@
    }

    /// The type of the node.
    pub fn kind(&self) -> (k: WorkflowNodeType)
        ensures
            k == self.node_type(),
    {
        self.kind
    }

    /// The pointers leaving the node.
    pub fn pointers(&self) -> (p: &Vec<Pointer>)
        ensures
            p@ == self.targets(),
    {
        &self.pointers
    }
}

/// A stored workflow: who owns it, where it lives, and its nodes.
#[derive(Debug)]
pub struct Workflow {
    /// Database ID to the Workflow
    id: String,
    /// ID used internally to represent the Workflow
    workflow_id: String,
    /// User who "owns" the Workflow
    associated_user_id: String,
    /// The ID of the Project that the Workflow resides in
    project_id: String,
    /// The detail of the Workflow
    workflow: Vec<WorkflowNode>,
}

impl Workflow {
    /// A workflow with the given identifiers and nodes.
    pub fn new(
        id: String,
        workflow_id: String,
        associated_user_id: String,
        project_id: String,
        workflow: Vec<WorkflowNode>,
    ) -> (wf: Self)
        ensures
            wf.record_id() == id,
            wf.internal_id() == workflow_id,
            wf.owner() == associated_user_id,
            wf.project() == project_id,
            wf.nodes() == workflow@,
    {
        Workflow { id, workflow_id, associated_user_id, project_id, workflow }
    }

    /// Database ID of the workflow.
    pub closed spec fn record_id(&self) -> String {
        self.id
    }

    /// The workflow's internal ID.
    pub closed spec fn internal_id(&self) -> String {
        self.workflow_id
    }

    /// The user who owns the workflow.
    pub closed spec fn owner(&self) -> String {
        self.associated_user_id
    }

    /// The project the workflow is in.
    pub closed spec fn project(&self) -> String {
        self.project_id
    }

    /// The workflow's nodes, in order.
    pub closed spec fn nodes(&self) -> Seq<WorkflowNode> {
        self.workflow@
    }

    /// Database ID of the workflow.
    pub fn id(&self) -> (id: &String)
        ensures
            *id == self.record_id(),
    {
        &self.id
    }

    /// The workflow's internal ID.
    pub fn workflow_id(&self) -> (id: &String)
        ensures
            *id == self.internal_id(),
    {
        &self.workflow_id
    }

    /// The user who owns the workflow.
    pub fn associated_user_id(&self) -> (id: &String)
        ensures
            *id == self.owner(),
    {
        &self.associated_user_id
    }

    /// The project the workflow is in.
    pub fn project_id(&self) -> (id: &String)
        ensures
            *id == self.project(),
    {
        &self.project_id
    }

    /// The workflow's nodes, in order.
    pub fn workflow(&self) -> (nodes: &Vec<WorkflowNode>)
        ensures
            nodes@ == self.nodes(),
    {
        &self.workflow
    }
}

/// The status representing the state any Node can find itself in
#[derive(Clone, Copy, Debug, PartialEq, Eq, Structural)]
pub enum WorkflowNodeStatus {
    /// The default state - indicates the node has not been run yet
    NotProcessed,
    /// The node is queued for execution but something is blocking it from running
    Pending,
    /// The node is currently being executed
    Processing,
    /// The node was executed unsuccessfully as something caused an error to occur
    Failed,
    /// The node was executed successfully
    Success,
    /// An activity is unable to be executed as the Bot is currently busy executing another process
    BotBusy,
    /// The Bot is executing the process and we are waiting for a response
    AwaitingBotResponse,
    /// The node has been cancelled via external signal
    Cancelled,
}

/// Definition for each type of node that can appear in a Workflow/Job
#[derive(Clone, Copy, Debug, PartialEq, Eq, Structural)]
pub enum WorkflowNodeType {
    /// The node which indicates where to start execution from
    Start,
    /// Indicates the job must run all branches in a parallel manner until the closing parallel
    /// gate
    Parallel,
    /// Indicates a conditional logic point where all paths where the expression == true must
    /// be executed, even if this results in parallel behaviour if multiple branches are true
    Exclusive,
    /// Represents an activity to be executed on a Bot
    Activity,
    /// Indicates a RESTful HTTP call is to be made
    Trigger,
    /// Signals the End of the job, the job must stop when an End node is encountered
    End,
}

/// A definition for the current running state of a Job struct.
#[derive(Clone, Copy, Debug, PartialEq, Eq, Structural)]
pub enum JobStatus {
    /// The default state, indicates that the job has been created but not started yet
    NotStarted,
    /// This state indicates the job is currently being run by a process
    Processing,
    /// The job has encountered an End node and has run to completion or errored
    Finished,
}

/// Whether a node finished well.
#[derive(Clone, Copy, Debug, PartialEq, Eq, Structural)]
pub enum NodeStatus {
    Success,
    Failed,
}

/// Message is the struct transmitted to the executor to signal the job can make progress
#[derive(Debug)]
pub struct Message {
    /// Index of node sending message
    pub pointer: usize,
    /// Status of the node
    pub status: NodeStatus,
    /// List of context sent back
    pub context: Vec<Parameter>,
}


/// The errors that walking a job can meet.
#[derive(Clone, Copy, Debug, PartialEq, Eq, Structural)]
pub enum JobError {
    /// The expression on a pointer is not admissible or could not be evaluated
    ExpressionFailed,
}

/// Whether a node is what a search looks for: the node with the given id where `by_id`,
/// else a start node.
pub open spec fn sought(node: JobNode, by_id: bool, id: Seq<char>) -> bool {
    if by_id {
        node.node_id() == id
    } else {
        node.node_kind() == WorkflowNodeType::Start
    }
}

/// The position of the first node that a search looks for (see [`sought`]).
pub open spec fn first_index(nodes: Seq<JobNode>, by_id: bool, id: Seq<char>) -> Option<int>
    decreases nodes.len(),
{
    if nodes.len() == 0 {
        None
    } else {
        match first_index(nodes.drop_last(), by_id, id) {
            Some(i) => Some(i),
            None => if sought(nodes.last(), by_id, id) {
                Some(nodes.len() - 1)
            } else {
                None
            },
        }
    }
}

/// The position of the first node with the given id.
pub open spec fn first_with_id(nodes: Seq<JobNode>, id: Seq<char>) -> Option<int> {
    first_index(nodes, true, id)
}

/// The position of the first start node.
pub open spec fn first_start(nodes: Seq<JobNode>) -> Option<int> {
    first_index(nodes, false, Seq::empty())
}

/// A first match found in a prefix is the first match in the whole list.
pub proof fn lemma_first_index_prefix(nodes: Seq<JobNode>, by_id: bool, id: Seq<char>, j: int)
    requires
        0 <= j <= nodes.len(),
    ensures
        first_index(nodes.take(j), by_id, id) matches Some(k) ==> first_index(nodes, by_id, id)
            == Some(k),
    decreases nodes.len() - j,
{
    if j < nodes.len() {
        assert(nodes.take(j + 1).drop_last() =~= nodes.take(j));
        lemma_first_index_prefix(nodes, by_id, id, j + 1);
    } else {
        assert(nodes.take(j) =~= nodes);
    }
}

/// A first match lies in range, is sought, and nothing before it is.
pub proof fn lemma_first_index_found(nodes: Seq<JobNode>, by_id: bool, id: Seq<char>)
    ensures
        match first_index(nodes, by_id, id) {
            Some(k) => 0 <= k < nodes.len() && sought(nodes[k], by_id, id) && forall|i: int|
                0 <= i < k ==> !sought(#[trigger] nodes[i], by_id, id),
            None => forall|i: int| 0 <= i < nodes.len() ==> !sought(#[trigger] nodes[i], by_id, id),
        },
    decreases nodes.len(),
{
    if nodes.len() > 0 {
        let init = nodes.drop_last();
        lemma_first_index_found(init, by_id, id);
        assert forall|i: int| 0 <= i < init.len() implies init[i] == nodes[i] by {}
    }
}

/// What a pointer's guard gives: `None` for a pointer without an expression; for one with
/// an expression, the [`evaluation`] of an admissible expression (see [`admissible`]), and
/// `Some(None)` for an expression that is not admissible.
pub open spec fn guard_value(pointer: Pointer) -> Option<Option<ExprValue>> {
    match pointer.guard() {
        None => None,
        Some(e) => Some(
            if admissible(e@) {
                evaluation(e@)
            } else {
                None
            },
        ),
    }
}

/// What one pointer does to a walk.
#[derive(Clone, Copy, Debug, PartialEq, Eq, Structural)]
pub enum PointerOutcome {
    /// The pointer is not followed
    Skip,
    /// The pointer leads to the node at this position
    Take(usize),
    /// The pointer is followed but no node has the id it points to
    Missing,
    /// The pointer's expression could not be evaluated
    Failed,
}

/// What a pointer to `target` does to a walk, given what its guard gave (see
/// [`guard_value`]): with no expression, or one that evaluates to `true`, the pointer leads
/// to the first node with the id `target`; with an expression that evaluates to anything
/// else it is skipped; an expression that gave nothing fails the walk.
pub open spec fn pointer_outcome(
    nodes: Seq<JobNode>,
    target: Seq<char>,
    guard: Option<Option<ExprValue>>,
) -> PointerOutcome {
    let taken = match guard {
        None => Some(true),
        Some(Some(value)) => Some(value.spec_is_true()),
        Some(None) => None,
    };
    match taken {
        None => PointerOutcome::Failed,
        Some(false) => PointerOutcome::Skip,
        Some(true) => match first_with_id(nodes, target) {
            Some(i) => PointerOutcome::Take(i as usize),
            None => PointerOutcome::Missing,
        },
    }
}

/// Following a finished node's pointers from left to right, each as [`pointer_outcome`]
/// says: a followed pointer adds the position it leads to. `Some(None)` where a followed
/// pointer points to no node, which ends the walk; `None` where an expression is not
/// admissible or cannot be evaluated, which ends it too.
pub open spec fn follow(nodes: Seq<JobNode>, pointers: Seq<Pointer>) -> Option<Option<Seq<usize>>>
    decreases pointers.len(),
{
    if pointers.len() == 0 {
        Some(Some(Seq::empty()))
    } else {
        match follow(nodes, pointers.drop_last()) {
            Some(Some(found)) => {
                let pointer = pointers.last();
                match pointer_outcome(nodes, pointer.target()@, guard_value(pointer)) {
                    PointerOutcome::Failed => None,
                    PointerOutcome::Skip => Some(Some(found)),
                    PointerOutcome::Take(i) => Some(Some(found.push(i))),
                    PointerOutcome::Missing => Some(None),
                }
            },
            other => other,
        }
    }
}

/// A walk that has ended on a prefix of the pointers ends the same way on all of them.
pub proof fn lemma_follow_ended(nodes: Seq<JobNode>, pointers: Seq<Pointer>, j: int)
    requires
        0 <= j <= pointers.len(),
        !(follow(nodes, pointers.take(j)) matches Some(Some(_))),
    ensures
        follow(nodes, pointers) == follow(nodes, pointers.take(j)),
    decreases pointers.len() - j,
{
    if j < pointers.len() {
        assert(pointers.take(j + 1).drop_last() =~= pointers.take(j));
        lemma_follow_ended(nodes, pointers, j + 1);
    } else {
        assert(pointers.take(j) =~= pointers);
    }
}

/// Every position a walk finds is the position of a node.
pub proof fn lemma_follow_in_range(nodes: Seq<JobNode>, pointers: Seq<Pointer>)
    requires
        nodes.len() <= usize::MAX,
    ensures
        follow(nodes, pointers) matches Some(Some(found)) ==> forall|j: int|
            0 <= j < found.len() ==> #[trigger] found[j] < nodes.len(),
    decreases pointers.len(),
{
    if pointers.len() > 0 {
        lemma_follow_in_range(nodes, pointers.drop_last());
        let id = pointers.last().target()@;
        lemma_first_index_found(nodes, true, id);
    }
}

/// The view of an optional list of positions.
pub open spec fn opt_positions(positions: Option<Vec<usize>>) -> Option<Seq<usize>> {
    match positions {
        Some(v) => Some(v@),
        None => None,
    }
}

/// The pointers of each node id in a list of workflow nodes: later nodes with the same id
/// over earlier ones.
pub open spec fn pointer_table(nodes: Seq<WorkflowNode>) -> Map<Seq<char>, Seq<Pointer>>
    decreases nodes.len(),
{
    if nodes.len() == 0 {
        Map::empty()
    } else {
        pointer_table(nodes.drop_last()).insert(nodes.last().spec_id()@, nodes.last().targets())
    }
}

/// How many of the pointers in a list point to the node with the given id.
pub open spec fn pointers_to(pointers: Seq<Pointer>, id: Seq<char>) -> nat
    decreases pointers.len(),
{
    if pointers.len() == 0 {
        0
    } else {
        pointers_to(pointers.drop_last(), id) + if pointers.last().target()@ == id {
            1nat
        } else {
            0nat
        }
    }
}

/// How many pointers, over all the nodes of a workflow, point to the node with the given id.
pub open spec fn incoming(nodes: Seq<WorkflowNode>, id: Seq<char>) -> nat
    decreases nodes.len(),
{
    if nodes.len() == 0 {
        0
    } else {
        incoming(nodes.drop_last(), id) + pointers_to(nodes.last().targets(), id)
    }
}

/// How many pointers the nodes of a workflow hold in all.
pub open spec fn total_pointers(nodes: Seq<WorkflowNode>) -> nat
    decreases nodes.len(),
{
    if nodes.len() == 0 {
        0
    } else {
        total_pointers(nodes.drop_last()) + nodes.last().targets().len()
    }
}

/// No list holds more pointers to a node than pointers.
pub proof fn lemma_pointers_to_bound(pointers: Seq<Pointer>, id: Seq<char>)
    ensures
        pointers_to(pointers, id) <= pointers.len(),
    decreases pointers.len(),
{
    if pointers.len() > 0 {
        lemma_pointers_to_bound(pointers.drop_last(), id);
    }
}

/// No workflow holds more pointers to a node than pointers.
pub proof fn lemma_incoming_bound(nodes: Seq<WorkflowNode>, id: Seq<char>)
    ensures
        incoming(nodes, id) <= total_pointers(nodes),
    decreases nodes.len(),
{
    if nodes.len() > 0 {
        lemma_incoming_bound(nodes.drop_last(), id);
        lemma_pointers_to_bound(nodes.last().targets(), id);
    }
}

/// A workflow holds at least as many pointers as any of its prefixes.
pub proof fn lemma_total_pointers_prefix(nodes: Seq<WorkflowNode>, j: int)
    requires
        0 <= j <= nodes.len(),
    ensures
        total_pointers(nodes.take(j)) <= total_pointers(nodes),
    decreases nodes.len() - j,
{
    if j < nodes.len() {
        assert(nodes.take(j + 1).drop_last() =~= nodes.take(j));
        lemma_total_pointers_prefix(nodes, j + 1);
    } else {
        assert(nodes.take(j) =~= nodes);
    }
}

/// Counts the pointers of a workflow's nodes that point to the node with the given id
/// (see [`incoming`]).
fn count_incoming(nodes: &Vec<WorkflowNode>, id: &str) -> (count: usize)
    requires
        total_pointers(nodes@) <= usize::MAX,
    ensures
        count == incoming(nodes@, id@),
{
    let mut count: usize = 0;
    let mut i: usize = 0;
    while i < nodes.len()
        invariant
            i <= nodes@.len(),
            total_pointers(nodes@) <= usize::MAX,
            count == incoming(nodes@.take(i as int), id@),
            incoming(nodes@.take(i as int), id@) <= total_pointers(nodes@.take(i as int)),
        decreases nodes@.len() - i,
    {
        let pointers = &nodes[i].pointers;
        let ghost before = nodes@.take(i as int);
        let ghost after = nodes@.take(i + 1);
        proof {
            assert(after.drop_last() =~= before);
            assert(after.last() == nodes@[i as int]);
            lemma_total_pointers_prefix(nodes@, i + 1);
        }
        let mut k: usize = 0;
        while k < pointers.len()
            invariant
                k <= pointers@.len(),
                pointers@ == nodes@[i as int].targets(),
                count == incoming(before, id@) + pointers_to(pointers@.take(k as int), id@),
                pointers_to(pointers@.take(k as int), id@) <= k,
                incoming(before, id@) <= total_pointers(before),
                total_pointers(after) <= usize::MAX,
                total_pointers(after) == total_pointers(before) + pointers@.len(),
            decreases pointers@.len() - k,
        {
            proof {
                assert(pointers@.take(k + 1).drop_last() =~= pointers@.take(k as int));
                assert(pointers@.take(k + 1).last() == pointers@[k as int]);
            }
            if text_eq(pointers[k].points_to.as_str(), id) {
                count = count + 1;
            }
            k = k + 1;
        }
        proof {
            assert(pointers@.take(k as int) =~= pointers@);
            lemma_pointers_to_bound(pointers@, id@);
        }
        i = i + 1;
    }
    proof {
        assert(nodes@.take(i as int) =~= nodes@);
    }
    count
}

/// The job node that node `i` of a workflow becomes: same id, position `i`; a start, end or
/// exclusive node for a start, end or exclusive node; for a parallel node, an opening gate
/// where no pointer of the workflow points to it, else a closing gate that waits for as
/// many arrivals as there are pointers into it; an activity with the settings its
/// parameters give.
pub open spec fn built_from(node: JobNode, nodes: Seq<WorkflowNode>, i: int) -> bool {
    let wf = nodes[i];
    &&& node.node_id() == wf.spec_id()@
    &&& node.node_position() == i
    &&& node.node_kind() == wf.node_type()
    &&& match wf.node_type() {
        WorkflowNodeType::Start => node is Start,
        WorkflowNodeType::End => node is End,
        WorkflowNodeType::Exclusive => node is Exclusive,
        WorkflowNodeType::Parallel => node matches JobNode::Parallel(p) && if incoming(
            nodes,
            wf.spec_id()@,
        ) == 0 {
            p is Opening
        } else {
            p matches Parallel::Closing { dependencies, dependencies_met, .. } && dependencies
                == incoming(nodes, wf.spec_id()@) && dependencies_met == 0
        },
        WorkflowNodeType::Activity => node matches JobNode::Activity(a) && Some(a.settings())
            == activity_settings(wf),
        _ => false,
    }
}

/// A workflow node that a job can be built from: not a trigger, and an activity only where
/// its parameters give all its settings.
pub open spec fn node_buildable(wf: WorkflowNode) -> bool {
    match wf.node_type() {
        WorkflowNodeType::Trigger => false,
        WorkflowNodeType::Activity => activity_settings(wf) is Some,
        _ => true,
    }
}

/// A workflow that a job can be built from: every node can be, and its pointers can be
/// counted in a `usize`.
pub open spec fn buildable(wf: Workflow) -> bool {
    &&& forall|i: int| 0 <= i < wf.nodes().len() ==> node_buildable(#[trigger] wf.nodes()[i])
    &&& total_pointers(wf.nodes()) <= usize::MAX
}

/// Job represents the workflow whilst it is running.
///
/// When a job is created from a workflow, all of the nodes are converted from a generic Node
/// struct to specific structs which represent only the data required for each node and each
/// struct has it's own implementation of what it should do when it is run.
pub struct Job {
    /// The unique id of the current job, a uuid v4 in text.
    id: String,
    /// Represents the user_id of the individual who executed the job
    owner_id: String,
    /// A container type to include all the data returned from each node as the job runs
    context: Vec<Parameter>,
    /// Current is a pointer into `self.nodes` to indicate which node we are currently on within
    /// the job. It will start as None indicating the job has not started
    current: Option<usize>,
    /// The pointers leaving each node, by node id
    cursor_map: StringHashMap<Vec<Pointer>>,
    /// A list of all the nodes within the job, each node shown in a workflow will appear
    /// exactly once
    pub nodes: Vec<JobNode>,
    /// The status represents the jobs running state
    status: JobStatus,
}

/// Every node reports on a channel whose receiving end is `rx`.
pub open spec fn reports_on(nodes: Seq<JobNode>, rx: Receiver<Message>) -> bool {
    forall|i: int| 0 <= i < nodes.len() ==> reports_to(#[trigger] nodes[i].reporting_channel(), rx)
}

/// Every activity node asks for its activity on the channel that `reactor_tx` sends to.
pub open spec fn requests_on(nodes: Seq<JobNode>, reactor_tx: Sender<Event>) -> bool {
    forall|i: int|
        0 <= i < nodes.len() && #[trigger] nodes[i] is Activity ==> same_event_channel(
            nodes[i]->Activity_0.request_channel(),
            reactor_tx,
        )
}

/// A job as [`Job::new`] builds it from a workflow: a fresh version 4 uuid as id, the workflow's
/// owner, an empty context, no current node, not started; one node per workflow node, each
/// built from it (see [`built_from`]); and the pointers of each node id as the workflow
/// gives them (see [`pointer_table`]).
pub open spec fn job_from(job: Job, wf: Workflow) -> bool {
    &&& is_uuid_v4_text(job.spec_id()@)
    &&& job.owner() == wf.owner()
    &&& job.spec_context().len() == 0
    &&& job.spec_current() is None
    &&& job.spec_status() == JobStatus::NotStarted
    &&& job.node_list().len() == wf.nodes().len()
    &&& forall|i: int|
        0 <= i < wf.nodes().len() ==> built_from(#[trigger] job.node_list()[i], wf.nodes(), i)
    &&& job.cursor() == pointer_table(wf.nodes())
}

/// Two jobs that differ at most in their running state.
pub open spec fn same_but_status(a: Job, b: Job) -> bool {
    &&& a.node_list() == b.node_list()
    &&& a.cursor() == b.cursor()
    &&& a.spec_id() == b.spec_id()
    &&& a.owner() == b.owner()
    &&& a.spec_current() == b.spec_current()
    &&& a.spec_context() == b.spec_context()
}

impl Job {
    /// The job's id.
    pub closed spec fn spec_id(&self) -> String {
        self.id
    }

    /// The user who runs the job.
    pub closed spec fn owner(&self) -> String {
        self.owner_id
    }

    /// What the nodes have returned so far.
    pub closed spec fn spec_context(&self) -> Seq<Parameter> {
        self.context@
    }

    /// The node the job is on.
    pub closed spec fn spec_current(&self) -> Option<usize> {
        self.current
    }

    /// The job's running state.
    pub closed spec fn spec_status(&self) -> JobStatus {
        self.status
    }

    /// The job's nodes.
    pub closed spec fn node_list(&self) -> Seq<JobNode> {
        self.nodes@
    }

    /// A job holds no more nodes than a `usize` counts.
    pub proof fn lemma_node_count_fits(&self)
        ensures
            self.node_list().len() <= usize::MAX,
    {
        assert(self.nodes.len() == self.nodes@.len());
    }

    /// The pointers leaving each node, by node id.
    pub closed spec fn cursor(&self) -> Map<Seq<char>, Seq<Pointer>> {
        self.cursor_map@.map_values(|v: Vec<Pointer>| v@)
    }

    /// What [`Job::next_node`] gives: `None` (outer) where an expression on the way cannot
    /// be evaluated. Without a finished node, the first start node alone, or nothing where
    /// there is none. After node `p`: nothing where `p` is no position, is an end node (the
    /// job stops there) or its id has no pointers; else the walk of its pointers (see
    /// [`follow`]).
    pub open spec fn next_outcome(&self, pointer: Option<usize>) -> Option<Option<Seq<usize>>> {
        match pointer {
            None => Some(
                match first_start(self.node_list()) {
                    Some(i) => Some(seq![i as usize]),
                    None => None,
                },
            ),
            Some(p) => if p >= self.node_list().len() {
                Some(None)
            } else {
                let current = self.node_list()[p as int];
                if current.node_kind() == WorkflowNodeType::End {
                    Some(None)
                } else if !self.cursor().contains_key(current.node_id()) {
                    Some(None)
                } else {
                    follow(self.node_list(), self.cursor()[current.node_id()])
                }
            },
        }
    }

    /// Every position that [`Job::next_outcome`] lists is the position of a node.
    pub proof fn lemma_next_in_range(&self, pointer: Option<usize>, found: Seq<usize>)
        requires
            self.node_list().len() <= usize::MAX,
            self.next_outcome(pointer) == Some(Some(found)),
        ensures
            forall|j: int| 0 <= j < found.len() ==> #[trigger] found[j] < self.node_list().len(),
    {
        lemma_first_index_found(self.node_list(), false, Seq::empty());
        match pointer {
            Some(p) => {
                if p < self.node_list().len() {
                    let current = self.node_list()[p as int];
                    if self.cursor().contains_key(current.node_id()) && current.node_kind()
                        != WorkflowNodeType::End {
                        let pointers = self.cursor()[current.node_id()];
                        lemma_follow_in_range(self.node_list(), pointers);
                        assert(follow(self.node_list(), pointers) == Some(Some(found)));
                        assert forall|j: int| 0 <= j < found.len() implies #[trigger] found[j]
                            < self.node_list().len() by {
                            assert(follow(self.node_list(), pointers)->Some_0->Some_0[j]
                                < self.node_list().len());
                        }
                    }
                }
            },
            None => {},
        }
    }

    /// Creates a new Job struct from a Workflow, with the sender to the reactor for the
    /// activity nodes, and hands back the receiving end of the channel on which its nodes
    /// report.
    pub fn new(wf: &Workflow, reactor_tx: &Sender<Event>) -> (built: (Self, Receiver<Message>))
        requires
            buildable(*wf),
        ensures
            job_from(built.0, *wf),
            message_capacity(built.1) == CHANNEL_CAPACITY,
            reports_on(built.0.node_list(), built.1),
            requests_on(built.0.node_list(), *reactor_tx),
    {
        let (exec_tx, exec_rx) = message_channel(CHANNEL_CAPACITY);
        let mut nodes: Vec<JobNode> = Vec::with_capacity(wf.workflow.len());
        let mut cursor_map: StringHashMap<Vec<Pointer>> = StringHashMap::new();
        let mut i: usize = 0;
        while i < wf.workflow.len()
            invariant
                i <= wf.workflow@.len(),
                buildable(*wf),
                nodes@.len() == i,
                forall|j: int| 0 <= j < i ==> built_from(#[trigger] nodes@[j], wf.workflow@, j),
                reports_to(exec_tx, exec_rx),
                reports_on(nodes@, exec_rx),
                requests_on(nodes@, *reactor_tx),
                cursor_map@.map_values(|v: Vec<Pointer>| v@) == pointer_table(
                    wf.workflow@.take(i as int),
                ),
            decreases wf.workflow@.len() - i,
        {
            let node = &wf.workflow[i];
            assert(node_buildable(wf.nodes()[i as int]));
            match node.kind {
                WorkflowNodeType::Start => {
                    nodes.push(JobNode::Start(Start::new(node, clone_message_sender(&exec_tx), i)));
                },
                WorkflowNodeType::Parallel => {
                    let dependencies = count_incoming(&wf.workflow, node.id.as_str());
                    let wrapped_deps = if dependencies == 0 {
                        None
                    } else {
                        Some(dependencies)
                    };
                    nodes.push(JobNode::Parallel(Parallel::new(node, clone_message_sender(&exec_tx), i, wrapped_deps)));
                },
                WorkflowNodeType::Activity => {
                    nodes.push(JobNode::Activity(Activity::new(node, reactor_tx, clone_message_sender(&exec_tx), i)));
                },
                WorkflowNodeType::End => {
                    nodes.push(JobNode::End(End::new(node, clone_message_sender(&exec_tx), i)));
                },
                WorkflowNodeType::Exclusive => {
                    nodes.push(JobNode::Exclusive(Exclusive::new(node, clone_message_sender(&exec_tx), i)));
                },
                _ => {
                    proof {
                        assert(false);
                    }
                },
            }
            let ghost before = cursor_map@;
            cursor_map.insert(node.id.clone(), copy_pointers(&node.pointers));
            proof {
                let taken = wf.workflow@.take(i + 1);
                assert(taken.drop_last() =~= wf.workflow@.take(i as int));
                assert(taken.last() == wf.workflow@[i as int]);
                assert(cursor_map@.map_values(|v: Vec<Pointer>| v@) =~= pointer_table(taken));
            }
            i = i + 1;
        }
        proof {
            assert(wf.workflow@.take(i as int) =~= wf.workflow@);
        }
        (
            Job {
                id: fresh_id(),
                owner_id: wf.associated_user_id.clone(),
                context: Vec::new(),
                current: None,
                cursor_map,
                nodes,
                status: JobStatus::NotStarted,
            },
            exec_rx,
        )
    }

    /// Builds the job where the workflow allows it (see [`buildable`]), else `None`.
    pub fn try_new(wf: &Workflow, reactor_tx: &Sender<Event>) -> (built: Option<(Self, Receiver<Message>)>)
        ensures
            built is Some <==> buildable(*wf),
            built matches Some(b) ==> job_from(b.0, *wf) && message_capacity(b.1)
                == CHANNEL_CAPACITY && reports_on(b.0.node_list(), b.1) && requests_on(
                b.0.node_list(),
                *reactor_tx,
            ),
    {
        let mut total: usize = 0;
        let mut i: usize = 0;
        while i < wf.workflow.len()
            invariant
                i <= wf.workflow@.len(),
                forall|j: int| 0 <= j < i ==> node_buildable(#[trigger] wf.workflow@[j]),
                total == total_pointers(wf.workflow@.take(i as int)),
            decreases wf.workflow@.len() - i,
        {
            let node = &wf.workflow[i];
            proof {
                assert(wf.workflow@.take(i + 1).drop_last() =~= wf.workflow@.take(i as int));
            }
            match node.kind {
                WorkflowNodeType::Trigger => {
                    assert(!node_buildable(wf.nodes()[i as int]));
                    return None;
                },
                WorkflowNodeType::Activity => {
                    if read_activity_settings(node).is_none() {
                        assert(!node_buildable(wf.nodes()[i as int]));
                        return None;
                    }
                },
                _ => {},
            }
            if node.pointers.len() > usize::MAX - total {
                proof {
                    lemma_total_pointers_prefix(wf.workflow@, i + 1);
                }
                return None;
            }
            total = total + node.pointers.len();
            i = i + 1;
        }
        proof {
            assert(wf.workflow@.take(i as int) =~= wf.workflow@);
        }
        Some(Job::new(wf, reactor_tx))
    }

    /// The position of the first node with the given id.
    fn find_node(&self, id: &str) -> (found: Option<usize>)
        ensures
            match found {
                Some(i) => first_with_id(self.node_list(), id@) == Some(i as int),
                None => first_with_id(self.node_list(), id@) is None,
            },
    {
        let mut i: usize = 0;
        while i < self.nodes.len()
            invariant
                i <= self.nodes@.len(),
                first_index(self.nodes@.take(i as int), true, id@) is None,
            decreases self.nodes@.len() - i,
        {
            let taken = Ghost(self.nodes@.take(i + 1));
            assert(taken@.drop_last() =~= self.nodes@.take(i as int));
            if text_eq(self.nodes[i].id(), id) {
                proof {
                    lemma_first_index_prefix(self.nodes@, true, id@, i + 1);
                }
                return Some(i);
            }
            i = i + 1;
        }
        assert(self.nodes@.take(i as int) =~= self.nodes@);
        None
    }

    /// The position of the first start node.
    fn find_start(&self) -> (found: Option<usize>)
        ensures
            match found {
                Some(i) => first_start(self.node_list()) == Some(i as int),
                None => first_start(self.node_list()) is None,
            },
    {
        let mut i: usize = 0;
        while i < self.nodes.len()
            invariant
                i <= self.nodes@.len(),
                first_index(self.nodes@.take(i as int), false, Seq::empty()) is None,
            decreases self.nodes@.len() - i,
        {
            let taken = Ghost(self.nodes@.take(i + 1));
            assert(taken@.drop_last() =~= self.nodes@.take(i as int));
            if self.nodes[i].kind() == WorkflowNodeType::Start {
                proof {
                    lemma_first_index_prefix(self.nodes@, false, Seq::empty(), i + 1);
                }
                return Some(i);
            }
            i = i + 1;
        }
        assert(self.nodes@.take(i as int) =~= self.nodes@);
        None
    }

    /// What a pointer to `target` does to a walk of this job, given what its guard gave (see
    /// [`pointer_outcome`]).
    pub fn outcome_of(&self, target: &str, guard: Option<Option<ExprValue>>) -> (outcome: PointerOutcome)
        ensures
            outcome == pointer_outcome(self.node_list(), target@, guard),
    {
        let taken = match guard {
            None => true,
            Some(Some(value)) => value.is_true(),
            Some(None) => {
                return PointerOutcome::Failed;
            },
        };
        if !taken {
            return PointerOutcome::Skip;
        }
        match self.find_node(target) {
            Some(i) => PointerOutcome::Take(i),
            None => PointerOutcome::Missing,
        }
    }

    /// Walks a list of pointers as [`follow`] says.
    fn follow_pointers(&self, pointers: &Vec<Pointer>) -> (walked: Result<Option<Vec<usize>>, JobError>)
        ensures
            match walked {
                Ok(found) => follow(self.node_list(), pointers@) == Some(opt_positions(found)),
                Err(e) => follow(self.node_list(), pointers@) is None && e
                    == JobError::ExpressionFailed,
            },
    {
        let mut found: Vec<usize> = Vec::new();
        let mut k: usize = 0;
        while k < pointers.len()
            invariant
                k <= pointers@.len(),
                follow(self.node_list(), pointers@.take(k as int)) == Some(Some(found@)),
            decreases pointers@.len() - k,
        {
            let path = &pointers[k];
            let taken = Ghost(pointers@.take(k + 1));
            assert(taken@.drop_last() =~= pointers@.take(k as int));
            assert(taken@.last() == pointers@[k as int]);
            let guard: Option<Option<ExprValue>> = match &path.expression {
                None => None,
                Some(expression) => if !is_admissible(expression.as_str()) {
                    Some(None)
                } else {
                    match evaluate(expression.as_str()) {
                        Ok(value) => Some(Some(value)),
                        Err(_) => Some(None),
                    }
                },
            };
            match self.outcome_of(path.points_to.as_str(), guard) {
                PointerOutcome::Take(i) => {
                    found.push(i);
                },
                PointerOutcome::Skip => {},
                PointerOutcome::Missing => {
                    proof {
                        lemma_follow_ended(self.node_list(), pointers@, k + 1);
                    }
                    return Ok(None);
                },
                PointerOutcome::Failed => {
                    proof {
                        lemma_follow_ended(self.node_list(), pointers@, k + 1);
                    }
                    return Err(JobError::ExpressionFailed);
                },
            }
            k = k + 1;
        }
        assert(pointers@.take(k as int) =~= pointers@);
        Ok(Some(found))
    }

    /// The walk [`Job::next_node`] makes, with a failed evaluation as an error.
    fn walk(&self, pointer: Option<usize>) -> (walked: Result<Option<Vec<usize>>, JobError>)
        ensures
            match walked {
                Ok(found) => self.next_outcome(pointer) == Some(opt_positions(found)),
                Err(e) => self.next_outcome(pointer) is None && e == JobError::ExpressionFailed,
            },
    {
        match pointer {
            Some(ptr) => {
                if ptr >= self.nodes.len() {
                    return Ok(None);
                }
                let current = &self.nodes[ptr];
                if current.kind() == WorkflowNodeType::End {
                    return Ok(None);
                }
                let points_to = match self.cursor_map.get(current.id()) {
                    Some(p) => p,
                    None => {
                        return Ok(None);
                    },
                };
                self.follow_pointers(points_to)
            },
            None => match self.find_start() {
                Some(i) => Ok(Some(vec![i])),
                None => Ok(None),
            },
        }
    }

    /// The positions of the nodes to run next: with no finished node, the job's first start
    /// node; after the node at `pointer`, the nodes its pointers lead to; `None` where
    /// there are none to run (see [`Job::next_outcome`]). Every expression met on the way
    /// must be admissible and evaluate; [`Job::try_next_node`] reports the other case.
    pub fn next_node(&self, pointer: Option<usize>) -> (next: Option<Vec<usize>>)
        requires
            self.next_outcome(pointer) is Some,
        ensures
            self.next_outcome(pointer) == Some(opt_positions(next)),
    {
        match self.walk(pointer) {
            Ok(next) => next,
            Err(_) => {
                proof {
                    assert(false);
                }
                None
            },
        }
    }

    /// As [`Job::next_node`], with an error exactly where an expression on the way is not
    /// admissible or cannot be evaluated.
    pub fn try_next_node(&self, pointer: Option<usize>) -> (next: Result<Option<Vec<usize>>, JobError>)
        ensures
            match next {
                Ok(found) => self.next_outcome(pointer) == Some(opt_positions(found)),
                Err(e) => self.next_outcome(pointer) is None && e == JobError::ExpressionFailed,
            },
    {
        self.walk(pointer)
    }

    /// Runs the node at `position` (see [`JobNode::run`]); `None` where there is none.
    pub fn run_node(&mut self, position: usize) -> (action: Option<NodeAction>)
        ensures
            final(self).node_list().len() == old(self).node_list().len(),
            final(self).cursor() == old(self).cursor(),
            final(self).spec_id() == old(self).spec_id(),
            final(self).owner() == old(self).owner(),
            final(self).spec_status() == old(self).spec_status(),
            final(self).spec_current() == old(self).spec_current(),
            final(self).spec_context() == old(self).spec_context(),
            forall|i: int|
                0 <= i < old(self).node_list().len() && i != position
                    ==> #[trigger] final(self).node_list()[i] == old(self).node_list()[i],
            match action {
                Some(a) => position < old(self).node_list().len() && ran(
                    old(self).node_list()[position as int],
                    final(self).node_list()[position as int],
                    a,
                ),
                None => position >= old(self).node_list().len() && *final(self) == *old(self),
            },
    {
        if position >= self.nodes.len() {
            return None;
        }
        Some(self.nodes[position].run())
    }

    /// Sets the job's running state, leaving all else as it was.
    pub fn set_status(&mut self, status: JobStatus)
        ensures
            final(self).spec_status() == status,
            same_but_status(*old(self), *final(self)),
    {
        self.status = status;
    }

    /// The job's id.
    pub fn id(&self) -> (id: &str)
        ensures
            id@ == self.spec_id()@,
    {
        self.id.as_str()
    }

    /// The user who runs the job.
    pub fn owner_id(&self) -> (owner: &str)
        ensures
            owner@ == self.owner()@,
    {
        self.owner_id.as_str()
    }

    /// The job's running state.
    pub fn status(&self) -> (status: JobStatus)
        ensures
            status == self.spec_status(),
    {
        self.status
    }

    /// The job's nodes.
    pub fn node_count(&self) -> (n: usize)
        ensures
            n == self.node_list().len(),
    {
        self.nodes.len()
    }
}


/// No two nodes of a workflow share an id.
pub open spec fn ids_unique(nodes: Seq<WorkflowNode>) -> bool {
    forall|a: int, b: int|
        0 <= a < nodes.len() && 0 <= b < nodes.len() && a != b ==> #[trigger] nodes[a].spec_id()@
            != #[trigger] nodes[b].spec_id()@
}

/// Where node ids are unique, the pointer table gives each node's own pointers.
pub proof fn lemma_pointer_table_lookup(nodes: Seq<WorkflowNode>, i: int)
    requires
        ids_unique(nodes),
        0 <= i < nodes.len(),
    ensures
        pointer_table(nodes).contains_key(nodes[i].spec_id()@),
        pointer_table(nodes)[nodes[i].spec_id()@] == nodes[i].targets(),
    decreases nodes.len(),
{
    let init = nodes.drop_last();
    if i < nodes.len() - 1 {
        assert(ids_unique(init)) by {
            assert forall|a: int, b: int|
                0 <= a < init.len() && 0 <= b < init.len() && a != b
                    implies #[trigger] init[a].spec_id()@ != #[trigger] init[b].spec_id()@ by {
                assert(init[a] == nodes[a] && init[b] == nodes[b]);
            }
        }
        lemma_pointer_table_lookup(init, i);
        assert(init[i] == nodes[i]);
        assert(nodes[i].spec_id()@ != nodes[nodes.len() - 1].spec_id()@);
    }
}

/// Where node ids are unique, the pointer table holds one entry per node: its keys are
/// exactly the ids of the nodes, as many as there are nodes.
pub proof fn lemma_pointer_table_len(nodes: Seq<WorkflowNode>)
    requires
        ids_unique(nodes),
    ensures
        pointer_table(nodes).dom().finite(),
        pointer_table(nodes).dom().len() == nodes.len(),
        forall|k: Seq<char>| #[trigger] pointer_table(nodes).contains_key(k) <==> exists|i: int|
            0 <= i < nodes.len() && nodes[i].spec_id()@ == k,
    decreases nodes.len(),
{
    if nodes.len() > 0 {
        let init = nodes.drop_last();
        assert(ids_unique(init)) by {
            assert forall|a: int, b: int|
                0 <= a < init.len() && 0 <= b < init.len() && a != b
                    implies #[trigger] init[a].spec_id()@ != #[trigger] init[b].spec_id()@ by {
                assert(init[a] == nodes[a] && init[b] == nodes[b]);
            }
        }
        lemma_pointer_table_len(init);
        let last = nodes.last().spec_id()@;
        assert(!pointer_table(init).contains_key(last)) by {
            if pointer_table(init).contains_key(last) {
                let i = choose|i: int| 0 <= i < init.len() && init[i].spec_id()@ == last;
                assert(init[i] == nodes[i]);
                assert(nodes[i].spec_id()@ != nodes[nodes.len() - 1].spec_id()@);
            }
        }
        assert forall|k: Seq<char>| #[trigger] pointer_table(nodes).contains_key(k) <==> exists|i: int|
            0 <= i < nodes.len() && nodes[i].spec_id()@ == k by {
            if pointer_table(nodes).contains_key(k) && k != last {
                assert(pointer_table(init).contains_key(k));
                let i = choose|i: int| 0 <= i < init.len() && init[i].spec_id()@ == k;
                assert(init[i] == nodes[i]);
            }
            if pointer_table(nodes).contains_key(k) && k == last {
                assert(nodes[nodes.len() - 1].spec_id()@ == k);
            }
            if exists|i: int| 0 <= i < nodes.len() && nodes[i].spec_id()@ == k {
                let i = choose|i: int| 0 <= i < nodes.len() && nodes[i].spec_id()@ == k;
                if i < nodes.len() - 1 {
                    assert(init[i] == nodes[i]);
                    assert(pointer_table(init).contains_key(k));
                }
            }
        }
    } else {
        assert(pointer_table(nodes).dom() =~= Set::<Seq<char>>::empty());
    }
}

/// In a job built from a workflow whose node ids all differ, the pointer table holds one
/// entry per node, under that node's id, with that node's own pointers.
pub proof fn law_table_has_each_node(job: Job, wf: Workflow)
    requires
        job_from(job, wf),
        ids_unique(wf.nodes()),
    ensures
        job.cursor().dom().finite(),
        job.cursor().dom().len() == job.node_list().len(),
        forall|i: int|
            0 <= i < wf.nodes().len() ==> #[trigger] job.cursor()[wf.nodes()[i].spec_id()@]
                == wf.nodes()[i].targets() && job.cursor().contains_key(wf.nodes()[i].spec_id()@),
{
    lemma_pointer_table_len(wf.nodes());
    assert forall|i: int| 0 <= i < wf.nodes().len() implies #[trigger] job.cursor()[wf.nodes()[i].spec_id()@]
        == wf.nodes()[i].targets() && job.cursor().contains_key(wf.nodes()[i].spec_id()@) by {
        lemma_pointer_table_lookup(wf.nodes(), i);
    }
}

/// A node of a job built from a workflow reports the position it stands at, so the message
/// it sends, whatever its outcome, names that node again.
pub proof fn law_message_names_sender(
    job: Job,
    wf: Workflow,
    i: int,
    outcome: Result<Vec<Parameter>, crate::node::NodeError>,
    msg: Message,
)
    requires
        job_from(job, wf),
        0 <= i < wf.nodes().len(),
        crate::node::message_for(job.node_list()[i].node_position(), outcome, msg),
    ensures
        msg.pointer == i,
        job.node_list()[msg.pointer as int] == job.node_list()[i],
{
    assert(built_from(job.node_list()[i], wf.nodes(), i));
}

/// In a job built from a workflow whose node ids all differ, the nodes that follow node `i`
/// are those reached by walking the pointers that workflow node `i` carries, and an end
/// node ends the job whatever its pointers.
pub proof fn law_next_follows_own_pointers(job: Job, wf: Workflow, i: usize)
    requires
        job_from(job, wf),
        ids_unique(wf.nodes()),
        i < wf.nodes().len(),
    ensures
        job.next_outcome(Some(i)) == if wf.nodes()[i as int].node_type()
            == WorkflowNodeType::End {
            Some(None)
        } else {
            follow(job.node_list(), wf.nodes()[i as int].targets())
        },
{
    assert(built_from(job.node_list()[i as int], wf.nodes(), i as int));
    lemma_pointer_table_lookup(wf.nodes(), i as int);
}

/// The node a followed pointer leads to is the first node whose id is, character for
/// character, the pointer's target; where no node has that id there is none.
pub proof fn law_target_is_first_exact_id(nodes: Seq<JobNode>, id: Seq<char>)
    ensures
        match first_with_id(nodes, id) {
            Some(i) => 0 <= i < nodes.len() && nodes[i].node_id() == id && forall|j: int|
                0 <= j < i ==> #[trigger] nodes[j].node_id() != id,
            None => forall|j: int| 0 <= j < nodes.len() ==> #[trigger] nodes[j].node_id() != id,
        },
{
    lemma_first_index_found(nodes, true, id);
}

/// Every position that a walk of pointers lists holds the first node whose id is exactly
/// the target of one of those pointers.
pub proof fn law_walk_reaches_exact_targets(nodes: Seq<JobNode>, pointers: Seq<Pointer>)
    requires
        nodes.len() <= usize::MAX,
    ensures
        follow(nodes, pointers) matches Some(Some(found)) ==> forall|j: int|
            0 <= j < found.len() ==> exists|k: int|
                0 <= k < pointers.len() && (#[trigger] nodes[found[j] as int]).node_id()
                    == pointers[k].target()@ && forall|m: int|
                    0 <= m < found[j] ==> nodes[m].node_id() != pointers[k].target()@,
    decreases pointers.len(),
{
    if pointers.len() > 0 {
        let init = pointers.drop_last();
        law_walk_reaches_exact_targets(nodes, init);
        let last = pointers.last();
        law_target_is_first_exact_id(nodes, last.target()@);
        if let Some(Some(found)) = follow(nodes, pointers) {
            if let Some(Some(before)) = follow(nodes, init) {
                assert forall|j: int| 0 <= j < found.len() implies exists|k: int|
                    0 <= k < pointers.len() && (#[trigger] nodes[found[j] as int]).node_id()
                        == pointers[k].target()@ && forall|m: int|
                        0 <= m < found[j] ==> nodes[m].node_id() != pointers[k].target()@ by {
                    if j < before.len() {
                        assert(found[j] == before[j]);
                        let k = choose|k: int|
                            0 <= k < init.len() && (#[trigger] nodes[before[j] as int]).node_id()
                                == init[k].target()@ && forall|m: int|
                                0 <= m < before[j] ==> nodes[m].node_id() != init[k].target()@;
                        assert(init[k] == pointers[k]);
                    } else {
                        let k = pointers.len() - 1;
                        assert(pointers[k] == last);
                        let i = first_with_id(nodes, last.target()@)->Some_0;
                        assert(found == before.push(i as usize));
                        assert(found[j] as int == i);
                    }
                }
            }
        }
    }
}

/// The nodes that run after node `p` finishes are, each, the first node whose id is
/// exactly the target of one of `p`'s pointers; an end node has none after it.
pub proof fn law_next_nodes_have_exact_ids(job: Job, p: usize)
    ensures
        job.next_outcome(Some(p)) matches Some(Some(found)) ==> p < job.node_list().len()
            && job.node_list()[p as int].node_kind() != WorkflowNodeType::End && forall|j: int|
            0 <= j < found.len() ==> exists|k: int|
                0 <= k < job.cursor()[job.node_list()[p as int].node_id()].len() && (
                #[trigger] job.node_list()[found[j] as int]).node_id() == job.cursor()[job.node_list()[
                p as int].node_id()][k].target()@ && forall|m: int|
                    0 <= m < found[j] ==> job.node_list()[m].node_id() != job.cursor()[job.node_list()[
                    p as int].node_id()][k].target()@,
        p < job.node_list().len() && job.node_list()[p as int].node_kind()
            == WorkflowNodeType::End ==> job.next_outcome(Some(p)) == Some(None::<Seq<usize>>),
{
    job.lemma_node_count_fits();
    if p < job.node_list().len() {
        let current = job.node_list()[p as int];
        if job.cursor().contains_key(current.node_id()) {
            law_walk_reaches_exact_targets(job.node_list(), job.cursor()[current.node_id()]);
        }
    }
}

/// A job begins at a start node, the first one among its nodes; it has a node to begin at
/// exactly when some node is a start node.
pub proof fn law_job_begins_at_first_start(job: Job)
    ensures
        job.next_outcome(None) matches Some(Some(found)) ==> found.len() == 1 && found[0]
            < job.node_list().len() && job.node_list()[found[0] as int].node_kind()
            == WorkflowNodeType::Start && forall|j: int|
            0 <= j < found[0] ==> #[trigger] job.node_list()[j].node_kind()
                != WorkflowNodeType::Start,
        (exists|i: int|
            0 <= i < job.node_list().len() && #[trigger] job.node_list()[i].node_kind()
                == WorkflowNodeType::Start) <==> job.next_outcome(None) matches Some(Some(_)),
{
    job.lemma_node_count_fits();
    lemma_first_index_found(job.node_list(), false, Seq::empty());
    if let Some(i) = first_start(job.node_list()) {
        assert(job.node_list()[i].node_kind() == WorkflowNodeType::Start);
        assert(seq![i as usize][0] as int == i);
    }
}

/// How each further pointer extends a walk that has not ended: a pointer without an
/// expression, or with an admissible one that evaluates to `true`, adds the first node with
/// exactly its target's id, and ends the walk where there is none; an admissible expression
/// that evaluates to anything else skips the pointer; an expression that is not admissible
/// or that `eval` cannot evaluate ends the walk with an error.
pub proof fn law_guards_decide(nodes: Seq<JobNode>, pointers: Seq<Pointer>, p: Pointer, found: Seq<usize>)
    requires
        follow(nodes, pointers) == Some(Some(found)),
    ensures
        ({
            let taken = match p.guard() {
                None => true,
                Some(e) => admissible(e@) && evaluation(e@) == Some(ExprValue::Bool(true)),
            };
            let skipped = match p.guard() {
                None => false,
                Some(e) => admissible(e@) && evaluation(e@) is Some && evaluation(e@)->Some_0
                    != ExprValue::Bool(true),
            };
            let next = follow(nodes, pointers.push(p));
            &&& taken ==> match first_with_id(nodes, p.target()@) {
                Some(i) => next == Some(Some(found.push(i as usize))),
                None => next == Some(None::<Seq<usize>>),
            }
            &&& skipped ==> next == Some(Some(found))
            &&& !taken && !skipped ==> next is None
        }),
{
    assert(pointers.push(p).drop_last() =~= pointers);
}

} // verus!
