//! The logic for executing a job
//!
//! When a job is being executed, logically it is separated into two different areas:
//! 1. retrieving the next node to be run
//! 2. running the current node(s)
//!
//! Each node, on completion, sends a [`Message`](crate::workflow::Message) to the job. On a
//! successful completion the executor asks [`Job::next_node`](crate::workflow::Job::next_node)
//! for the nodes that follow and runs each of them; when no node follows, the job is done.
//!
//! The functions here make those decisions; waiting for messages and running activity
//! futures is left to the caller.

use vstd::prelude::*;

use crate::node::types::{ran, JobNode, NodeAction};
use crate::workflow::{first_start, same_but_status, Job, JobError, JobStatus, Message, NodeStatus};

verus! {

/// Running the node at `position` takes the node list `before` to `after` with `action`:
/// only that node changes, as [`JobNode::run`] says.
pub open spec fn ran_at(before: Seq<JobNode>, position: usize, after: Seq<JobNode>, action: NodeAction) -> bool {
    &&& position < before.len()
    &&& after.len() == before.len()
    &&& after == before.update(position as int, after[position as int])
    &&& ran(before[position as int], after[position as int], action)
}

/// The node lists `states` are those met while running the nodes at `positions` one after
/// the other, with the given actions.
pub open spec fn ran_through(
    states: Seq<Seq<JobNode>>,
    positions: Seq<usize>,
    actions: Seq<NodeAction>,
) -> bool {
    &&& states.len() == positions.len() + 1
    &&& actions.len() == positions.len()
    &&& forall|k: int|
        0 <= k < positions.len() ==> #[trigger] ran_at(states[k], positions[k], states[k + 1], actions[k])
}

/// Running the nodes at `positions` one after the other, each as [`JobNode::run`] says,
/// takes the node list `before` to `after` with the given actions.
pub open spec fn ran_all(
    before: Seq<JobNode>,
    positions: Seq<usize>,
    after: Seq<JobNode>,
    actions: Seq<NodeAction>,
) -> bool {
    exists|states: Seq<Seq<JobNode>>|
        #[trigger] ran_through(states, positions, actions) && states[0] == before && states.last()
            == after
}

/// What the executor does with a message from a node.
#[derive(Debug)]
pub enum Step {
    /// The node failed: the job ends as failed, and nothing more is run
    Fail,
    /// No node follows: the job is finished
    Finish,
    /// The nodes that follow were run, with these actions, in order
    Run(Vec<NodeAction>),
}

/// Starts a job: runs its first start node, where it has one, and the job is then being
/// processed.
pub fn begin(job: &mut Job) -> (action: Option<NodeAction>)
    ensures
        final(job).cursor() == old(job).cursor(),
        final(job).node_list().len() == old(job).node_list().len(),
        match first_start(old(job).node_list()) {
            Some(i) => action matches Some(a) && ran_all(
                old(job).node_list(),
                seq![i as usize],
                final(job).node_list(),
                seq![a],
            ) && final(job).spec_status() == JobStatus::Processing,
            None => action is None && *final(job) == *old(job),
        },
{
    match job.next_node(None) {
        Some(start) => {
            let position = start[0];
            let _count = job.node_count();
            proof {
                job.lemma_next_in_range(None, start@);
                assert(start@[0] < job.node_list().len());
            }
            let ghost before = job.node_list();
            let action = job.run_node(position);
            proof {
                let a = action.unwrap();
                let states = seq![before, job.node_list()];
                assert(job.node_list() =~= before.update(
                    position as int,
                    job.node_list()[position as int],
                ));
                assert(ran_at(states[0], seq![position][0], states[1], seq![a][0]));
                assert(ran_through(states, seq![position], seq![a]));
            }
            job.set_status(JobStatus::Processing);
            action
        },
        None => None,
    }
}

/// Decides what a message from a node leads to: a failure ends the job as failed; a
/// success runs, in order, the nodes that [`Job::next_node`] says follow the sender, or
/// finishes the job where none do. An expression that cannot be evaluated on the way is an
/// error. A job that ends, either way, is finished.
pub fn step(job: &mut Job, msg: &Message) -> (result: Result<Step, JobError>)
    ensures
        final(job).cursor() == old(job).cursor(),
        final(job).node_list().len() == old(job).node_list().len(),
        msg.status == NodeStatus::Failed ==> (result matches Ok(Step::Fail)
            && same_but_status(*old(job), *final(job)) && final(job).spec_status()
            == JobStatus::Finished),
        msg.status == NodeStatus::Success ==> match old(job).next_outcome(Some(msg.pointer)) {
            None => result == Err::<Step, JobError>(JobError::ExpressionFailed) && *final(job)
                == *old(job),
            Some(None) => (result matches Ok(Step::Finish)) && same_but_status(
                *old(job),
                *final(job),
            ) && final(job).spec_status() == JobStatus::Finished,
            Some(Some(positions)) => result matches Ok(Step::Run(actions)) && ran_all(
                old(job).node_list(),
                positions,
                final(job).node_list(),
                actions@,
            ) && final(job).spec_id() == old(job).spec_id()
                && final(job).owner() == old(job).owner()
                && final(job).spec_status() == old(job).spec_status()
                && final(job).spec_current() == old(job).spec_current()
                && final(job).spec_context() == old(job).spec_context(),
        },
{
    match msg.status {
        NodeStatus::Failed => {
            job.set_status(JobStatus::Finished);
            Ok(Step::Fail)
        },
        NodeStatus::Success => match job.try_next_node(Some(msg.pointer)) {
            Err(e) => Err(e),
            Ok(None) => {
                job.set_status(JobStatus::Finished);
                Ok(Step::Finish)
            },
            Ok(Some(positions)) => {
                let ghost start = job.node_list();
                let ghost cursor = job.cursor();
                let ghost id = job.spec_id();
                let ghost owner = job.owner();
                let ghost status = job.spec_status();
                let ghost current = job.spec_current();
                let ghost context = job.spec_context();
                let _count = job.node_count();
                proof {
                    job.lemma_next_in_range(Some(msg.pointer), positions@);
                }
                let mut actions: Vec<NodeAction> = Vec::new();
                let ghost mut states: Seq<Seq<JobNode>> = seq![start];
                let mut k: usize = 0;
                while k < positions.len()
                    invariant
                        k <= positions@.len(),
                        job.cursor() == cursor,
                        job.spec_id() == id,
                        job.owner() == owner,
                        job.spec_status() == status,
                        job.spec_current() == current,
                        job.spec_context() == context,
                        job.node_list().len() == start.len(),
                        forall|j: int| 0 <= j < positions@.len() ==> #[trigger] positions@[j] < start.len(),
                        ran_through(states, positions@.take(k as int), actions@),
                        states[0] == start,
                        states.last() == job.node_list(),
                    decreases positions@.len() - k,
                {
                    let position = positions[k];
                    let ghost middle = job.node_list();
                    let ghost done = actions@;
                    let ghost prior = states;
                    let action = job.run_node(position);
                    let a = match action {
                        Some(a) => a,
                        None => {
                            proof {
                                assert(false);
                            }
                            return Ok(Step::Finish);
                        },
                    };
                    actions.push(a);
                    proof {
                        states = prior.push(job.node_list());
                        let taken = positions@.take(k + 1);
                        assert(job.node_list() =~= middle.update(
                            position as int,
                            job.node_list()[position as int],
                        ));
                        assert forall|j: int| 0 <= j < taken.len() implies #[trigger] ran_at(
                            states[j],
                            taken[j],
                            states[j + 1],
                            actions@[j],
                        ) by {
                            if j < k {
                                assert(taken[j] == positions@.take(k as int)[j]);
                                assert(actions@[j] == done[j]);
                                assert(states[j] == prior[j] && states[j + 1] == prior[j + 1]);
                            } else {
                                assert(taken[j] == position);
                                assert(actions@[j] == a);
                            }
                        }
                        assert(ran_through(states, taken, actions@));
                    }
                    k = k + 1;
                }
                proof {
                    assert(positions@.take(k as int) =~= positions@);
                }
                Ok(Step::Run(actions))
            },
        },
    }
}

} // verus!
