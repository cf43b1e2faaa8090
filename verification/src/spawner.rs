//! Spawns new jobs and handles cancellations
//!
//! The Spawner receives either a message to execute a workflow or one to cancel a job. For
//! an execution it gives the job a fresh id, records a cancellation handle under it and
//! hands back what the job's task needs, so that several jobs, of the same workflow too, run
//! side by side; for a cancellation it takes the job's handle out, to be fired. A job that
//! completes has its handle removed.

use vstd::prelude::*;

use tokio::sync::mpsc::{Receiver, Sender};
use tokio::sync::oneshot;

use crate::channel::{
    clone_event_sender, oneshot_channel, oneshot_pair, same_event_channel, spawner_capacity,
    spawner_message_channel, spawner_pair, CHANNEL_CAPACITY,
};
use crate::reactor::Event;
use crate::registry::Registry;
use crate::text::{fresh_id, is_uuid_v4_text, lemma_spare_id, spare_id, spare_id_text};

verus! {

/// Different types of message that can be received by the Spawner
#[derive(Debug, PartialEq, Eq)]
pub enum SpawnerMsg {
    /// Execute contains the workflow ID to be executed
    Execute(String),
    /// Cancel contains the job ID which needs to be cancelled
    Cancel(String),
}

/// How many fresh ids the spawner draws for a job before it gives up: a draw repeats an id
/// that is in use only by chance.
pub const ID_ATTEMPTS: usize = 8;

/// Create channel required for communication with the Spawner: its two ends, on a channel
/// that holds up to [`CHANNEL_CAPACITY`] messages.
pub fn spawner_channel() -> (pair: (Sender<SpawnerMsg>, Receiver<SpawnerMsg>))
    ensures
        spawner_capacity(pair.0) == CHANNEL_CAPACITY,
        spawner_pair(pair.0, pair.1),
{
    spawner_message_channel(CHANNEL_CAPACITY)
}

/// Creates `SpawnerMsg::Execute` variant from `&str`
pub fn execute_msg(wf_id: &str) -> (msg: SpawnerMsg)
    ensures
        msg matches SpawnerMsg::Execute(id) && id@ == wf_id@,
{
    SpawnerMsg::Execute(wf_id.to_owned())
}

/// Creates `SpawnerMsg::Cancel` variant from `&str`
pub fn cancel_msg(job_id: &str) -> (msg: SpawnerMsg)
    ensures
        msg matches SpawnerMsg::Cancel(id) && id@ == job_id@,
{
    SpawnerMsg::Cancel(job_id.to_owned())
}

/// What the spawner does with a message.
#[derive(Debug)]
pub enum SpawnerAction {
    /// Run the workflow in `file` as the job `job_id` in a task of its own, with a sender to
    /// the reactor, until it completes or `cancellation` fires
    Launch {
        job_id: String,
        file: String,
        reactor_channel: Sender<Event>,
        cancellation: oneshot::Receiver<()>,
    },
    /// Fire this cancellation handle, where the job had one
    Cancel(Option<oneshot::Sender<()>>),
    /// The workflow in `file` is not run: every fresh id drawn for it was in use
    Refused { file: String },
}

/// The keys the spawner holds handles for after launching the job `job_id`: one more,
/// `job_id`, which was not in use, with every other key keeping its handle.
pub open spec fn launched(
    before: Map<Seq<char>, oneshot::Sender<()>>,
    after: Map<Seq<char>, oneshot::Sender<()>>,
    job_id: Seq<char>,
) -> bool {
    &&& !before.contains_key(job_id)
    &&& after.dom() == before.dom().insert(job_id)
    &&& forall|k: Seq<char>| k != job_id && #[trigger] before.contains_key(k) ==> after[k] == before[k]
}

/// The handle that a cancellation for `job_id` takes out: the one recorded for it, if any.
pub open spec fn cancelled(
    jobs: Map<Seq<char>, oneshot::Sender<()>>,
    job_id: Seq<char>,
) -> Option<oneshot::Sender<()>> {
    if jobs.contains_key(job_id) {
        Some(jobs[job_id])
    } else {
        None
    }
}

/// What handling a message does to the spawner and what it answers: the listener and the
/// reactor sender stay; `Execute(file)` launches `file` as a job under a version 4 uuid
/// that was not in use (see [`launched`]), whose cancellation handle, recorded under that id,
/// pairs with the receiver the job is launched with, and with a sender to the spawner's
/// reactor channel; `Cancel(job_id)` takes out and hands back the handle recorded under
/// `job_id` (see [`cancelled`]).
pub open spec fn handled(before: Spawner, msg: SpawnerMsg, action: SpawnerAction, after: Spawner) -> bool {
    &&& after.listener_view() == before.listener_view()
    &&& after.reactor_sender() == before.reactor_sender()
    &&& match msg {
        SpawnerMsg::Execute(file) => match action {
            SpawnerAction::Launch { job_id, file: launched_file, reactor_channel, cancellation } => {
                &&& launched_file == file
                &&& is_uuid_v4_text(job_id@)
                &&& launched(before.job_handles(), after.job_handles(), job_id@)
                &&& oneshot_pair(after.job_handles()[job_id@], cancellation)
                &&& same_event_channel(reactor_channel, before.reactor_sender())
            },
            SpawnerAction::Refused { .. } => false,
            SpawnerAction::Cancel(_) => false,
        },
        SpawnerMsg::Cancel(job_id) => {
            &&& action == SpawnerAction::Cancel(cancelled(before.job_handles(), job_id@))
            &&& after.job_handles() == before.job_handles().remove(job_id@)
        },
    }
}

/// Every request to execute a workflow launches it, however many jobs already run: under
/// an id that no job had, with the handle that cancels it recorded under that id and every
/// other job keeping its own handle.
pub proof fn law_every_execute_launches(
    before: Spawner,
    file: String,
    action: SpawnerAction,
    after: Spawner,
)
    requires
        handled(before, SpawnerMsg::Execute(file), action, after),
    ensures
        action is Launch,
        action->Launch_file == file,
        !before.job_handles().contains_key(action->Launch_job_id@),
        after.job_handles().contains_key(action->Launch_job_id@),
        after.job_handles().len() == before.job_handles().len() + 1 || !before.job_handles().dom().finite(),
        forall|k: Seq<char>|
            #[trigger] before.job_handles().contains_key(k) ==> after.job_handles().contains_key(k)
                && after.job_handles()[k] == before.job_handles()[k],
{
    if before.job_handles().dom().finite() {
        assert(after.job_handles().dom() =~= before.job_handles().dom().insert(action->Launch_job_id@));
    }
}

/// A request to cancel a job hands back the handle recorded under its id, where there is
/// one, and nothing otherwise; afterwards no handle is recorded under that id, and every
/// other job keeps its own.
pub proof fn law_cancel_takes_only_its_handle(
    before: Spawner,
    job_id: String,
    action: SpawnerAction,
    after: Spawner,
)
    requires
        handled(before, SpawnerMsg::Cancel(job_id), action, after),
    ensures
        action is Cancel,
        before.job_handles().contains_key(job_id@) ==> action->Cancel_0 == Some(
            before.job_handles()[job_id@],
        ),
        !before.job_handles().contains_key(job_id@) ==> action->Cancel_0 is None,
        !after.job_handles().contains_key(job_id@),
        forall|k: Seq<char>|
            k != job_id@ ==> (#[trigger] after.job_handles().contains_key(k)
                == before.job_handles().contains_key(k)) && (before.job_handles().contains_key(k)
                ==> after.job_handles()[k] == before.job_handles()[k]),
{
}

/// The Spawner struct contains the state required to create and cancel jobs
pub struct Spawner {
    /// The sender half of the reactor channel, this is cloned for each new job
    reactor_channel: Sender<Event>,
    /// The receiver half for the Spawner to receive `SpawnerMsg`'s
    rx: Receiver<SpawnerMsg>,
    /// A register of job ids and their cancellation handles, to be used when the Spawner
    /// receives a `SpawnerMsg::Cancel` message
    jobs: Registry<oneshot::Sender<()>>,
}

impl Spawner {
    /// The cancellation handles by job id.
    pub closed spec fn job_handles(&self) -> Map<Seq<char>, oneshot::Sender<()>> {
        self.jobs@
    }

    /// The receiver on which messages arrive.
    pub closed spec fn listener_view(&self) -> Receiver<SpawnerMsg> {
        self.rx
    }

    /// The sender to the reactor that each job gets a handle of.
    pub closed spec fn reactor_sender(&self) -> Sender<Event> {
        self.reactor_channel
    }

    /// Create a new Spawner from the `Sender` half of the reactor channel and the `Receiver` half
    /// of the Spawner channel
    pub fn new(rc: Sender<Event>, listener: Receiver<SpawnerMsg>) -> (spawner: Self)
        ensures
            spawner.job_handles() == Map::<Seq<char>, oneshot::Sender<()>>::empty(),
            spawner.listener_view() == listener,
            spawner.reactor_sender() == rc,
    {
        Spawner { reactor_channel: rc, rx: listener, jobs: Registry::new() }
    }

    /// The receiver on which the spawner's messages arrive.
    pub fn listener(&mut self) -> (rx: &mut Receiver<SpawnerMsg>)
        ensures
            *rx == old(self).listener_view(),
            final(self).listener_view() == *final(rx),
            final(self).job_handles() == old(self).job_handles(),
            final(self).reactor_sender() == old(self).reactor_sender(),
    {
        &mut self.rx
    }

    /// A version 4 uuid text that no job of the spawner uses: a fresh random one, drawn at
    /// most [`ID_ATTEMPTS`] times, or, where every draw was in use, the first spare id (see
    /// [`spare_id`]) that is not in use. With `n` jobs, one of the first `n + 1` spare ids is
    /// free, since they all differ.
    fn unused_id(&self) -> (id: String)
        ensures
            is_uuid_v4_text(id@),
            !self.job_handles().contains_key(id@),
    {
        let mut id = fresh_id();
        let mut tries: usize = 1;
        while tries < ID_ATTEMPTS && self.jobs.contains_key(id.as_str())
            invariant
                is_uuid_v4_text(id@),
                tries <= ID_ATTEMPTS,
            decreases ID_ATTEMPTS - tries,
        {
            id = fresh_id();
            tries = tries + 1;
        }
        if !self.jobs.contains_key(id.as_str()) {
            return id;
        }
        let n = self.jobs.len();
        let ghost keys = self.job_handles().dom();
        let ghost mut used: Set<Seq<char>> = Set::empty();
        let mut c: usize = 0;
        loop
            invariant
                c <= n,
                keys == self.job_handles().dom(),
                keys.finite(),
                keys.len() == n,
                used.finite(),
                used.len() == c,
                used.subset_of(keys),
                forall|x: Seq<char>| #[trigger] used.contains(x) ==> exists|j: int|
                    0 <= j < c && x == #[trigger] spare_id(j as nat),
            decreases n - c,
        {
            let candidate = spare_id_text(c);
            if !self.jobs.contains_key(candidate.as_str()) {
                return candidate;
            }
            proof {
                if used.contains(candidate@) {
                    let j = choose|j: int| 0 <= j < c && candidate@ == #[trigger] spare_id(j as nat);
                    lemma_spare_id(j as nat, c as nat);
                }
                let more = used.insert(candidate@);
                assert(more.subset_of(keys));
                vstd::set_lib::lemma_len_subset(more, keys);
                assert forall|x: Seq<char>| #[trigger] more.contains(x) implies exists|j: int|
                    0 <= j < c + 1 && x == #[trigger] spare_id(j as nat) by {
                    if x != candidate@ {
                        assert(used.contains(x));
                        let j = choose|j: int| 0 <= j < c && x == #[trigger] spare_id(j as nat);
                        assert(0 <= j < c + 1 && x == spare_id(j as nat));
                    } else {
                        let j: int = c as int;
                        assert(x == spare_id(j as nat));
                        assert(0 <= j < c + 1);
                    }
                }
                used = more;
            }
            c = c + 1;
        }
    }

    /// Decides what to do with a message: for `Execute(file)`, give the job a version 4 uuid
    /// that no other job uses as id, record a new cancellation handle under it, and launch
    /// the job with the other end of that handle's channel and a sender to the spawner's
    /// reactor channel, however many jobs run; for `Cancel(job_id)`, take out the handle
    /// recorded under `job_id`, to be fired.
    pub fn handle(&mut self, msg: SpawnerMsg) -> (action: SpawnerAction)
        ensures
            handled(*old(self), msg, action, *final(self)),
    {
        match msg {
            SpawnerMsg::Execute(file) => {
                let job_id = self.unused_id();
                let (cancellation_tx, cancellation_rx) = oneshot_channel();
                self.jobs.insert(job_id.clone(), cancellation_tx);
                SpawnerAction::Launch {
                    job_id,
                    file,
                    reactor_channel: clone_event_sender(&self.reactor_channel),
                    cancellation: cancellation_rx,
                }
            },
            SpawnerMsg::Cancel(job_id) => {
                let handle = self.jobs.remove(job_id.as_str());
                SpawnerAction::Cancel(handle)
            },
        }
    }

    /// The job `job_id` has completed: its cancellation handle is no longer kept, so a later
    /// cancellation for it finds nothing.
    pub fn complete(&mut self, job_id: &str)
        ensures
            final(self).job_handles() == old(self).job_handles().remove(job_id@),
            final(self).listener_view() == old(self).listener_view(),
            final(self).reactor_sender() == old(self).reactor_sender(),
    {
        let _finished = self.jobs.remove(job_id);
    }
}

/// A cancellation for a job that was launched finds its handle, and a second cancellation
/// for it finds nothing and changes nothing: each job is cancelled at most once. Once the
/// job has completed, a cancellation for it finds nothing. A cancellation for a job that was
/// never launched changes nothing.
pub proof fn law_cancel_after_launch(
    before: Map<Seq<char>, oneshot::Sender<()>>,
    after: Map<Seq<char>, oneshot::Sender<()>>,
    job_id: Seq<char>,
    unknown: Seq<char>,
)
    requires
        launched(before, after, job_id),
        !after.contains_key(unknown),
    ensures
        cancelled(after, job_id) is Some,
        cancelled(after.remove(job_id), job_id) is None,
        after.remove(job_id).remove(job_id) == after.remove(job_id),
        cancelled(after, unknown) is None,
        after.remove(unknown) == after,
{
    assert(after.contains_key(job_id));
    assert(after.remove(job_id).remove(job_id) =~= after.remove(job_id));
    assert(after.remove(unknown) =~= after);
}

/// Launching a second job, of any workflow, leaves the first job's handle where it was: jobs
/// launched one after the other get different ids and each keep their own handle.
pub proof fn law_launches_side_by_side(
    first: Map<Seq<char>, oneshot::Sender<()>>,
    second: Map<Seq<char>, oneshot::Sender<()>>,
    third: Map<Seq<char>, oneshot::Sender<()>>,
    a: Seq<char>,
    b: Seq<char>,
)
    requires
        launched(first, second, a),
        launched(second, third, b),
    ensures
        a != b,
        third.contains_key(a) && third.contains_key(b),
        third[a] == second[a],
{
    assert(second.contains_key(a));
}

} // verus!
