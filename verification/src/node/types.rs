//! The concrete node types of a job, and [`JobNode`], which holds any one of them.
//!
//! Each node knows its id, its position in the job, and the channel on which it reports to
//! the job. Activities also know which activity to ask the reactor for; closing parallel
//! gates count the branches that have reached them.

use vstd::prelude::*;

use std::task::Waker;
use tokio::sync::mpsc::{Receiver, Sender};

use crate::channel::{clone_event_sender, clone_message_sender, reports_to, same_event_channel};
use crate::node::{success_message, Node};
use crate::reactor::Event;
use crate::text::{fresh_id, is_uuid_v4_text, lowercased, text_eq, to_lowercase};
use crate::workflow::{Message, Parameter, WorkflowNode, WorkflowNodeType};

verus! {

/// The view of an optional text.
pub open spec fn opt_text(s: Option<String>) -> Option<Seq<char>> {
    match s {
        Some(s) => Some(s@),
        None => None,
    }
}

/// The settings read so far while scanning the parameters of an activity, from left to
/// right: its activity id, its description and whether it fails on error, each absent until
/// a parameter sets it, later parameters over earlier ones. `None` where a parameter with a
/// recognised key holds a value of the wrong kind, which the scan does not survive.
pub open spec fn scan_settings(params: Seq<Parameter>) -> Option<
    (Option<Seq<char>>, Option<Seq<char>>, Option<bool>),
>
    decreases params.len(),
{
    if params.len() == 0 {
        Some((None, None, None))
    } else {
        match scan_settings(params.drop_last()) {
            None => None,
            Some((activity_id, description, fail_on_error)) => {
                let param = params.last();
                let key = lowercased(param.spec_key()@);
                if key == "activityid"@ {
                    match param.spec_value().spec_as_str() {
                        Some(s) => Some((Some(s), description, fail_on_error)),
                        None => None,
                    }
                } else if key == "description"@ {
                    match param.spec_value().spec_as_str() {
                        Some(s) => Some((activity_id, Some(s), fail_on_error)),
                        None => None,
                    }
                } else if key == "failonerror"@ {
                    match param.spec_value().spec_as_bool() {
                        Some(b) => Some((activity_id, description, Some(b))),
                        None => None,
                    }
                } else {
                    Some((activity_id, description, fail_on_error))
                }
            },
        }
    }
}

/// The activity id, description and fail-on-error flag that a list of parameters sets,
/// where it sets all three and the scan survives.
pub open spec fn settings_of(params: Seq<Parameter>) -> Option<(Seq<char>, Seq<char>, bool)> {
    match scan_settings(params) {
        Some((Some(activity_id), Some(description), Some(fail_on_error))) => Some(
            (activity_id, description, fail_on_error),
        ),
        _ => None,
    }
}

/// The settings of an activity node: those its parameters set, where it has parameters.
pub open spec fn activity_settings(wf: WorkflowNode) -> Option<(Seq<char>, Seq<char>, bool)> {
    match wf.spec_parameters() {
        Some(params) => settings_of(params@),
        None => None,
    }
}

/// A parameter whose key, lower-cased, is none of `activityid`, `description` and
/// `failonerror` changes nothing that a list of parameters sets, whatever its value and
/// wherever it stands in the list.
pub proof fn law_other_keys_are_ignored(before: Seq<Parameter>, extra: Parameter, after: Seq<Parameter>)
    requires
        lowercased(extra.spec_key()@) != "activityid"@,
        lowercased(extra.spec_key()@) != "description"@,
        lowercased(extra.spec_key()@) != "failonerror"@,
    ensures
        scan_settings(before + seq![extra] + after) == scan_settings(before + after),
        settings_of(before + seq![extra] + after) == settings_of(before + after),
    decreases after.len(),
{
    if after.len() == 0 {
        assert((before + seq![extra] + after).drop_last() =~= before);
        assert(before + after =~= before);
    } else {
        let init = after.drop_last();
        law_other_keys_are_ignored(before, extra, init);
        assert((before + seq![extra] + after).drop_last() =~= before + seq![extra] + init);
        assert((before + after).drop_last() =~= before + init);
        assert((before + seq![extra] + after).last() == after.last());
        assert((before + after).last() == after.last());
    }
}

/// A parameter with a recognised key and a value of the right kind sets that setting,
/// over whatever earlier parameters set, and leaves the other two settings as they were.
pub proof fn law_later_parameter_wins(params: Seq<Parameter>, p: Parameter)
    requires
        scan_settings(params) is Some,
    ensures
        lowercased(p.spec_key()@) == "activityid"@ && p.spec_value().spec_as_str() is Some
            ==> scan_settings(params.push(p)) == Some(
            (
                p.spec_value().spec_as_str(),
                scan_settings(params)->Some_0.1,
                scan_settings(params)->Some_0.2,
            ),
        ),
        lowercased(p.spec_key()@) == "description"@ && p.spec_value().spec_as_str() is Some
            ==> scan_settings(params.push(p)) == Some(
            (
                scan_settings(params)->Some_0.0,
                p.spec_value().spec_as_str(),
                scan_settings(params)->Some_0.2,
            ),
        ),
        lowercased(p.spec_key()@) == "failonerror"@ && p.spec_value().spec_as_bool() is Some
            ==> scan_settings(params.push(p)) == Some(
            (
                scan_settings(params)->Some_0.0,
                scan_settings(params)->Some_0.1,
                p.spec_value().spec_as_bool(),
            ),
        ),
{
    assert(params.push(p).drop_last() =~= params);
    reveal_strlit("activityid");
    reveal_strlit("description");
    reveal_strlit("failonerror");
    assert("activityid"@[0] != "description"@[0]);
    assert("activityid"@[0] != "failonerror"@[0]);
    assert("description"@[0] != "failonerror"@[0]);
}

/// A scan that fails on a prefix fails on the whole list.
proof fn lemma_scan_fails_onward(params: Seq<Parameter>, j: int)
    requires
        0 <= j <= params.len(),
        scan_settings(params.take(j)) is None,
    ensures
        scan_settings(params) is None,
    decreases params.len() - j,
{
    if j < params.len() {
        let longer = params.take(j + 1);
        assert(longer.drop_last() =~= params.take(j));
        lemma_scan_fails_onward(params, j + 1);
    } else {
        assert(params.take(j) =~= params);
    }
}

/// Reads the activity settings from a list of parameters, or `None` where
/// [`settings_of`] has none.
fn read_settings(params: &Vec<Parameter>) -> (settings: Option<(String, String, bool)>)
    ensures
        match settings {
            Some((activity_id, description, fail_on_error)) => settings_of(params@) == Some(
                (activity_id@, description@, fail_on_error),
            ),
            None => settings_of(params@) is None,
        },
{
    let mut activity_id: Option<String> = None;
    let mut description: Option<String> = None;
    let mut fail_on_error: Option<bool> = None;
    let mut i: usize = 0;
    while i < params.len()
        invariant
            i <= params@.len(),
            scan_settings(params@.take(i as int)) == Some(
                (opt_text(activity_id), opt_text(description), fail_on_error),
            ),
        decreases params@.len() - i,
    {
        let param = &params[i];
        assert(params@.take(i + 1).drop_last() =~= params@.take(i as int));
        assert(params@.take(i + 1).last() == params@[i as int]);
        let lower = to_lowercase(param.key().as_str());
        if text_eq(lower.as_str(), "activityid") {
            match param.value().as_str() {
                Some(s) => {
                    activity_id = Some(s.to_owned());
                },
                None => {
                    proof {
                        lemma_scan_fails_onward(params@, i + 1);
                    }
                    return None;
                },
            }
        } else if text_eq(lower.as_str(), "description") {
            match param.value().as_str() {
                Some(s) => {
                    description = Some(s.to_owned());
                },
                None => {
                    proof {
                        lemma_scan_fails_onward(params@, i + 1);
                    }
                    return None;
                },
            }
        } else if text_eq(lower.as_str(), "failonerror") {
            match param.value().as_bool() {
                Some(b) => {
                    fail_on_error = Some(b);
                },
                None => {
                    proof {
                        lemma_scan_fails_onward(params@, i + 1);
                    }
                    return None;
                },
            }
        }
        i = i + 1;
    }
    assert(params@.take(i as int) =~= params@);
    match (activity_id, description, fail_on_error) {
        (Some(a), Some(d), Some(f)) => Some((a, d, f)),
        _ => None,
    }
}

/// Reads the settings of an activity node, or `None` where [`activity_settings`] has none.
pub(crate) fn read_activity_settings(wf: &WorkflowNode) -> (settings: Option<(String, String, bool)>)
    ensures
        match settings {
            Some((activity_id, description, fail_on_error)) => activity_settings(*wf) == Some(
                (activity_id@, description@, fail_on_error),
            ),
            None => activity_settings(*wf) is None,
        },
{
    match wf.parameters() {
        Some(params) => read_settings(params),
        None => None,
    }
}

/// Start Node concrete type
#[derive(Debug)]
pub struct Start {
    id: String,
    job_channel: Sender<Message>,
    position: usize,
}

/// End Node concrete type
#[derive(Debug)]
pub struct End {
    id: String,
    job_channel: Sender<Message>,
    position: usize,
}

/// Activity Node concrete type
#[derive(Debug)]
pub struct Activity {
    id: String,
    activity_id: String,
    description: String,
    fail_on_error: bool,
    waker_tx: Sender<Event>,
    job_channel: Sender<Message>,
    position: usize,
}

/// Parallel node concrete type
///
/// Contains two variants, `Opening` and `Closing`, this is because each one behaves in a different
/// way when run. The `Closing` variant of a parallel must hold execution until all pointers into it
/// have been resolved whereas an `Opening` variant does nothing.
#[derive(Debug)]
pub enum Parallel {
    /// No special behaviour required for Opening, simply completes with no bespoke behaviour
    Opening { id: String, job_channel: Sender<Message>, position: usize },
    /// Keeps track of how many times it is pointed to and how many times it has been run. We can
    /// only proceed once it has been run as many times as it has pointers to it. The
    /// `dependencies_met` count is reset every time the node completes, this is in case we loop
    /// back to this node
    Closing {
        id: String,
        job_channel: Sender<Message>,
        position: usize,
        /// How many times it is pointed to
        dependencies: usize,
        /// How many times it has been run
        dependencies_met: usize,
    },
}

/// Exclusive node concrete type
///
/// The exclusive node itself doesn't do any bespoke execution logic as it's the
/// [`Job::next_node`](crate::workflow::Job::next_node) method which handles any expressions
/// present on pointers.
#[derive(Debug)]
pub struct Exclusive {
    id: String,
    job_channel: Sender<Message>,
    position: usize,
}

impl Start {
    /// A start node for the given workflow node.
    pub fn new(wf: &WorkflowNode, job_channel: Sender<Message>, position: usize) -> (node: Self)
        ensures
            node.node_id() == wf.spec_id()@,
            node.node_position() == position,
            node.reporting_channel() == job_channel,
    {
        Start { id: wf.id().clone(), job_channel, position }
    }

    /// The channel on which the node reports to its job.
    pub closed spec fn reporting_channel(&self) -> Sender<Message> {
        self.job_channel
    }

    /// The channel on which the node reports to its job.
    pub fn job_channel(&self) -> (channel: &Sender<Message>)
        ensures
            *channel == self.reporting_channel(),
    {
        &self.job_channel
    }
}

impl Node for Start {
    open spec fn node_kind(&self) -> WorkflowNodeType {
        WorkflowNodeType::Start
    }

    closed spec fn node_id(&self) -> Seq<char> {
        self.id@
    }

    closed spec fn node_position(&self) -> usize {
        self.position
    }

    fn kind(&self) -> (kind: WorkflowNodeType) {
        WorkflowNodeType::Start
    }

    fn id(&self) -> (id: &str) {
        self.id.as_str()
    }

    fn position(&self) -> (position: usize) {
        self.position
    }
}

impl End {
    /// An end node for the given workflow node.
    pub fn new(wf: &WorkflowNode, job_channel: Sender<Message>, position: usize) -> (node: Self)
        ensures
            node.node_id() == wf.spec_id()@,
            node.node_position() == position,
            node.reporting_channel() == job_channel,
    {
        End { id: wf.id().clone(), job_channel, position }
    }

    /// The channel on which the node reports to its job.
    pub closed spec fn reporting_channel(&self) -> Sender<Message> {
        self.job_channel
    }

    /// The channel on which the node reports to its job.
    pub fn job_channel(&self) -> (channel: &Sender<Message>)
        ensures
            *channel == self.reporting_channel(),
    {
        &self.job_channel
    }
}

impl Node for End {
    open spec fn node_kind(&self) -> WorkflowNodeType {
        WorkflowNodeType::End
    }

    closed spec fn node_id(&self) -> Seq<char> {
        self.id@
    }

    closed spec fn node_position(&self) -> usize {
        self.position
    }

    fn kind(&self) -> (kind: WorkflowNodeType) {
        WorkflowNodeType::End
    }

    fn id(&self) -> (id: &str) {
        self.id.as_str()
    }

    fn position(&self) -> (position: usize) {
        self.position
    }
}

impl Exclusive {
    /// An exclusive gate for the given workflow node.
    pub fn new(wf: &WorkflowNode, job_channel: Sender<Message>, position: usize) -> (node: Self)
        ensures
            node.node_id() == wf.spec_id()@,
            node.node_position() == position,
            node.reporting_channel() == job_channel,
    {
        Exclusive { id: wf.id().clone(), job_channel, position }
    }

    /// The channel on which the node reports to its job.
    pub closed spec fn reporting_channel(&self) -> Sender<Message> {
        self.job_channel
    }

    /// The channel on which the node reports to its job.
    pub fn job_channel(&self) -> (channel: &Sender<Message>)
        ensures
            *channel == self.reporting_channel(),
    {
        &self.job_channel
    }
}

impl Node for Exclusive {
    open spec fn node_kind(&self) -> WorkflowNodeType {
        WorkflowNodeType::Exclusive
    }

    closed spec fn node_id(&self) -> Seq<char> {
        self.id@
    }

    closed spec fn node_position(&self) -> usize {
        self.position
    }

    fn kind(&self) -> (kind: WorkflowNodeType) {
        WorkflowNodeType::Exclusive
    }

    fn id(&self) -> (id: &str) {
        self.id.as_str()
    }

    fn position(&self) -> (position: usize) {
        self.position
    }
}

/// What a closing gate's count becomes when one more branch reaches it: one more, wrapping
/// round at the top of `usize` as an atomic counter does.
pub open spec fn count_after(met: usize) -> usize {
    if met == usize::MAX {
        0
    } else {
        (met + 1) as usize
    }
}

/// The count of a closing gate with `dependencies` dependencies after `n` arrivals, counted
/// from zero as [`Parallel::arrive`] counts them.
pub open spec fn count_after_arrivals(dependencies: usize, n: nat) -> usize
    decreases n,
{
    if n == 0 {
        0
    } else {
        let before = count_after_arrivals(dependencies, (n - 1) as nat);
        if count_after(before) == dependencies {
            0
        } else {
            count_after(before)
        }
    }
}

/// One arrival at a gate, as [`Parallel::arrive`] makes it: an opening gate lets it through
/// and stays as it was; a closing gate counts it (see [`count_after`]), lets it through
/// exactly when the count reaches its dependencies, and then starts again from zero.
pub open spec fn arrived(before: Parallel, after: Parallel, pass: bool) -> bool {
    match before {
        Parallel::Opening { .. } => pass && after == before,
        Parallel::Closing { id, job_channel, position, dependencies, dependencies_met } => {
            let next = count_after(dependencies_met);
            &&& pass == (next == dependencies)
            &&& after == Parallel::Closing {
                id,
                job_channel,
                position,
                dependencies,
                dependencies_met: if pass { 0 } else { next },
            }
        },
    }
}

/// The gates of a run of arrivals, one after the other, each state the one before after one
/// arrival, beginning at a closing gate with `dependencies` dependencies and none met: each
/// state counts the arrivals so far as [`count_after_arrivals`] does.
pub proof fn lemma_gate_counts(states: Seq<Parallel>, passes: Seq<bool>, dependencies: usize, k: int)
    requires
        states.len() == passes.len() + 1,
        states[0] is Closing,
        states[0]->Closing_dependencies == dependencies,
        states[0]->Closing_dependencies_met == 0,
        forall|j: int| 0 <= j < passes.len() ==> arrived(#[trigger] states[j], states[j + 1], passes[j]),
        0 <= k < states.len(),
    ensures
        states[k] is Closing,
        states[k]->Closing_dependencies == dependencies,
        states[k]->Closing_dependencies_met == count_after_arrivals(dependencies, k as nat),
    decreases k,
{
    if k > 0 {
        lemma_gate_counts(states, passes, dependencies, k - 1);
        assert(arrived(states[k - 1], states[k], passes[k - 1]));
    }
}

/// Successive arrivals at a closing gate, starting with no branch counted: after some
/// number of arrivals the count is the remainder of that number by the dependencies, and an
/// arrival lets execution through exactly when the number of arrivals up to and including
/// it is a multiple of the dependencies, so once per round of branches.
pub proof fn law_gate_rounds(states: Seq<Parallel>, passes: Seq<bool>)
    requires
        states.len() == passes.len() + 1,
        states[0] is Closing,
        states[0]->Closing_dependencies > 0,
        states[0]->Closing_dependencies_met == 0,
        forall|j: int| 0 <= j < passes.len() ==> arrived(#[trigger] states[j], states[j + 1], passes[j]),
    ensures
        forall|j: int|
            0 <= j < states.len() ==> #[trigger] states[j] is Closing
                && states[j]->Closing_dependencies == states[0]->Closing_dependencies
                && states[j]->Closing_dependencies_met == j % (states[0]->Closing_dependencies as int),
        forall|j: int|
            0 <= j < passes.len() ==> (#[trigger] passes[j] <==> (j + 1) % (
            states[0]->Closing_dependencies as int) == 0),
{
    let d = states[0]->Closing_dependencies;
    assert forall|j: int| 0 <= j < states.len() implies #[trigger] states[j] is Closing
        && states[j]->Closing_dependencies == d && states[j]->Closing_dependencies_met == j % (
        d as int) by {
        lemma_gate_counts(states, passes, d, j);
        law_gate_passes_once_per_round(d, j as nat);
    }
    assert forall|j: int| 0 <= j < passes.len() implies (#[trigger] passes[j] <==> (j + 1) % (
    d as int) == 0) by {
        lemma_gate_counts(states, passes, d, j);
        law_gate_passes_once_per_round(d, (j + 1) as nat);
        assert(arrived(states[j], states[j + 1], passes[j]));
    }
}

/// A closing gate that waits for `dependencies` arrivals, counted from zero, holds the number
/// of arrivals modulo `dependencies`, and the `n`-th arrival lets execution through exactly
/// when `n` is a multiple of `dependencies`: once every `dependencies` arrivals, as often as
/// execution loops back to it.
pub proof fn law_gate_passes_once_per_round(dependencies: usize, n: nat)
    requires
        dependencies > 0,
    ensures
        count_after_arrivals(dependencies, n) == (n as int) % (dependencies as int),
        n > 0 ==> (count_after(count_after_arrivals(dependencies, (n - 1) as nat))
            == dependencies <==> (n as int) % (dependencies as int) == 0),
    decreases n,
{
    let d = dependencies as int;
    if n == 0 {
        vstd::arithmetic::div_mod::lemma_fundamental_div_mod_converse(0, d, 0, 0);
    } else {
        let m = (n - 1) as nat;
        law_gate_passes_once_per_round(dependencies, m);
        let r = m as int % d;
        let q = m as int / d;
        vstd::arithmetic::div_mod::lemma_fundamental_div_mod(m as int, d);
        vstd::arithmetic::div_mod::lemma_mod_bound(m as int, d);
        assert(count_after(count_after_arrivals(dependencies, m)) == r + 1);
        if r + 1 == d {
            assert(n == (q + 1) * d + 0) by (nonlinear_arith)
                requires
                    m == d * q + r,
                    n == m + 1,
                    r + 1 == d,
            ;
            vstd::arithmetic::div_mod::lemma_fundamental_div_mod_converse(n as int, d, q + 1, 0);
        } else {
            assert(n == q * d + (r + 1)) by (nonlinear_arith)
                requires
                    m == d * q + r,
                    n == m + 1,
            ;
            vstd::arithmetic::div_mod::lemma_fundamental_div_mod_converse(n as int, d, q, r + 1);
        }
    }
}

impl Parallel {
    /// An opening gate where `dependencies` is `None`, else a closing gate that waits for
    /// that many arrivals, none of them counted yet.
    pub(crate) fn new(
        wf: &WorkflowNode,
        job_channel: Sender<Message>,
        position: usize,
        dependencies: Option<usize>,
    ) -> (node: Self)
        ensures
            node.node_id() == wf.spec_id()@,
            node.node_position() == position,
            node.reporting_channel() == job_channel,
            match dependencies {
                None => node is Opening,
                Some(d) => node matches Parallel::Closing { dependencies, dependencies_met, .. }
                    && dependencies == d && dependencies_met == 0,
            },
    {
        match dependencies {
            None => Parallel::Opening { id: wf.id().clone(), job_channel, position },
            Some(dependencies) => Parallel::Closing {
                id: wf.id().clone(),
                job_channel,
                position,
                dependencies,
                dependencies_met: 0,
            },
        }
    }

    /// Counts one arrival and says whether execution goes on past this node. An opening
    /// gate always lets it through. A closing gate lets it through when the count reaches
    /// the number of dependencies, and then starts counting again from zero; otherwise it
    /// keeps the new count and holds.
    pub fn arrive(&mut self) -> (pass: bool)
        ensures
            final(self).node_id() == old(self).node_id(),
            final(self).node_position() == old(self).node_position(),
            arrived(*old(self), *final(self), pass),
    {
        match self {
            Parallel::Opening { .. } => true,
            Parallel::Closing { dependencies, dependencies_met, .. } => {
                let next: usize = if *dependencies_met == usize::MAX {
                    0
                } else {
                    *dependencies_met + 1
                };
                if next == *dependencies {
                    *dependencies_met = 0;
                    true
                } else {
                    *dependencies_met = next;
                    false
                }
            },
        }
    }

    /// The channel on which the node reports to its job.
    pub open spec fn reporting_channel(&self) -> Sender<Message> {
        match self {
            Parallel::Opening { job_channel, .. } => *job_channel,
            Parallel::Closing { job_channel, .. } => *job_channel,
        }
    }

    /// The channel on which the node reports to its job.
    pub fn job_channel(&self) -> (channel: &Sender<Message>)
        ensures
            *channel == self.reporting_channel(),
    {
        match self {
            Parallel::Opening { job_channel, .. } => job_channel,
            Parallel::Closing { job_channel, .. } => job_channel,
        }
    }
}

impl Node for Parallel {
    open spec fn node_kind(&self) -> WorkflowNodeType {
        WorkflowNodeType::Parallel
    }

    open spec fn node_id(&self) -> Seq<char> {
        match self {
            Parallel::Opening { id, .. } => id@,
            Parallel::Closing { id, .. } => id@,
        }
    }

    open spec fn node_position(&self) -> usize {
        match self {
            Parallel::Opening { position, .. } => *position,
            Parallel::Closing { position, .. } => *position,
        }
    }

    fn kind(&self) -> (kind: WorkflowNodeType) {
        WorkflowNodeType::Parallel
    }

    fn id(&self) -> (id: &str) {
        match self {
            Parallel::Opening { id, .. } => id.as_str(),
            Parallel::Closing { id, .. } => id.as_str(),
        }
    }

    fn position(&self) -> (position: usize) {
        match self {
            Parallel::Opening { position, .. } => *position,
            Parallel::Closing { position, .. } => *position,
        }
    }
}

impl Activity {
    /// The activity id, the description and the fail-on-error flag of the activity.
    pub closed spec fn settings(&self) -> (Seq<char>, Seq<char>, bool) {
        (self.activity_id@, self.description@, self.fail_on_error)
    }

    /// An activity node for the given workflow node, with the settings that its parameters
    /// give (see [`activity_settings`]).
    pub fn new(
        wf: &WorkflowNode,
        waker_channel: &Sender<Event>,
        job_channel: Sender<Message>,
        position: usize,
    ) -> (node: Self)
        requires
            activity_settings(*wf) is Some,
        ensures
            node.node_id() == wf.spec_id()@,
            node.node_position() == position,
            node.reporting_channel() == job_channel,
            same_event_channel(node.request_channel(), *waker_channel),
            Some(node.settings()) == activity_settings(*wf),
    {
        match read_activity_settings(wf) {
            Some((activity_id, description, fail_on_error)) => Activity {
                id: wf.id().clone(),
                activity_id,
                description,
                fail_on_error,
                waker_tx: clone_event_sender(waker_channel),
                job_channel,
                position,
            },
            None => {
                proof {
                    assert(false);
                }
                Activity {
                    id: wf.id().clone(),
                    activity_id: String::new(),
                    description: String::new(),
                    fail_on_error: false,
                    waker_tx: clone_event_sender(waker_channel),
                    job_channel,
                    position,
                }
            },
        }
    }

    /// A second activity node with the same id, position and settings, and handles to the
    /// same channels.
    pub fn duplicate(&self) -> (copy: Self)
        ensures
            copy.node_id() == self.node_id(),
            copy.node_position() == self.node_position(),
            copy.settings() == self.settings(),
            same_event_channel(copy.request_channel(), self.request_channel()),
            forall|rx: Receiver<Message>| #[trigger] reports_to(copy.reporting_channel(), rx)
                == reports_to(self.reporting_channel(), rx),
    {
        Activity {
            id: self.id.clone(),
            activity_id: self.activity_id.clone(),
            description: self.description.clone(),
            fail_on_error: self.fail_on_error,
            waker_tx: clone_event_sender(&self.waker_tx),
            job_channel: clone_message_sender(&self.job_channel),
            position: self.position,
        }
    }

    /// The id of the activity that the bot runs.
    pub fn activity_id(&self) -> (activity_id: &str)
        ensures
            activity_id@ == self.settings().0,
    {
        self.activity_id.as_str()
    }

    /// The description of the activity.
    pub fn description(&self) -> (description: &str)
        ensures
            description@ == self.settings().1,
    {
        self.description.as_str()
    }

    /// Whether a failure of the activity fails the job.
    pub fn fail_on_error(&self) -> (fail: bool)
        ensures
            fail == self.settings().2,
    {
        self.fail_on_error
    }

    /// The channel on which the node asks the reactor for its activity.
    pub closed spec fn request_channel(&self) -> Sender<Event> {
        self.waker_tx
    }

    /// The channel on which the node asks the reactor for its activity.
    pub fn waker_channel(&self) -> (channel: &Sender<Event>)
        ensures
            *channel == self.request_channel(),
    {
        &self.waker_tx
    }

    /// The channel on which the node reports to its job.
    pub closed spec fn reporting_channel(&self) -> Sender<Message> {
        self.job_channel
    }

    /// The channel on which the node reports to its job.
    pub fn job_channel(&self) -> (channel: &Sender<Message>)
        ensures
            *channel == self.reporting_channel(),
    {
        &self.job_channel
    }
}

impl Node for Activity {
    open spec fn node_kind(&self) -> WorkflowNodeType {
        WorkflowNodeType::Activity
    }

    closed spec fn node_id(&self) -> Seq<char> {
        self.id@
    }

    closed spec fn node_position(&self) -> usize {
        self.position
    }

    fn kind(&self) -> (kind: WorkflowNodeType) {
        WorkflowNodeType::Activity
    }

    fn id(&self) -> (id: &str) {
        self.id.as_str()
    }

    fn position(&self) -> (position: usize) {
        self.position
    }
}

/// Where an activity's request stands.
#[derive(Clone, Copy, Debug, PartialEq, Eq, Structural)]
pub enum FutureStatus {
    /// The request has not gone out yet
    Start,
    /// The request has gone to the reactor
    RequestSent,
}

/// What a poll of an activity's future does.
#[derive(Debug)]
pub enum FutureStep {
    /// Hand this event to the reactor and wait to be woken
    Request(Event),
    /// The activity is done, with these outputs
    Ready(Vec<Parameter>),
}

/// The future of an activity: the first poll asks the reactor to run the activity and wake
/// the future when it is done; the next poll completes.
#[derive(Debug)]
pub struct ActivityFuture {
    activity: Activity,
    state: FutureStatus,
    request: Option<String>,
}

impl ActivityFuture {
    /// The activity the future runs.
    pub closed spec fn spec_activity(&self) -> Activity {
        self.activity
    }

    /// Where the future's request stands.
    pub closed spec fn status(&self) -> FutureStatus {
        self.state
    }

    /// The node id under which the request went to the reactor, once it has.
    pub closed spec fn requested(&self) -> Option<Seq<char>> {
        opt_text(self.request)
    }

    /// The node id under which the request went to the reactor, once it has: the id to
    /// withdraw from the reactor where the future is given up.
    pub fn request_id(&self) -> (id: Option<&str>)
        ensures
            match id {
                Some(id) => self.requested() == Some(id@),
                None => self.requested() is None,
            },
    {
        match &self.request {
            Some(id) => Some(id.as_str()),
            None => None,
        }
    }

    /// A future for the given activity, its request not sent yet.
    pub fn new(activity: &Activity) -> (future: Self)
        ensures
            future.status() == FutureStatus::Start,
            future.requested() is None,
            future.spec_activity().node_id() == activity.node_id(),
            future.spec_activity().node_position() == activity.node_position(),
            future.spec_activity().settings() == activity.settings(),
            same_event_channel(future.spec_activity().request_channel(), activity.request_channel()),
            forall|rx: Receiver<Message>| #[trigger] reports_to(
                future.spec_activity().reporting_channel(),
                rx,
            ) == reports_to(activity.reporting_channel(), rx),
    {
        ActivityFuture { activity: activity.duplicate(), state: FutureStatus::Start, request: None }
    }

    /// The activity the future runs.
    pub fn activity(&self) -> (activity: &Activity)
        ensures
            *activity == self.spec_activity(),
    {
        &self.activity
    }

    /// One poll of the future. Before the request is sent: an activity event under a fresh
    /// version 4 uuid as node id, carrying the activity id and the given waker; the request
    /// now counts as sent under that id. After it: ready, with no outputs.
    pub fn advance(&mut self, waker: Waker) -> (step: FutureStep)
        ensures
            final(self).spec_activity() == old(self).spec_activity(),
            final(self).status() == FutureStatus::RequestSent,
            match old(self).status() {
                FutureStatus::Start => step matches FutureStep::Request(
                    Event::Activity { node_id, activity_id, waker: w },
                ) && activity_id@ == old(self).spec_activity().settings().0 && w == waker
                    && is_uuid_v4_text(node_id@) && final(self).requested() == Some(node_id@),
                FutureStatus::RequestSent => step matches FutureStep::Ready(outputs)
                    && outputs@.len() == 0 && final(self).requested() == old(self).requested(),
            },
    {
        match self.state {
            FutureStatus::Start => {
                let node_id = fresh_id();
                self.request = Some(node_id.clone());
                let event = Event::Activity {
                    node_id,
                    activity_id: self.activity.activity_id.clone(),
                    waker,
                };
                self.state = FutureStatus::RequestSent;
                FutureStep::Request(event)
            },
            FutureStatus::RequestSent => FutureStep::Ready(Vec::new()),
        }
    }
}

/// What the job does when a node is run.
#[derive(Debug)]
pub enum NodeAction {
    /// Send this message to the job now
    Notify(Message),
    /// Nothing to send yet: a closing gate waits for more branches
    Hold,
    /// Drive this activity future to completion, then send the activity's message
    Execute(ActivityFuture),
}

/// Any node of a job.
#[derive(Debug)]
pub enum JobNode {
    Start(Start),
    End(End),
    Activity(Activity),
    Parallel(Parallel),
    Exclusive(Exclusive),
}

impl Node for JobNode {
    open spec fn node_kind(&self) -> WorkflowNodeType {
        match self {
            JobNode::Start(n) => n.node_kind(),
            JobNode::End(n) => n.node_kind(),
            JobNode::Activity(n) => n.node_kind(),
            JobNode::Parallel(n) => n.node_kind(),
            JobNode::Exclusive(n) => n.node_kind(),
        }
    }

    open spec fn node_id(&self) -> Seq<char> {
        match self {
            JobNode::Start(n) => n.node_id(),
            JobNode::End(n) => n.node_id(),
            JobNode::Activity(n) => n.node_id(),
            JobNode::Parallel(n) => n.node_id(),
            JobNode::Exclusive(n) => n.node_id(),
        }
    }

    open spec fn node_position(&self) -> usize {
        match self {
            JobNode::Start(n) => n.node_position(),
            JobNode::End(n) => n.node_position(),
            JobNode::Activity(n) => n.node_position(),
            JobNode::Parallel(n) => n.node_position(),
            JobNode::Exclusive(n) => n.node_position(),
        }
    }

    fn kind(&self) -> (kind: WorkflowNodeType) {
        match self {
            JobNode::Start(n) => n.kind(),
            JobNode::End(n) => n.kind(),
            JobNode::Activity(n) => n.kind(),
            JobNode::Parallel(n) => n.kind(),
            JobNode::Exclusive(n) => n.kind(),
        }
    }

    fn id(&self) -> (id: &str) {
        match self {
            JobNode::Start(n) => n.id(),
            JobNode::End(n) => n.id(),
            JobNode::Activity(n) => n.id(),
            JobNode::Parallel(n) => n.id(),
            JobNode::Exclusive(n) => n.id(),
        }
    }

    fn position(&self) -> (position: usize) {
        match self {
            JobNode::Start(n) => n.position(),
            JobNode::End(n) => n.position(),
            JobNode::Activity(n) => n.position(),
            JobNode::Parallel(n) => n.position(),
            JobNode::Exclusive(n) => n.position(),
        }
    }
}

/// What running a node does: it keeps its kind, id and position; a start, end or exclusive
/// node, or an opening gate, stays as it was and reports success with an empty context; a
/// closing gate counts the arrival and reports the same only when the new count reaches its
/// dependencies, and then starts counting again from zero; an activity stays as it was and
/// hands back a fresh future for its own request.
pub open spec fn ran(before: JobNode, after: JobNode, action: NodeAction) -> bool {
    &&& after.node_kind() == before.node_kind()
    &&& after.node_id() == before.node_id()
    &&& after.node_position() == before.node_position()
    &&& match before {
        JobNode::Parallel(p) => match after {
            JobNode::Parallel(q) => {
                let through = (p is Opening) || (p matches Parallel::Closing {
                    dependencies,
                    dependencies_met,
                    ..
                } && count_after(dependencies_met) == dependencies);
                &&& through ==> (action matches NodeAction::Notify(msg) && success_message(p.node_position(), msg))
                &&& !through ==> action is Hold
                &&& match p {
                    Parallel::Opening { .. } => q == p,
                    Parallel::Closing {
                        id,
                        job_channel,
                        position,
                        dependencies,
                        dependencies_met,
                    } => q == Parallel::Closing {
                        id,
                        job_channel,
                        position,
                        dependencies,
                        dependencies_met: if through {
                            0
                        } else {
                            count_after(dependencies_met)
                        },
                    },
                }
            },
            _ => false,
        },
        JobNode::Activity(a) => action matches NodeAction::Execute(future)
            && future.status() == FutureStatus::Start
            && future.requested() is None
            && future.spec_activity().node_id() == a.node_id()
            && future.spec_activity().node_position() == a.node_position()
            && future.spec_activity().settings() == a.settings()
            && after == before,
        _ => action matches NodeAction::Notify(msg) && success_message(before.node_position(), msg) && after == before,
    }
}

impl JobNode {
    /// Runs the node: start, end and exclusive nodes, and opening gates, report success
    /// with an empty context at once; a closing gate counts the arrival (see
    /// [`Parallel::arrive`]) and reports the same only when it lets execution through; an
    /// activity hands back a fresh future for its request.
    pub fn run(&mut self) -> (action: NodeAction)
        ensures
            ran(*old(self), *final(self), action),
    {
        match self {
            JobNode::Start(n) => NodeAction::Notify(n.create_msg(Ok(Vec::new()))),
            JobNode::End(n) => NodeAction::Notify(n.create_msg(Ok(Vec::new()))),
            JobNode::Exclusive(n) => NodeAction::Notify(n.create_msg(Ok(Vec::new()))),
            JobNode::Activity(n) => NodeAction::Execute(ActivityFuture::new(n)),
            JobNode::Parallel(n) => {
                if n.arrive() {
                    NodeAction::Notify(n.create_msg(Ok(Vec::new())))
                } else {
                    NodeAction::Hold
                }
            },
        }
    }

    /// The channel on which the node reports to its job.
    pub open spec fn reporting_channel(&self) -> Sender<Message> {
        match self {
            JobNode::Start(n) => n.reporting_channel(),
            JobNode::End(n) => n.reporting_channel(),
            JobNode::Activity(n) => n.reporting_channel(),
            JobNode::Parallel(n) => n.reporting_channel(),
            JobNode::Exclusive(n) => n.reporting_channel(),
        }
    }

    /// The channel on which the node reports to its job.
    pub fn job_channel(&self) -> (channel: &Sender<Message>)
        ensures
            *channel == self.reporting_channel(),
    {
        match self {
            JobNode::Start(n) => n.job_channel(),
            JobNode::End(n) => n.job_channel(),
            JobNode::Activity(n) => n.job_channel(),
            JobNode::Parallel(n) => n.job_channel(),
            JobNode::Exclusive(n) => n.job_channel(),
        }
    }
}

} // verus!
