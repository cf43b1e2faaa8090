use eval::{to_value, Expr};
use execution_engine::executor::{begin, step, Step};
use execution_engine::expression::{is_admissible, ExprValue};
use execution_engine::node::types::{Activity, FutureStep, JobNode, NodeAction, Parallel};
use execution_engine::node::{Node, NodeError};
use execution_engine::reactor::{node_id_of_response, Event, Reactor};
use execution_engine::registry::Registry;
use execution_engine::spawner::{cancel_msg, execute_msg, Spawner, SpawnerAction, SpawnerMsg};
use execution_engine::text::text_eq;
use execution_engine::workflow::{
    Job, JobError, JobStatus, Message, NodeStatus, ParamValue, Parameter, Pointer, Workflow,
    WorkflowNode, WorkflowNodeType,
};

fn param(key: &str, value: ParamValue) -> Parameter {
    Parameter::new(key.to_string(), "string".to_string(), value)
}

fn activity_params(id: &str) -> Vec<Parameter> {
    vec![
        param("ActivityId", ParamValue::Text(id.to_string())),
        param("Description", ParamValue::Text("does a thing".to_string())),
        param("FailOnError", ParamValue::Bool(true)),
    ]
}

fn to(id: &str) -> Pointer {
    Pointer::new(id.to_string(), None)
}

fn guarded(id: &str, expr: &str) -> Pointer {
    Pointer::new(id.to_string(), Some(expr.to_string()))
}

fn node(kind: WorkflowNodeType, id: &str, pointers: Vec<Pointer>) -> WorkflowNode {
    WorkflowNode::new(kind, id.to_string(), pointers, None)
}

fn workflow(nodes: Vec<WorkflowNode>) -> Workflow {
    Workflow::new(
        "record".to_string(),
        "wf-1".to_string(),
        "user-7".to_string(),
        "project-3".to_string(),
        nodes,
    )
}

/// start -> activity -> end
fn linear() -> Workflow {
    workflow(vec![
        node(WorkflowNodeType::Start, "s", vec![to("a")]),
        WorkflowNode::new(WorkflowNodeType::Activity, "a".to_string(), vec![to("e")], Some(activity_params("act-9"))),
        node(WorkflowNodeType::End, "e", vec![]),
    ])
}

fn reactor_sender() -> tokio::sync::mpsc::Sender<Event> {
    let (tx, _rx) = tokio::sync::mpsc::channel::<Event>(20);
    tx
}

fn build(wf: &Workflow) -> Job {
    let (job, _rx) = Job::try_new(wf, &reactor_sender()).expect("buildable");
    job
}

/// The hyphenated lowercase form of a version 4 uuid.
fn is_uuid_v4(s: &str) -> bool {
    let cs: Vec<char> = s.chars().collect();
    cs.len() == 36
        && cs.iter().enumerate().all(|(i, c)| {
            if i == 8 || i == 13 || i == 18 || i == 23 {
                *c == '-'
            } else {
                c.is_ascii_digit() || ('a'..='f').contains(c)
            }
        })
        && cs[14] == '4'
        && matches!(cs[19], '8' | '9' | 'a' | 'b')
}

fn success(pointer: usize) -> Message {
    Message { pointer, status: NodeStatus::Success, context: vec![] }
}

#[test]
fn test_eval() {
    let expression = "(foo == bar) || (spam != eggs)";
    let evaluation = Expr::new(expression)
        .value("foo", "hi")
        .value("bar", "ho")
        .value("spam", 4)
        .value("eggs", 45)
        .exec();
    assert_eq!(evaluation, Ok(to_value(true)));
}

#[test]
fn spawner_messages_carry_their_ids() {
    assert_eq!(execute_msg("workflow.json"), SpawnerMsg::Execute("workflow.json".to_string()));
    assert_eq!(cancel_msg("job-1"), SpawnerMsg::Cancel("job-1".to_string()));
}

#[test]
fn text_eq_compares_characters() {
    assert!(text_eq("abc", "abc"));
    assert!(!text_eq("abc", "abd"));
    assert!(!text_eq("abc", "ab"));
    assert!(text_eq("", ""));
}

#[test]
fn registry_reads_back_writes() {
    let mut r: Registry<u32> = Registry::new();
    assert_eq!(r.len(), 0);
    r.insert("a".to_string(), 1);
    r.insert("b".to_string(), 2);
    r.insert("a".to_string(), 3);
    assert_eq!(r.len(), 2);
    assert_eq!(r.get("a"), Some(&3));
    assert!(r.contains_key("b"));
    assert_eq!(r.remove("a"), Some(3));
    assert_eq!(r.remove("a"), None);
    assert!(!r.contains_key("a"));
    assert_eq!(r.get("b"), Some(&2));
    assert_eq!(r.len(), 1);
}

#[test]
fn job_has_one_node_per_workflow_node() {
    let wf = linear();
    let job = build(&wf);
    assert_eq!(job.node_count(), 3);
    assert_eq!(job.id().len(), 36);
    assert!(is_uuid_v4(job.id()));
    assert_eq!(job.owner_id(), "user-7");
    assert_eq!(job.status(), JobStatus::NotStarted);
    let kinds: Vec<WorkflowNodeType> = job.nodes.iter().map(|n| n.kind()).collect();
    assert_eq!(kinds, vec![WorkflowNodeType::Start, WorkflowNodeType::Activity, WorkflowNodeType::End]);
    let ids: Vec<&str> = job.nodes.iter().map(|n| n.id()).collect();
    assert_eq!(ids, vec!["s", "a", "e"]);
    for (i, n) in job.nodes.iter().enumerate() {
        assert_eq!(n.position(), i);
    }
    match &job.nodes[1] {
        JobNode::Activity(a) => {
            assert_eq!(a.activity_id(), "act-9");
            assert_eq!(a.description(), "does a thing");
            assert!(a.fail_on_error());
        }
        other => panic!("expected an activity, got {:?}", other),
    }
}

#[test]
fn next_node_walks_the_graph() {
    let job = build(&linear());
    assert_eq!(job.next_node(None), Some(vec![0]));
    assert_eq!(job.next_node(Some(0)), Some(vec![1]));
    assert_eq!(job.next_node(Some(1)), Some(vec![2]));
    // an end node that leads nowhere ends the job
    assert_eq!(job.next_node(Some(2)), None);
    // no node at that position
    assert_eq!(job.next_node(Some(3)), None);
}

#[test]
fn end_node_stops_the_job_whatever_its_pointers() {
    let wf = workflow(vec![
        node(WorkflowNodeType::Start, "s", vec![to("e")]),
        node(WorkflowNodeType::End, "e", vec![to("s")]),
    ]);
    let job = build(&wf);
    assert_eq!(job.next_node(Some(0)), Some(vec![1]));
    assert_eq!(job.next_node(Some(1)), None);
    assert_eq!(job.try_next_node(Some(1)), Ok(None));
}

#[test]
fn next_node_without_start_is_none() {
    let wf = workflow(vec![node(WorkflowNodeType::End, "e", vec![])]);
    let job = build(&wf);
    assert_eq!(job.next_node(None), None);
}

#[test]
fn start_found_after_other_nodes() {
    let wf = workflow(vec![
        node(WorkflowNodeType::End, "e", vec![]),
        node(WorkflowNodeType::Parallel, "p", vec![]),
        node(WorkflowNodeType::Start, "s", vec![to("e")]),
    ]);
    let job = build(&wf);
    assert_eq!(job.next_node(None), Some(vec![2]));
}

#[test]
fn missing_target_gives_none() {
    let wf = workflow(vec![
        node(WorkflowNodeType::Start, "s", vec![to("e"), to("nowhere")]),
        node(WorkflowNodeType::End, "e", vec![]),
    ]);
    let job = build(&wf);
    assert_eq!(job.next_node(Some(0)), None);
}

#[test]
fn node_with_no_pointers_that_is_not_end_gives_empty() {
    let wf = workflow(vec![
        node(WorkflowNodeType::Start, "s", vec![]),
        node(WorkflowNodeType::End, "e", vec![]),
    ]);
    let job = build(&wf);
    assert_eq!(job.next_node(Some(0)), Some(vec![]));
}

#[test]
fn first_node_with_target_id_is_chosen() {
    let wf = workflow(vec![
        node(WorkflowNodeType::Start, "s", vec![to("e")]),
        node(WorkflowNodeType::End, "e", vec![]),
        node(WorkflowNodeType::End, "e", vec![]),
    ]);
    let job = build(&wf);
    assert_eq!(job.next_node(Some(0)), Some(vec![1]));
}

#[test]
fn expressions_guard_pointers() {
    let wf = workflow(vec![
        node(
            WorkflowNodeType::Start,
            "s",
            vec![guarded("a", "1 == 1"), guarded("b", "1 == 2"), guarded("c", "3 <= 2"), to("d")],
        ),
        node(WorkflowNodeType::End, "a", vec![]),
        node(WorkflowNodeType::End, "b", vec![]),
        node(WorkflowNodeType::End, "c", vec![]),
        node(WorkflowNodeType::End, "d", vec![]),
    ]);
    let job = build(&wf);
    assert_eq!(job.next_node(Some(0)), Some(vec![1, 4]));
    assert_eq!(job.try_next_node(Some(0)), Ok(Some(vec![1, 4])));
}

#[test]
fn literal_guards_follow_only_true() {
    let wf = workflow(vec![
        node(
            WorkflowNodeType::Start,
            "s",
            vec![guarded("a", "true"), guarded("b", "7"), guarded("c", "true != false"), guarded("d", "false")],
        ),
        node(WorkflowNodeType::End, "a", vec![]),
        node(WorkflowNodeType::End, "b", vec![]),
        node(WorkflowNodeType::End, "c", vec![]),
        node(WorkflowNodeType::End, "d", vec![]),
    ]);
    let job = build(&wf);
    assert_eq!(job.try_next_node(Some(0)), Ok(Some(vec![1, 3])));
}

#[test]
fn inadmissible_expression_is_an_error() {
    for expr in ["1 + 1", "()", "é+1", "!", "a.b", "1 % 0"] {
        let wf = workflow(vec![
            node(WorkflowNodeType::Start, "s", vec![guarded("e", expr)]),
            node(WorkflowNodeType::End, "e", vec![]),
        ]);
        let job = build(&wf);
        assert_eq!(job.try_next_node(Some(0)), Err(JobError::ExpressionFailed), "{}", expr);
    }
}

#[test]
fn admissible_expressions_are_words_comparisons_and_logic() {
    let long_ok = vec!["x"; 50].join(" && ");
    for expr in [
        "1", "true", "false", "yes", "1 == 1", "1==1", "  1 == 1  ", "1 == 1 == 1", "foo == bar",
        "(foo == bar) || (spam != eggs)", "!(a < 3)", "!x", "!!x", "4 / 2 > 1", "a<=b", "a>=b",
        "x && (y || !z)", "((1))", "1234567890123456789", long_ok.as_str(),
    ] {
        assert!(is_admissible(expr), "{}", expr);
    }
    let too_long = "1".repeat(257);
    for expr in [
        "", " ", "1 +", "1 + 1", "1 - 1", "2 * 2", "1 % 0", "()", ")(", "(1", "1)", "é+1", "!",
        "1 == ", "a.b", "0..5", "\"s\"", "f(1)", "1 === 1", "1 =! 2", "x ! y", "1 2", "a & b",
        "a | b", "1 <> 2", "[1]", "a,b", too_long.as_str(),
    ] {
        assert!(!is_admissible(expr), "{}", expr);
    }
}

#[test]
fn guards_follow_what_eval_gives() {
    let cases = [
        ("1==1", true),
        ("foo == bar", true),
        ("(foo == bar) || (spam != eggs)", true),
        ("(foo == bar) && (spam != eggs)", false),
        ("!(1 < 3)", false),
        ("!(3 < 1)", true),
        ("4 / 2 > 1", true),
        ("1 == 1 == 1", false),
        ("yes", false),
        (&format!("{}true", "!".repeat(252)), true),
        (&format!("{}1 == 1{}", "(".repeat(125), ")".repeat(125)), true),
        (&vec!["true"; 25].join(" && "), true),
    ];
    for (expr, taken) in cases {
        let wf = workflow(vec![
            node(WorkflowNodeType::Start, "s", vec![guarded("e", expr)]),
            node(WorkflowNodeType::End, "e", vec![]),
        ]);
        let job = build(&wf);
        let expected = if taken { vec![1] } else { vec![] };
        assert_eq!(job.try_next_node(Some(0)), Ok(Some(expected.clone())), "{}", expr);
        assert_eq!(job.next_node(Some(0)), Some(expected), "{}", expr);
    }
}

#[test]
fn nodes_report_on_the_jobs_receiver() {
    let (job, mut rx) = Job::try_new(&linear(), &reactor_sender()).expect("buildable");
    for (i, n) in job.nodes.iter().enumerate() {
        n.job_channel().try_send(success(i)).expect("room on the channel");
        assert_eq!(rx.try_recv().map(|m| m.pointer), Ok(i));
    }
    assert!(rx.try_recv().is_err());
}

#[test]
fn unevaluable_expression_is_an_error() {
    let wf = workflow(vec![
        node(WorkflowNodeType::Start, "s", vec![guarded("e", "(1 + ")]),
        node(WorkflowNodeType::End, "e", vec![]),
    ]);
    let job = build(&wf);
    assert_eq!(job.try_next_node(Some(0)), Err(JobError::ExpressionFailed));
    // the start node needs no expression
    assert_eq!(job.try_next_node(None), Ok(Some(vec![0])));
}

#[test]
fn admissible_expressions_that_eval_rejects_are_errors() {
    let deep = format!("{}1", "1<".repeat(127));
    for expr in ["x / 2", "true && 1", "1 < true", deep.as_str()] {
        assert!(is_admissible(expr), "{}", expr);
        let wf = workflow(vec![
            node(WorkflowNodeType::Start, "s", vec![guarded("e", expr)]),
            node(WorkflowNodeType::End, "e", vec![]),
        ]);
        let job = build(&wf);
        assert_eq!(job.try_next_node(Some(0)), Err(JobError::ExpressionFailed), "{}", expr);
    }
}

#[test]
fn missing_target_before_bad_expression_is_none() {
    let wf = workflow(vec![
        node(WorkflowNodeType::Start, "s", vec![to("nowhere"), guarded("e", "(1 + ")]),
        node(WorkflowNodeType::End, "e", vec![]),
    ]);
    let job = build(&wf);
    assert_eq!(job.try_next_node(Some(0)), Ok(None));
}

#[test]
fn expression_values_are_told_apart() {
    assert!(ExprValue::Bool(true).is_true());
    assert!(!ExprValue::Bool(false).is_true());
    assert!(!ExprValue::Number.is_true());
}

#[test]
fn trigger_nodes_cannot_be_built() {
    let rtx = reactor_sender();
    let trigger = workflow(vec![node(WorkflowNodeType::Trigger, "t", vec![])]);
    assert!(Job::try_new(&trigger, &rtx).is_none());
}

#[test]
fn exclusive_gates_are_built() {
    let wf = workflow(vec![
        node(WorkflowNodeType::Start, "s", vec![to("x")]),
        node(WorkflowNodeType::Exclusive, "x", vec![to("e")]),
        node(WorkflowNodeType::End, "e", vec![]),
    ]);
    let job = build(&wf);
    assert_eq!(job.nodes[1].kind(), WorkflowNodeType::Exclusive);
    assert_eq!(job.nodes[1].id(), "x");
    assert_eq!(job.nodes[1].position(), 1);
    assert_eq!(job.next_node(Some(1)), Some(vec![2]));
}

#[test]
fn activity_settings_are_required() {
    let rtx = reactor_sender();
    let no_params = workflow(vec![node(WorkflowNodeType::Activity, "a", vec![])]);
    assert!(Job::try_new(&no_params, &rtx).is_none());
    let missing = workflow(vec![WorkflowNode::new(
        WorkflowNodeType::Activity,
        "a".to_string(),
        vec![],
        Some(vec![param("activityid", ParamValue::Text("x".to_string()))]),
    )]);
    assert!(Job::try_new(&missing, &rtx).is_none());
    let wrong_kind = workflow(vec![WorkflowNode::new(
        WorkflowNodeType::Activity,
        "a".to_string(),
        vec![],
        Some(vec![
            param("activityid", ParamValue::Text("x".to_string())),
            param("description", ParamValue::Text("d".to_string())),
            param("failonerror", ParamValue::Text("yes".to_string())),
        ]),
    )]);
    assert!(Job::try_new(&wrong_kind, &rtx).is_none());
}

#[test]
fn activity_keys_ignore_case_and_later_wins() {
    let rtx = reactor_sender();
    let wf = workflow(vec![WorkflowNode::new(
        WorkflowNodeType::Activity,
        "a".to_string(),
        vec![],
        Some(vec![
            param("ACTIVITYID", ParamValue::Text("first".to_string())),
            param("other", ParamValue::Null),
            param("activityId", ParamValue::Text("second".to_string())),
            param("DESCRIPTION", ParamValue::Text("d".to_string())),
            param("failOnError", ParamValue::Bool(false)),
        ]),
    )]);
    let (job, _rx) = Job::try_new(&wf, &rtx).expect("buildable");
    match &job.nodes[0] {
        JobNode::Activity(a) => {
            assert_eq!(a.activity_id(), "second");
            assert_eq!(a.description(), "d");
            assert!(!a.fail_on_error());
        }
        other => panic!("expected an activity, got {:?}", other),
    }
}

#[test]
fn closing_gate_passes_once_per_round() {
    // three pointers lead into "close", none into "open"; their own pointers do not count
    let wf = workflow(vec![
        node(WorkflowNodeType::Parallel, "open", vec![to("close"), to("e")]),
        node(WorkflowNodeType::Parallel, "close", vec![to("e")]),
        node(WorkflowNodeType::Start, "s", vec![to("close")]),
        node(WorkflowNodeType::End, "e", vec![to("close")]),
    ]);
    let mut job = build(&wf);
    match &mut job.nodes[0] {
        JobNode::Parallel(p) => {
            assert!(matches!(p, Parallel::Opening { .. }));
            assert!(p.arrive());
            assert!(p.arrive());
        }
        other => panic!("expected a gate, got {:?}", other),
    }
    match &mut job.nodes[1] {
        JobNode::Parallel(p) => {
            let passes: Vec<bool> = (0..7).map(|_| p.arrive()).collect();
            assert_eq!(passes, vec![false, false, true, false, false, true, false]);
            match p {
                Parallel::Closing { dependencies, dependencies_met, .. } => {
                    assert_eq!(*dependencies, 3);
                    assert_eq!(*dependencies_met, 1);
                }
                _ => panic!("expected a closing gate"),
            }
        }
        other => panic!("expected a gate, got {:?}", other),
    }
}

#[test]
fn create_msg_reports_outcome() {
    let job = build(&linear());
    let n = &job.nodes[2];
    let ok = n.create_msg(Ok(vec![param("k", ParamValue::Number("5".to_string()))]));
    assert_eq!(ok.pointer, 2);
    assert_eq!(ok.status, NodeStatus::Success);
    assert_eq!(ok.context.len(), 1);
    let lost = n.create_msg(Err(NodeError::Communication));
    assert_eq!(lost.status, NodeStatus::Failed);
    let failed = n.create_msg(Err(NodeError::Failed("boom".to_string())));
    assert_eq!(failed.pointer, 2);
    assert_eq!(failed.status, NodeStatus::Failed);
    assert!(failed.context.is_empty());
}

#[test]
fn activity_future_asks_once_then_completes() {
    let job = build(&linear());
    let activity: &Activity = match &job.nodes[1] {
        JobNode::Activity(a) => a,
        other => panic!("expected an activity, got {:?}", other),
    };
    let mut future = execution_engine::node::types::ActivityFuture::new(activity);
    match future.advance(futures::task::noop_waker()) {
        FutureStep::Request(Event::Activity { node_id, activity_id, .. }) => {
            assert_eq!(activity_id, "act-9");
            assert_eq!(node_id.len(), 36);
            assert!(is_uuid_v4(&node_id));
            assert_eq!(future.request_id(), Some(node_id.as_str()));
        }
        other => panic!("expected a request, got {:?}", other),
    }
    match future.advance(futures::task::noop_waker()) {
        FutureStep::Ready(outputs) => assert!(outputs.is_empty()),
        other => panic!("expected ready, got {:?}", other),
    }
    assert_eq!(future.activity().position(), 1);
}

#[test]
fn reactor_wakes_registered_once() {
    let mut reactor = Reactor::new();
    let event = Event::Activity {
        node_id: "n-1".to_string(),
        activity_id: "act".to_string(),
        waker: futures::task::noop_waker(),
    };
    assert_eq!(reactor.receive(event), Some(b"\"n-1\"".to_vec()));
    assert!(reactor.respond("n-2").is_none());
    assert!(reactor.respond("n-1").is_some());
    assert!(reactor.respond("n-1").is_none());
    assert_eq!(reactor.events.len(), 0);
}

#[test]
fn reactor_drops_withdrawn_activities() {
    let mut reactor = Reactor::new();
    let event = Event::Activity {
        node_id: "n-1".to_string(),
        activity_id: "act".to_string(),
        waker: futures::task::noop_waker(),
    };
    assert_eq!(reactor.receive(event), Some(b"\"n-1\"".to_vec()));
    assert_eq!(reactor.receive(Event::Withdraw { node_id: "n-1".to_string() }), None);
    assert_eq!(reactor.events.len(), 0);
    assert!(reactor.respond("n-1").is_none());
    assert_eq!(reactor.receive(Event::Withdraw { node_id: "n-9".to_string() }), None);
}

#[test]
fn spawner_launches_and_cancels() {
    let (rtx, _rrx) = tokio::sync::mpsc::channel::<Event>(20);
    let (_stx, srx) = execution_engine::spawner::spawner_channel();
    let mut spawner = Spawner::new(rtx, srx);
    let (job_id, mut cancellation) = match spawner.handle(execute_msg("wf.json")) {
        SpawnerAction::Launch { job_id, file, cancellation, .. } => {
            assert_eq!(file, "wf.json");
            assert!(is_uuid_v4(&job_id));
            (job_id, cancellation)
        }
        other => panic!("expected a launch, got {:?}", other),
    };
    match spawner.handle(cancel_msg("wf.json")) {
        SpawnerAction::Cancel(handle) => assert!(handle.is_none()),
        other => panic!("expected a cancel, got {:?}", other),
    }
    match spawner.handle(cancel_msg(&job_id)) {
        SpawnerAction::Cancel(Some(handle)) => {
            assert!(handle.send(()).is_ok());
            assert_eq!(cancellation.try_recv(), Ok(()));
        }
        other => panic!("expected a handle, got {:?}", other),
    }
    match spawner.handle(cancel_msg(&job_id)) {
        SpawnerAction::Cancel(handle) => assert!(handle.is_none()),
        other => panic!("expected a cancel, got {:?}", other),
    }
}

#[test]
fn spawner_runs_one_workflow_twice_side_by_side() {
    let (rtx, _rrx) = tokio::sync::mpsc::channel::<Event>(20);
    let (_stx, srx) = execution_engine::spawner::spawner_channel();
    let mut spawner = Spawner::new(rtx, srx);
    let mut launch = |spawner: &mut Spawner| match spawner.handle(execute_msg("wf.json")) {
        SpawnerAction::Launch { job_id, cancellation, .. } => (job_id, cancellation),
        other => panic!("expected a launch, got {:?}", other),
    };
    let (first, mut first_cancel) = launch(&mut spawner);
    let (second, mut second_cancel) = launch(&mut spawner);
    assert_ne!(first, second);
    // neither handle was dropped: both jobs are still waiting, not cancelled
    assert_eq!(first_cancel.try_recv(), Err(tokio::sync::oneshot::error::TryRecvError::Empty));
    assert_eq!(second_cancel.try_recv(), Err(tokio::sync::oneshot::error::TryRecvError::Empty));
    // the first completes: a late cancellation finds nothing; the second is still cancellable
    spawner.complete(&first);
    match spawner.handle(cancel_msg(&first)) {
        SpawnerAction::Cancel(handle) => assert!(handle.is_none()),
        other => panic!("expected a cancel, got {:?}", other),
    }
    match spawner.handle(cancel_msg(&second)) {
        SpawnerAction::Cancel(Some(handle)) => {
            assert!(handle.send(()).is_ok());
            assert_eq!(second_cancel.try_recv(), Ok(()));
        }
        other => panic!("expected a handle, got {:?}", other),
    }
}

#[test]
fn executor_drives_a_linear_job() {
    let mut job = build(&linear());
    assert_eq!(job.status(), JobStatus::NotStarted);
    match begin(&mut job) {
        Some(NodeAction::Notify(msg)) => {
            assert_eq!(msg.pointer, 0);
            assert_eq!(msg.status, NodeStatus::Success);
        }
        other => panic!("expected the start node's message, got {:?}", other),
    }
    assert_eq!(job.status(), JobStatus::Processing);
    match step(&mut job, &success(0)) {
        Ok(Step::Run(actions)) => {
            assert_eq!(actions.len(), 1);
            match &actions[0] {
                NodeAction::Execute(f) => assert_eq!(f.activity().activity_id(), "act-9"),
                other => panic!("expected the activity, got {:?}", other),
            }
        }
        other => panic!("expected a run, got {:?}", other),
    }
    match step(&mut job, &success(1)) {
        Ok(Step::Run(actions)) => match &actions[..] {
            [NodeAction::Notify(m)] => assert_eq!(m.pointer, 2),
            other => panic!("expected the end node's message, got {:?}", other),
        },
        other => panic!("expected a run, got {:?}", other),
    }
    assert!(matches!(step(&mut job, &success(2)), Ok(Step::Finish)));
    assert_eq!(job.status(), JobStatus::Finished);
}

#[test]
fn executor_ends_a_job_on_failure() {
    let mut job = build(&linear());
    let _ = begin(&mut job);
    let failed = Message { pointer: 1, status: NodeStatus::Failed, context: vec![] };
    assert!(matches!(step(&mut job, &failed), Ok(Step::Fail)));
    assert_eq!(job.status(), JobStatus::Finished);
}

#[test]
fn executor_holds_at_closing_gate_until_all_branches_arrive() {
    // "left" and "right" have one pointer each into them, "join" two
    let wf = workflow(vec![
        node(WorkflowNodeType::Start, "s", vec![to("left"), to("right")]),
        node(WorkflowNodeType::Parallel, "left", vec![to("join")]),
        node(WorkflowNodeType::Parallel, "right", vec![to("join")]),
        node(WorkflowNodeType::Parallel, "join", vec![to("a"), to("b")]),
        node(WorkflowNodeType::End, "a", vec![]),
        node(WorkflowNodeType::End, "b", vec![]),
    ]);
    let mut job = build(&wf);
    match step(&mut job, &success(0)) {
        Ok(Step::Run(actions)) => match &actions[..] {
            [NodeAction::Notify(l), NodeAction::Notify(r)] => {
                assert_eq!(l.pointer, 1);
                assert_eq!(r.pointer, 2);
            }
            other => panic!("expected both branches' messages, got {:?}", other),
        },
        other => panic!("expected a run, got {:?}", other),
    }
    match step(&mut job, &success(1)) {
        Ok(Step::Run(actions)) => assert!(matches!(&actions[..], [NodeAction::Hold])),
        other => panic!("expected a run, got {:?}", other),
    }
    match step(&mut job, &success(2)) {
        Ok(Step::Run(actions)) => match &actions[..] {
            [NodeAction::Notify(m)] => assert_eq!(m.pointer, 3),
            other => panic!("expected the join's message, got {:?}", other),
        },
        other => panic!("expected a run, got {:?}", other),
    }
    match step(&mut job, &success(3)) {
        Ok(Step::Run(actions)) => assert_eq!(actions.len(), 2),
        other => panic!("expected a run, got {:?}", other),
    }
}

#[test]
fn every_comparison_operator_evaluates() {
    let cases = [
        ("1 < 2", true),
        ("2 < 1", false),
        ("10 > 3", true),
        ("3 > 10", false),
        ("2 >= 2", true),
        ("1 >= 2", false),
        ("2 <= 2", true),
        ("3 <= 2", false),
        ("5 == 5", true),
        ("5 != 5", false),
        ("false == false", true),
        ("123456789012345678 == 123456789012345678", true),
    ];
    for (expr, taken) in cases {
        let wf = workflow(vec![
            node(WorkflowNodeType::Start, "s", vec![guarded("e", expr)]),
            node(WorkflowNodeType::End, "e", vec![]),
        ]);
        let job = build(&wf);
        let expected = if taken { vec![1] } else { vec![] };
        assert_eq!(job.try_next_node(Some(0)), Ok(Some(expected)), "{}", expr);
    }
}

#[test]
fn reactor_answers_response_payloads() {
    let mut reactor = Reactor::new();
    let event = Event::Activity {
        node_id: "n-1".to_string(),
        activity_id: "act".to_string(),
        waker: futures::task::noop_waker(),
    };
    assert!(reactor.receive(event).is_some());
    assert_eq!(node_id_of_response(b"\"n-1\""), Some("n-1".to_string()));
    assert_eq!(node_id_of_response(b" \"n-1\" "), Some("n-1".to_string()));
    assert_eq!(node_id_of_response(b"n-1"), None);
    assert_eq!(node_id_of_response(&[0xff, 0xfe]), None);
    // payloads that carry no registered id, or no id at all, change nothing
    assert!(reactor.respond_to_payload(b"\"n-2\"").is_none());
    assert!(reactor.respond_to_payload(b"not json").is_none());
    assert!(reactor.respond_to_payload(&[0xff]).is_none());
    assert_eq!(reactor.events.len(), 1);
    assert!(reactor.respond_to_payload(b"\"n-1\"").is_some());
    assert!(reactor.respond_to_payload(b"\"n-1\"").is_none());
    assert_eq!(reactor.events.len(), 0);
}

#[test]
fn spawner_channel_carries_messages() {
    let (tx, mut rx) = execution_engine::spawner::spawner_channel();
    assert_eq!(tx.max_capacity(), 20);
    tx.try_send(execute_msg("wf.json")).expect("room on the channel");
    assert_eq!(rx.try_recv(), Ok(execute_msg("wf.json")));
}
