use isla_client::pipeline::{drain_step, execute_opcode, reverse_events, DrainStep};
use isla_client::queue::{PathResult, TraceQueue};
use isla_client::response::Response;

fn completed(outcome: bool, trace: Vec<u8>) -> PathResult {
    PathResult::Completed { outcome, trace }
}

#[test]
fn queue_delivers_entries_in_arrival_order() {
    let mut q = TraceQueue::new();
    q.push(PathResult::Failed { message: b"one".to_vec() });
    q.push(PathResult::Failed { message: b"two".to_vec() });
    match q.pop() {
        Some(PathResult::Failed { message }) => assert_eq!(message, b"one".to_vec()),
        _ => panic!("expected the first entry"),
    }
    match q.pop() {
        Some(PathResult::Failed { message }) => assert_eq!(message, b"two".to_vec()),
        _ => panic!("expected the second entry"),
    }
    assert!(q.pop().is_none());
}

#[test]
fn reverses_an_event_list_into_chronological_order() {
    let engine_order = vec![b"third".to_vec(), b"second".to_vec(), b"first".to_vec()];
    let chronological = reverse_events(engine_order);
    assert_eq!(
        chronological,
        vec![b"first".to_vec(), b"second".to_vec(), b"third".to_vec()]
    );
    assert_eq!(reverse_events(Vec::<u8>::new()), Vec::<u8>::new());
    assert_eq!(reverse_events(vec![7u8]), vec![7u8]);
}

#[test]
fn empty_queue_yields_start_then_end() {
    let mut q = TraceQueue::new();
    let (responses, err) = execute_opcode(&mut q);
    assert!(err.is_none());
    assert_eq!(responses.len(), 2);
    assert!(matches!(responses[0], Response::StartTraces));
    assert!(matches!(responses[1], Response::EndTraces));
}

#[test]
fn completed_paths_become_one_trace_each_in_order() {
    let mut q = TraceQueue::new();
    q.push(completed(false, b"ab".to_vec()));
    q.push(completed(true, b"z".to_vec()));
    q.push(completed(false, vec![]));
    let (responses, err) = execute_opcode(&mut q);
    assert!(err.is_none());
    assert_eq!(responses.len(), 5);
    assert!(matches!(responses[0], Response::StartTraces));
    match &responses[1] {
        Response::Trace(outcome, bytes) => {
            assert!(!outcome);
            assert_eq!(bytes, &b"ab".to_vec());
        }
        _ => panic!("expected a trace"),
    }
    match &responses[2] {
        Response::Trace(outcome, bytes) => {
            assert!(outcome);
            assert_eq!(bytes, &b"z".to_vec());
        }
        _ => panic!("expected a trace"),
    }
    match &responses[3] {
        Response::Trace(outcome, bytes) => {
            assert!(!outcome);
            assert!(bytes.is_empty());
        }
        _ => panic!("expected a trace"),
    }
    assert!(matches!(responses[4], Response::EndTraces));
}

#[test]
fn drain_steps_stream_the_same_bracketed_sequence() {
    let mut q = TraceQueue::new();
    q.push(completed(true, b"p1".to_vec()));
    q.push(completed(false, b"p2".to_vec()));
    match drain_step(&mut q) {
        DrainStep::Trace(Response::Trace(outcome, bytes)) => {
            assert!(outcome);
            assert_eq!(bytes, b"p1".to_vec());
        }
        _ => panic!("expected the first trace"),
    }
    match drain_step(&mut q) {
        DrainStep::Trace(Response::Trace(outcome, bytes)) => {
            assert!(!outcome);
            assert_eq!(bytes, b"p2".to_vec());
        }
        _ => panic!("expected the second trace"),
    }
    match drain_step(&mut q) {
        DrainStep::End(Response::EndTraces) => {}
        _ => panic!("expected the closing step"),
    }
}

#[test]
fn drain_step_surfaces_the_first_error() {
    let mut q = TraceQueue::new();
    q.push(PathResult::Failed { message: b"solver gave up".to_vec() });
    q.push(completed(true, b"late".to_vec()));
    match drain_step(&mut q) {
        DrainStep::Fail(message) => assert_eq!(message, b"solver gave up".to_vec()),
        _ => panic!("expected the error step"),
    }
}

#[test]
fn first_error_stops_the_drain() {
    let mut q = TraceQueue::new();
    q.push(completed(false, b"e".to_vec()));
    q.push(PathResult::Failed { message: b"solver gave up".to_vec() });
    q.push(completed(true, b"late".to_vec()));
    q.push(PathResult::Failed { message: b"second error".to_vec() });
    let (responses, err) = execute_opcode(&mut q);
    assert_eq!(err, Some(b"solver gave up".to_vec()));
    assert_eq!(responses.len(), 2);
    assert!(matches!(responses[0], Response::StartTraces));
    assert!(matches!(responses[1], Response::Trace(false, _)));
    for r in &responses {
        assert!(!matches!(r, Response::EndTraces));
    }
}

#[test]
fn every_entry_is_delivered_exactly_once() {
    let mut q = TraceQueue::new();
    let n = 100usize;
    for i in 0..n {
        q.push(completed(i % 2 == 0, vec![i as u8]));
    }
    let (responses, err) = execute_opcode(&mut q);
    assert!(err.is_none());
    assert_eq!(responses.len(), n + 2);
    for i in 0..n {
        match &responses[i + 1] {
            Response::Trace(outcome, bytes) => {
                assert_eq!(*outcome, i % 2 == 0);
                assert_eq!(bytes, &vec![i as u8]);
            }
            _ => panic!("expected a trace"),
        }
    }
}

#[test]
fn concurrent_pushes_are_each_delivered_exactly_once() {
    let shared = crossbeam::queue::SegQueue::new();
    let workers = 8usize;
    let per_worker = 50usize;
    crossbeam::thread::scope(|scope| {
        for w in 0..workers {
            let shared = &shared;
            scope.spawn(move |_| {
                for i in 0..per_worker {
                    let tag = (w * per_worker + i) as u32;
                    shared.push(completed(true, tag.to_le_bytes().to_vec()));
                }
            });
        }
    })
    .unwrap();

    let mut queue = TraceQueue { inner: shared };
    let (responses, err) = execute_opcode(&mut queue);
    assert!(err.is_none());
    assert_eq!(responses.len(), workers * per_worker + 2);
    let mut seen = vec![false; workers * per_worker];
    for response in &responses[1..responses.len() - 1] {
        match response {
            Response::Trace(_, bytes) => {
                let tag = u32::from_le_bytes(bytes[..].try_into().unwrap()) as usize;
                assert!(!seen[tag], "entry delivered twice");
                seen[tag] = true;
            }
            _ => panic!("expected a trace"),
        }
    }
    assert!(seen.iter().all(|&s| s), "an entry was lost");
}
