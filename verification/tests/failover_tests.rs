use get_elastic_templates::errors::EsError;
use get_elastic_templates::failover::FailoverExecutor;

fn down(text: &str) -> Result<(), EsError> {
    Err(EsError::TransportError(String::from(text)))
}

#[test]
fn new_executor_hands_out_each_node_exactly_once() {
    let mut ex = FailoverExecutor::new(5);
    let mut seen = vec![0usize; 5];
    while let Some(node) = ex.next_node() {
        assert!(node < 5);
        seen[node] += 1;
        ex.record_failure(EsError::TransportError(String::from("node unreachable")));
    }
    assert!(ex.exhausted());
    assert_eq!(seen, vec![1, 1, 1, 1, 1]);
}

#[test]
fn single_healthy_node_always_succeeds() {
    for h in 0..4usize {
        for _ in 0..25 {
            let outcomes: Vec<Result<(), EsError>> = (0..4usize)
                .map(|j| if j == h { Ok(()) } else { down("node down") })
                .collect();
            let mut ex = FailoverExecutor::new(4);
            assert_eq!(ex.run(&outcomes), Some(h));
        }
    }
}

#[test]
fn first_success_wins_and_nothing_runs_after_it() {
    let outcomes: Vec<Result<(), EsError>> = vec![Ok(()), Ok(()), Ok(())];
    let mut ex = FailoverExecutor::new(3);
    let r = ex.run(&outcomes);
    assert!(r.is_some());
    assert!(!ex.exhausted());
}

#[test]
fn all_nodes_failing_exhausts_every_node() {
    let outcomes: Vec<Result<(), EsError>> = vec![
        Err(EsError::RemoteStatusError(500, String::from("boom"))),
        Err(EsError::RemoteStatusError(500, String::from("boom"))),
        Err(EsError::RemoteStatusError(500, String::from("boom"))),
    ];
    let mut ex = FailoverExecutor::new(3);
    assert_eq!(ex.run(&outcomes), None);
    assert!(ex.exhausted());
    match ex.failure() {
        EsError::TransportError(m) => {
            assert_eq!(m, "all nodes failed; last error: remote status error: boom");
        }
        other => panic!("expected a transport error, got {:?}", other),
    }
}

#[test]
fn failure_references_the_last_attempted_failure() {
    let mut ex = FailoverExecutor::new(2);
    let first = ex.next_node().unwrap();
    ex.record_failure(EsError::RemoteStatusError(500, format!("node {} broke", first)));
    let second = ex.next_node().unwrap();
    ex.record_failure(EsError::RemoteStatusError(503, format!("node {} broke", second)));
    assert!(ex.exhausted());
    match ex.failure() {
        EsError::TransportError(m) => {
            assert_eq!(
                m,
                format!("all nodes failed; last error: remote status error: node {} broke", second)
            );
        }
        other => panic!("expected a transport error, got {:?}", other),
    }
}

#[test]
fn empty_node_set_fails_without_attempts() {
    let outcomes: Vec<Result<(), EsError>> = Vec::new();
    let mut ex = FailoverExecutor::new(0);
    assert_eq!(ex.next_node(), None);
    assert_eq!(ex.run(&outcomes), None);
    assert!(ex.exhausted());
}
