use port_scanner::batch::Batch;
use port_scanner::batch::BatchAction;

#[test]
fn ports_are_started_in_order_up_to_the_limit() {
    let mut batch = Batch::new(vec![21, 22, 23, 24, 25], 2);
    assert_eq!(batch.limit(), 2);
    assert_eq!(batch.in_flight(), 0);
    assert_eq!(batch.poll(), BatchAction::Start(21));
    assert_eq!(batch.poll(), BatchAction::Start(22));
    assert_eq!(batch.in_flight(), 2);
    assert_eq!(batch.poll(), BatchAction::Wait);
    assert_eq!(batch.poll(), BatchAction::Wait);
    assert_eq!(batch.in_flight(), 2);
    assert!(batch.complete());
    assert_eq!(batch.in_flight(), 1);
    assert_eq!(batch.poll(), BatchAction::Start(23));
    assert_eq!(batch.poll(), BatchAction::Wait);
}

#[test]
fn batch_finishes_when_every_attempt_has_ended() {
    let mut batch = Batch::new(vec![80, 443], 5);
    assert_eq!(batch.poll(), BatchAction::Start(80));
    assert_eq!(batch.poll(), BatchAction::Start(443));
    assert_eq!(batch.poll(), BatchAction::Wait);
    assert!(batch.complete());
    assert_eq!(batch.poll(), BatchAction::Wait);
    assert!(batch.complete());
    assert_eq!(batch.poll(), BatchAction::Finished);
    assert_eq!(batch.poll(), BatchAction::Finished);
    assert_eq!(batch.in_flight(), 0);
}

#[test]
fn empty_batch_is_finished_at_once() {
    let mut batch = Batch::new(Vec::new(), 100);
    assert_eq!(batch.poll(), BatchAction::Finished);
}

#[test]
fn complete_without_a_running_attempt_changes_nothing() {
    let mut batch = Batch::new(vec![1], 1);
    assert!(!batch.complete());
    assert_eq!(batch.in_flight(), 0);
    assert_eq!(batch.poll(), BatchAction::Start(1));
    assert!(batch.complete());
    assert!(!batch.complete());
    assert_eq!(batch.poll(), BatchAction::Finished);
}

#[test]
fn in_flight_never_exceeds_the_limit() {
    for limit in [1usize, 3, 7, 100] {
        let ports: Vec<u16> = (1..=50).collect();
        let mut batch = Batch::new(ports.clone(), limit);
        let mut started: Vec<u16> = Vec::new();
        let mut ended = 0usize;
        let mut turn = 0usize;
        loop {
            assert!(batch.in_flight() <= limit);
            match batch.poll() {
                BatchAction::Start(port) => started.push(port),
                BatchAction::Wait => {
                    // let one or two attempts end, by turns
                    turn += 1;
                    assert!(batch.complete());
                    ended += 1;
                    if turn % 2 == 0 && batch.complete() {
                        ended += 1;
                    }
                }
                BatchAction::Finished => break,
            }
            assert!(batch.in_flight() <= limit);
            assert_eq!(batch.in_flight(), started.len() - ended);
        }
        assert_eq!(started, ports);
        assert_eq!(ended, ports.len());
    }
}

#[test]
fn limit_of_one_runs_the_attempts_one_by_one() {
    let mut batch = Batch::new(vec![7, 8], 1);
    assert_eq!(batch.poll(), BatchAction::Start(7));
    assert_eq!(batch.poll(), BatchAction::Wait);
    assert!(batch.complete());
    assert_eq!(batch.poll(), BatchAction::Start(8));
    assert_eq!(batch.poll(), BatchAction::Wait);
    assert!(batch.complete());
    assert_eq!(batch.poll(), BatchAction::Finished);
}
