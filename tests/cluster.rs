use raft_sim::cluster::{
    cluster_ids, parse_arguments, peer_ids, pick_leader, plan_cluster, terminate, SignalPoll,
    Signals,
};
use std::sync::mpsc::{self, TryRecvError};
use std::sync::{Arc, Mutex};

fn args(a: &str) -> Vec<String> {
    vec!["sim".to_string(), a.to_string()]
}

#[test]
fn command_line_parsing() {
    assert_eq!(parse_arguments(&args("-1")), 1);
    assert_eq!(parse_arguments(&args("0")), 1);
    assert_eq!(parse_arguments(&args("1")), 1);
}

#[test]
fn parsing_other_inputs() {
    assert_eq!(parse_arguments(&args("3")), 3);
    assert_eq!(parse_arguments(&args("+7")), 7);
    assert_eq!(parse_arguments(&args("abc")), 1);
    assert_eq!(parse_arguments(&args("")), 1);
    assert_eq!(parse_arguments(&args("18446744073709551615")), u64::MAX);
    assert_eq!(parse_arguments(&args("18446744073709551616")), 1);
}

fn poll(receiver: &Arc<Mutex<mpsc::Receiver<Signals>>>) -> SignalPoll {
    match receiver.lock().unwrap().try_recv() {
        Ok(s) => SignalPoll::Received(s),
        Err(TryRecvError::Empty) => SignalPoll::Empty,
        Err(TryRecvError::Disconnected) => SignalPoll::Disconnected,
    }
}

#[test]
fn terminate_thread() {
    let (sender_stop, recv_stop) = mpsc::channel();
    let recv_stop = Arc::new(Mutex::new(recv_stop));
    sender_stop.send(Signals::Terminate).unwrap();

    assert_eq!(terminate(poll(&recv_stop)), true);
    assert_eq!(terminate(poll(&recv_stop)), false);
    drop(sender_stop);
    assert_eq!(terminate(poll(&recv_stop)), true);
}

#[test]
fn leader_in_range() {
    for _ in 0..50 {
        let l = pick_leader(3);
        assert!((1..=3).contains(&l));
    }
    assert_eq!(pick_leader(1), 1);
}

#[test]
fn ids_and_peers() {
    assert_eq!(cluster_ids(4), vec![1, 2, 3, 4]);
    assert!(cluster_ids(0).is_empty());
    assert_eq!(peer_ids(2, &vec![1, 2, 3]), vec![1, 3]);
    assert_eq!(peer_ids(9, &vec![1, 2]), vec![1, 2]);
}

#[test]
fn three_node_cluster() {
    let n = parse_arguments(&args("3"));
    assert_eq!(n, 3);
    let leader = pick_leader(n);
    let plan = plan_cluster(n, leader);
    assert_eq!(plan.len(), 3);
    assert_eq!(plan.iter().filter(|s| s.is_leader).count(), 1);
    for (i, s) in plan.iter().enumerate() {
        let id = i as u64 + 1;
        assert_eq!(s.id, id);
        assert_eq!(s.is_leader, id == leader);
        let expected: Vec<u64> = (1..=3).filter(|&p| p != id).collect();
        assert_eq!(s.peers, expected);
    }
}
