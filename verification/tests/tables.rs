use std::cell::RefCell;
use tokio_kcp::fec::TYPE_DATA;
use tokio_kcp::listener::{assign_conv, inspect, route, settle, Admission, Route};
use tokio_kcp::scheduler::{
    apply_command, default_scheduler_parallel, drain_step, process_tasks, shard_index,
    worker_count, worker_done, Received, ScheduledTask, ShardCommand,
};
use tokio_kcp::session::fresh_conv;
use tokio_kcp::KcpSessionManager;

fn packet(conv: u32, sn: u32) -> Vec<u8> {
    let mut packet = vec![0u8; 24];
    packet[..4].copy_from_slice(&conv.to_le_bytes());
    packet[12..16].copy_from_slice(&sn.to_le_bytes());
    packet
}

fn in_data_packet(payload: &[u8]) -> Vec<u8> {
    let mut packet = vec![0, 0, 0, 0];
    packet.extend(TYPE_DATA.to_le_bytes());
    packet.extend((payload.len() as u16 + 2).to_le_bytes());
    packet.extend(payload);
    packet
}

fn tasks(all: &[(u32, u64)]) -> Vec<ScheduledTask<u32>> {
    all.iter()
        .map(|(session, deadline_ms)| ScheduledTask { session: *session, deadline_ms: *deadline_ms })
        .collect()
}

fn sorted(tasks: &[ScheduledTask<u32>]) -> Vec<(u32, u64)> {
    let mut all: Vec<(u32, u64)> = tasks.iter().map(|task| (task.session, task.deadline_ms)).collect();
    all.sort();
    all
}

#[test]
fn runs_due_tasks_without_running_future_tasks() {
    let polled = RefCell::new(Vec::new());
    let mut all = tasks(&[(1, 100), (2, 101), (3, 99), (4, 50), (5, 1000)]);
    process_tasks(&mut all, 100, &|session: &u32, now: u64| {
        polled.borrow_mut().push(*session);
        if *session == 3 {
            None
        } else {
            Some(now + 10)
        }
    });
    let mut seen = polled.into_inner();
    seen.sort();
    assert_eq!(seen, vec![1, 3, 4]);
    assert_eq!(sorted(&all), vec![(1, 110), (2, 101), (4, 110), (5, 1000)]);
}

#[test]
fn does_not_poll_future_task_before_due_slot() {
    let polled = RefCell::new(0);
    let mut all = tasks(&[(1, 200)]);
    for now in [0, 10, 20, 30, 40, 50, 60, 199] {
        process_tasks(&mut all, now, &|_: &u32, _: u64| {
            *polled.borrow_mut() += 1;
            None
        });
    }
    assert_eq!(polled.into_inner(), 0);
    assert_eq!(sorted(&all), vec![(1, 200)]);
}

#[test]
fn all_tasks_can_end_in_one_round() {
    let mut all = tasks(&[(1, 0), (2, 0), (3, 0)]);
    process_tasks(&mut all, 5, &|_: &u32, _: u64| None);
    assert!(all.is_empty());
}

#[test]
fn task_is_looked_at_once_in_a_round() {
    let mut all = tasks(&[(1, 0)]);
    process_tasks(&mut all, 5, &|_: &u32, now: u64| Some(now));
    assert_eq!(sorted(&all), vec![(1, 5)]);
}

#[test]
fn workers() {
    assert_eq!(default_scheduler_parallel(None), 2);
    assert_eq!(default_scheduler_parallel(Some(1)), 2);
    assert_eq!(default_scheduler_parallel(Some(3)), 3);
    assert_eq!(default_scheduler_parallel(Some(64)), 4);
    assert_eq!(worker_count(0), 1);
    assert_eq!(worker_count(3), 3);
    assert_eq!(shard_index(7, 3), 1);
    assert_eq!(shard_index(usize::MAX, 2), 1);
    assert!(worker_done(true, 0));
    assert!(!worker_done(true, 1));
    assert!(!worker_done(false, 0));
}

#[test]
fn commands_are_drained() {
    let mut all: Vec<ScheduledTask<u32>> = Vec::new();
    apply_command(&mut all, ShardCommand::Put(ScheduledTask { session: 1, deadline_ms: 5 }));
    let put = ShardCommand::Put(ScheduledTask { session: 2, deadline_ms: 6 });
    assert_eq!(drain_step(&mut all, Received::Command(put)), None);
    assert_eq!(drain_step(&mut all, Received::Empty), Some(false));
    assert_eq!(drain_step(&mut all, Received::Disconnected), Some(true));
    assert_eq!(sorted(&all), vec![(1, 5), (2, 6)]);
}

#[test]
fn packets_are_routed() {
    assert_eq!(inspect(&packet(7, 9), false), Route::Segment { conv: 7, sn: 9 });
    assert_eq!(inspect(&packet(7, 9)[..23], false), Route::TooShort);
    assert_eq!(inspect(&[0, 0, 0, 0, 0xf2, 0], true), Route::Parity);
    assert_eq!(inspect(&[0, 0, 0, 0, 0xf2, 0], false), Route::TooShort);
    let data = in_data_packet(&packet(8, 3));
    assert_eq!(inspect(&data, true), Route::Segment { conv: 8, sn: 3 });
    assert_eq!(inspect(&data, false), Route::Segment { conv: 0, sn: 0 });
    assert_eq!(inspect(&in_data_packet(&[1; 23]), true), Route::TooShort);
}

#[test]
fn fresh_number_is_written_into_the_packet() {
    for fec in [false, true] {
        let mut bytes = packet(0, 4);
        if fec {
            bytes = in_data_packet(&bytes);
        }
        let before = bytes.clone();
        match route(&mut bytes, fec) {
            Route::Segment { conv, sn } => {
                assert_ne!(conv, 0);
                assert_eq!(sn, 4);
                assert_eq!(inspect(&bytes, fec), Route::Segment { conv, sn: 4 });
            }
            other => panic!("unexpected route {:?}", other),
        }
        assert_eq!(bytes.len(), before.len());
        assign_conv(&mut bytes, fec, 0);
        assert_eq!(bytes, before);
    }
    let mut bytes = packet(5, 4);
    assert_eq!(route(&mut bytes, false), Route::Segment { conv: 5, sn: 4 });
    assert_eq!(bytes, packet(5, 4));
}

#[test]
fn fresh_numbers_are_not_zero() {
    let mut manager: KcpSessionManager<u32> = KcpSessionManager::new();
    let numbers: Vec<u32> = (0..50).map(|_| manager.alloc_conv()).collect();
    assert!(numbers.iter().all(|conv| *conv != 0));
    assert!(numbers.iter().any(|conv| *conv != numbers[0]));
    assert_ne!(fresh_conv(), 0);
}

/// In these tests a session is its conversation number.
fn look_up(manager: &mut KcpSessionManager<u32>, peer: u64, conv: u32, sn: u32) -> (bool, Option<u32>) {
    manager.get_or_create(peer, conv, sn, &|session: &u32| *session, || Ok::<u32, ()>(conv)).unwrap()
}

#[test]
fn sessions_are_found_made_and_replaced() {
    let mut manager: KcpSessionManager<u32> = KcpSessionManager::new();
    assert_eq!(manager.get(1), None);
    assert_eq!(look_up(&mut manager, 1, 100, 8), (true, None));
    assert_eq!(look_up(&mut manager, 2, 200, 0), (true, None));
    assert_eq!(look_up(&mut manager, 1, 100, 0), (false, None));
    assert_eq!(look_up(&mut manager, 1, 101, 3), (false, None));
    assert_eq!(manager.get(1), Some(&100));
    assert_eq!(look_up(&mut manager, 1, 101, 0), (true, Some(100)));
    assert_eq!(manager.get(1), Some(&101));
    assert_eq!(manager.get(2), Some(&200));
    assert_eq!(manager.close_peer(1), Some(101));
    assert_eq!(manager.close_peer(1), None);
    assert_eq!(manager.get(1), None);
    assert_eq!(manager.get(2), Some(&200));
}

#[test]
fn failure_to_make_a_session_changes_nothing() {
    let mut manager: KcpSessionManager<u32> = KcpSessionManager::new();
    look_up(&mut manager, 1, 100, 0);
    let res = manager.get_or_create(1, 101, 0, &|session: &u32| *session, || Err::<u32, &str>("no"));
    assert_eq!(res, Err("no"));
    assert_eq!(manager.get(1), Some(&100));
    let res = manager.get_or_create(3, 101, 0, &|session: &u32| *session, || Err::<u32, &str>("no"));
    assert_eq!(res, Err("no"));
    assert_eq!(manager.get(3), None);
}

#[test]
fn packets_are_settled() {
    let mut manager: KcpSessionManager<u32> = KcpSessionManager::new();
    let own = |session: &u32| *session;
    let make = |conv: u32| move || Ok::<u32, ()>(conv);
    let new = settle(&mut manager, 1, 100, 0, &own, make(100), |_: &u32| true).unwrap();
    assert!(matches!(new, Admission::Deliver(None)));
    let more = settle(&mut manager, 1, 100, 1, &own, make(100), |_: &u32| false).unwrap();
    assert!(matches!(more, Admission::Deliver(None)));
    let foreign = settle(&mut manager, 1, 101, 1, &own, make(101), |_: &u32| true).unwrap();
    assert!(matches!(foreign, Admission::Foreign));
    let replaced = settle(&mut manager, 1, 101, 0, &own, make(101), |_: &u32| true).unwrap();
    assert!(matches!(replaced, Admission::Deliver(Some(100))));
    let refused = settle(&mut manager, 1, 102, 0, &own, make(102), |_: &u32| false).unwrap();
    assert!(matches!(refused, Admission::Refused(Some(102), Some(101))));
    assert_eq!(manager.get(1), None);
    let failed = settle(&mut manager, 1, 5, 0, &own, || Err::<u32, u8>(3), |_: &u32| true);
    assert!(matches!(failed, Err(3)));
}
