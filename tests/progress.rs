use divvy::{retain_delivered, send_or_remove, Progress, ProgressTx, Switch, Topic};
use std::borrow::Cow;

fn report(pct: u8, msg: &'static str) -> Progress {
    Progress { msg: Cow::Borrowed(msg), pct }
}

#[test]
fn every_subscriber_receives_the_broadcast() {
    let mut topic: Topic<String> = Topic::new();
    let subs: Vec<_> = (0..5).map(|_| topic.subscribe()).collect();
    let delivered = topic.broadcast("m".to_string());
    assert_eq!(delivered, vec![true; 5]);
    for rx in &subs {
        assert_eq!(rx.try_recv().unwrap(), "m");
        assert!(rx.try_recv().is_err());
    }
}

#[test]
fn dropped_subscriber_is_pruned_on_next_broadcast() {
    let mut topic: Topic<u32> = Topic::new();
    let a = topic.subscribe();
    let b = topic.subscribe();
    let c = topic.subscribe();
    drop(b);
    assert_eq!(topic.subscriber_count(), 3);
    let delivered = topic.broadcast(7);
    assert_eq!(delivered, vec![true, false, true]);
    assert_eq!(topic.subscriber_count(), 2);
    assert_eq!(a.try_recv(), Ok(7));
    assert_eq!(c.try_recv(), Ok(7));
    // the removed slot is not tried again
    assert_eq!(topic.broadcast(8), vec![true, true]);
    assert_eq!(c.try_recv(), Ok(8));
}

#[test]
fn last_subscriber_dropped_is_pruned() {
    let mut topic: Topic<u32> = Topic::new();
    let a = topic.subscribe();
    let b = topic.subscribe();
    drop(b);
    assert_eq!(topic.broadcast(1), vec![true, false]);
    assert_eq!(topic.subscriber_count(), 1);
    assert_eq!(a.try_recv(), Ok(1));
}

#[test]
fn broadcast_without_subscribers_is_dropped() {
    let topic: Topic<u32> = Topic::new();
    assert_eq!(topic.broadcast(1), Vec::<bool>::new());
    assert_eq!(topic.subscriber_count(), 0);
    let mut late = topic.clone();
    let rx = late.subscribe();
    assert!(rx.try_recv().is_err());
    assert_eq!(topic.subscriber_count(), 1);
}

#[test]
fn broadcasts_arrive_in_order() {
    let mut topic: Topic<u32> = Topic::default();
    let a = topic.subscribe();
    let b = topic.subscribe();
    for i in 0..10 {
        topic.broadcast(i);
    }
    let got_a: Vec<u32> = a.try_iter().collect();
    let got_b: Vec<u32> = b.try_iter().collect();
    assert_eq!(got_a, (0..10).collect::<Vec<_>>());
    assert_eq!(got_b, (0..10).collect::<Vec<_>>());
}

#[test]
fn send_or_remove_on_plain_list() {
    let (t1, r1) = crossbeam_channel::unbounded::<u8>();
    let (t2, r2) = crossbeam_channel::unbounded::<u8>();
    let (t3, r3) = crossbeam_channel::unbounded::<u8>();
    drop(r1);
    let mut subs = vec![t1, t2, t3];
    let delivered = send_or_remove(&mut subs, 9);
    assert_eq!(delivered, vec![false, true, true]);
    assert_eq!(subs.len(), 2);
    drop(r3);
    let delivered = send_or_remove(&mut subs, 10);
    assert_eq!(delivered, vec![true, false]);
    assert_eq!(subs.len(), 1);
    assert_eq!(r2.try_iter().collect::<Vec<_>>(), vec![9, 10]);

    let mut none: Vec<crossbeam_channel::Sender<u8>> = Vec::new();
    assert!(send_or_remove(&mut none, 1).is_empty());
    assert!(none.is_empty());
}

#[test]
fn retain_delivered_keeps_marked_in_order() {
    let mut v = vec![1, 2, 3, 4, 5];
    retain_delivered(&mut v, &vec![true, false, false, true, false]);
    assert_eq!(v, vec![1, 4]);
    let mut w = vec!['a', 'b'];
    retain_delivered(&mut w, &vec![false, false]);
    assert!(w.is_empty());
    let mut e: Vec<u8> = Vec::new();
    retain_delivered(&mut e, &Vec::new());
    assert!(e.is_empty());
}

#[test]
fn progress_rendering() {
    assert_eq!(report(50, "").to_string(), " 50%");
    assert_eq!(report(7, "loading").to_string(), "  7% - loading");
    assert_eq!(report(100, "done").to_string(), "100% - done");
    assert_eq!(report(0, "").to_string(), "  0%");
    assert_eq!(report(255, "over").to_string(), "255% - over");
    let owned = Progress { msg: Cow::Owned("x".to_string()), pct: 10 };
    assert_eq!(owned.to_string(), " 10% - x");
}

#[test]
fn progress_equality_is_structural() {
    let a = report(3, "m");
    let b = Progress { msg: Cow::Owned("m".to_string()), pct: 3 };
    assert!(a == b);
    assert!(a != report(4, "m"));
    assert!(a != report(3, "n"));
    assert!(a.clone() == a);
}

#[test]
fn dummy_transmitter_is_inert() {
    let dummy = ProgressTx::dummy();
    assert!(!dummy.cancelled());
    dummy.send(None, "A message with no percent");
    dummy.send(50, "A message with 50%");
    dummy.send(Some(200), String::from("owned"));
    dummy.send_report(report(1, "r"));
    assert!(!dummy.clone().cancelled());
}

#[test]
fn transmitter_sends_reports_through_its_publisher() {
    let (tx, rx) = crossbeam_channel::unbounded();
    let cancel = Switch::off();
    let ptx = ProgressTx::new(tx, cancel.clone());
    ptx.send(None, "start");
    ptx.send(40, "middle");
    assert_eq!(rx.try_recv().unwrap(), report(0, "start"));
    assert_eq!(rx.try_recv().unwrap(), report(40, "middle"));
    assert!(!ptx.cancelled());
    cancel.flip_on();
    assert!(ptx.cancelled());
    drop(rx);
    ptx.send(1, "nobody listens");
}

#[test]
fn switch_flip_is_seen_by_every_clone() {
    let s = Switch::off();
    let before = s.clone();
    assert!(!s.get());
    assert!(!before.get());
    before.flip_on();
    let after = s.clone();
    assert!(s.get());
    assert!(before.get());
    assert!(after.get());
    s.flip_on();
    assert!(s.get());
}
