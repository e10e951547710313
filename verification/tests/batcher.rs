use event_batcher::BatcherEvent;
use event_batcher::Batcher;
use event_batcher::Disposition;
use event_batcher::Route;
use event_batcher::SinkResult;
use event_batcher::resolve_flush;
use event_batcher::route_for_subject;

fn route(subject: &str) -> Route {
    route_for_subject(subject).expect("subject must be routable")
}

fn payload(n: usize) -> Vec<u8> {
    vec![7u8; n]
}

#[test]
fn row_threshold_triggers_one_flush_with_all_rows() {
    let mut b: Batcher<u64> = Batcher::new(3, 1_000_000);
    let topic = "events.login";
    assert!(b.on_inbound(topic.to_string(), route(topic), payload(1), 1).is_none());
    assert!(b.on_inbound(topic.to_string(), route(topic), payload(1), 2).is_none());
    let job = b
        .on_inbound(topic.to_string(), route(topic), payload(1), 3)
        .expect("third event must flush");
    assert_eq!(job.subject, topic);
    assert_eq!(job.rows.len(), 3);
    let handles: Vec<u64> = job.rows.iter().map(|r| r.handle).collect();
    assert_eq!(handles, vec![1, 2, 3]);
    // the fourth event starts a fresh batch rather than joining the flushed one
    assert!(b.on_inbound(topic.to_string(), route(topic), payload(1), 4).is_none());
    let fresh = b.flush_subject(topic).expect("fresh batch pending");
    assert_eq!(fresh.rows.len(), 1);
    assert_eq!(fresh.rows[0].handle, 4);
}

#[test]
fn byte_threshold_triggers_flush_below_row_limit() {
    let mut b: Batcher<u64> = Batcher::new(1_000_000, 10);
    let topic = "events.session";
    assert!(b.on_inbound(topic.to_string(), route(topic), payload(4), 1).is_none());
    assert!(b.on_inbound(topic.to_string(), route(topic), payload(4), 2).is_none());
    // cumulative payload reaches 12 >= 10: flush now, with only 3 rows
    let job = b
        .on_inbound(topic.to_string(), route(topic), payload(4), 3)
        .expect("byte threshold must flush");
    assert_eq!(job.rows.len(), 3);
    assert!(b.flush_subject(topic).is_none());
}

#[test]
fn timer_tick_flushes_single_event_under_unreachable_thresholds() {
    let mut b: Batcher<u64> = Batcher::new(usize::MAX, usize::MAX);
    let topic = "events.login";
    // one event, thresholds never reached: no eager flush
    assert!(b.on_inbound(topic.to_string(), route(topic), payload(1), 1).is_none());
    // the next timer tick flushes it anyway
    let (jobs, stop) = b.step(BatcherEvent::Tick);
    assert!(!stop);
    assert_eq!(jobs.len(), 1);
    assert_eq!(jobs[0].subject, topic);
    assert_eq!(jobs[0].rows.len(), 1);
    assert_eq!(jobs[0].rows[0].handle, 1);
    // nothing is left pending afterwards
    let (jobs, stop) = b.step(BatcherEvent::Tick);
    assert!(jobs.is_empty());
    assert!(!stop);
}

#[test]
fn timer_tick_drains_every_pending_topic() {
    let mut b: Batcher<u64> = Batcher::new(1_000_000, 1_000_000);
    let t1 = "events.login";
    let t2 = "events.session";
    b.add(t1.to_string(), route(t1), payload(1), 1);
    b.add(t1.to_string(), route(t1), payload(1), 2);
    b.add(t2.to_string(), route(t2), payload(1), 3);
    let (mut jobs, stop) = b.step(BatcherEvent::Tick);
    assert!(!stop);
    assert_eq!(jobs.len(), 2);
    jobs.sort_by(|x, y| x.subject.cmp(&y.subject));
    assert_eq!(jobs[0].subject, t1);
    assert_eq!(jobs[0].rows.len(), 2);
    assert_eq!(jobs[1].subject, t2);
    assert_eq!(jobs[1].rows.len(), 1);
    assert!(b.flush_subject(t1).is_none());
    assert!(b.flush_subject(t2).is_none());
}

#[test]
fn due_sweep_selects_only_threshold_batches() {
    let mut b: Batcher<u64> = Batcher::new(2, 1_000_000);
    let due_topic = "events.login";
    let idle_topic = "events.session";
    // bypass the eager check with add(): both topics stay pending
    b.add(due_topic.to_string(), route(due_topic), payload(1), 1);
    b.add(due_topic.to_string(), route(due_topic), payload(1), 2);
    b.add(idle_topic.to_string(), route(idle_topic), payload(1), 3);
    let jobs = b.flush_due();
    assert_eq!(jobs.len(), 1);
    assert_eq!(jobs[0].subject, due_topic);
    assert_eq!(jobs[0].rows.len(), 2);
    // the under-threshold topic is untouched by the size/volume sweep
    let pending = b.flush_subject(idle_topic).expect("idle topic still pending");
    assert_eq!(pending.rows.len(), 1);
    assert_eq!(pending.rows[0].handle, 3);
}

#[test]
fn topics_sharing_nothing_accumulate_independently() {
    let mut b: Batcher<u64> = Batcher::new(100, 1_000_000);
    let t1 = "events.angulak.like";
    let t2 = "events.angulak.watch";
    b.add(t1.to_string(), route(t1), payload(2), 1);
    b.add(t2.to_string(), route(t2), payload(2), 2);
    b.add(t1.to_string(), route(t1), payload(2), 3);
    let j1 = b.flush_subject(t1).expect("first topic pending");
    assert_eq!(j1.rows.len(), 2);
    // flushing one topic does not change the other's pending row count
    let j2 = b.flush_subject(t2).expect("second topic pending");
    assert_eq!(j2.rows.len(), 1);
    assert_eq!(j2.rows[0].handle, 2);
}

#[test]
fn shutdown_drains_every_pending_batch() {
    let mut b: Batcher<u64> = Batcher::new(1_000_000, 1_000_000);
    let topics = ["events.login", "events.session", "events.angulak.like"];
    let mut handle: u64 = 0;
    for (i, t) in topics.iter().enumerate() {
        for _ in 0..=i {
            handle += 1;
            b.add(t.to_string(), route(t), payload(1), handle);
        }
    }
    // six events over three topics are pending
    let (jobs, stop) = b.step(BatcherEvent::Shutdown);
    assert!(stop);
    assert_eq!(jobs.len(), 3);
    let mut handles: Vec<u64> = Vec::new();
    for job in jobs {
        assert!(!job.rows.is_empty());
        let rs = resolve_flush(job, &SinkResult::Success);
        for r in rs {
            assert_eq!(r.disposition, Disposition::Ack);
            handles.push(r.handle);
        }
    }
    handles.sort();
    // every event received exactly one disposition
    assert_eq!(handles, vec![1, 2, 3, 4, 5, 6]);
    let (jobs_after, stop_after) = b.step(BatcherEvent::Shutdown);
    assert!(jobs_after.is_empty());
    assert!(stop_after);
}

#[test]
fn channel_closure_drains_like_shutdown() {
    let mut b: Batcher<u64> = Batcher::new(1_000_000, 1_000_000);
    let topic = "events.login";
    b.add(topic.to_string(), route(topic), payload(1), 9);
    let (jobs, stop) = b.step(BatcherEvent::InputClosed);
    assert!(stop);
    assert_eq!(jobs.len(), 1);
    assert_eq!(jobs[0].rows[0].handle, 9);
}

#[test]
fn inbound_step_carries_at_most_one_job() {
    let mut b: Batcher<u64> = Batcher::new(2, 1_000_000);
    let topic = "events.login";
    let (jobs, stop) = b.step(BatcherEvent::Inbound {
        subject: topic.to_string(),
        route: route(topic),
        payload: payload(1),
        handle: 1,
    });
    assert!(jobs.is_empty());
    assert!(!stop);
    let (jobs, stop) = b.step(BatcherEvent::Inbound {
        subject: topic.to_string(),
        route: route(topic),
        payload: payload(1),
        handle: 2,
    });
    assert!(!stop);
    assert_eq!(jobs.len(), 1);
    assert_eq!(jobs[0].rows.len(), 2);
}

#[test]
fn flushing_empty_topic_is_a_no_op() {
    let mut b: Batcher<u64> = Batcher::new(3, 1_000_000);
    assert!(b.flush_subject("events.login").is_none());
    let (jobs, stop) = b.step(BatcherEvent::Tick);
    assert!(jobs.is_empty());
    assert!(!stop);
    let (jobs, stop) = b.step(BatcherEvent::Shutdown);
    assert!(jobs.is_empty());
    assert!(stop);
}

#[test]
fn resolution_order_and_count_match_rows() {
    let mut b: Batcher<u64> = Batcher::new(3, 1_000_000);
    let topic = "events.session";
    b.add(topic.to_string(), route(topic), vec![1], 10);
    b.add(topic.to_string(), route(topic), vec![2, 3], 20);
    let job = b.flush_subject(topic).expect("pending batch");
    let rs = resolve_flush(job, &SinkResult::Success);
    assert_eq!(rs.len(), 2);
    assert_eq!(rs[0].handle, 10);
    assert_eq!(rs[1].handle, 20);
}
