use event_batcher::Batcher;
use event_batcher::Disposition;
use event_batcher::IngestDecision;
use event_batcher::SinkResult;
use event_batcher::contains_substring;
use event_batcher::ingest_decision;
use event_batcher::is_permanent_ch_error;
use event_batcher::resolve_flush;
use event_batcher::route_for_subject;
use event_batcher::str_eq;
use event_batcher::undeliverable_disposition;

#[test]
fn permanent_markers_are_recognized() {
    assert!(is_permanent_ch_error("CH insert failed 400 Bad Request: bad row"));
    assert!(is_permanent_ch_error("status 404: no such table"));
    assert!(is_permanent_ch_error("422 unprocessable"));
    assert!(is_permanent_ch_error("error 444"));
    assert!(is_permanent_ch_error("cannot parse input: expected field"));
    assert!(is_permanent_ch_error("x444y"));
}

#[test]
fn other_failures_are_transient() {
    assert!(!is_permanent_ch_error(""));
    assert!(!is_permanent_ch_error("connection refused"));
    assert!(!is_permanent_ch_error("timeout after 30s"));
    assert!(!is_permanent_ch_error("500 internal server error"));
    assert!(!is_permanent_ch_error("40 4"));
    assert!(!is_permanent_ch_error("status 503: unavailable"));
}

#[test]
fn substring_search_is_exact() {
    assert!(contains_substring("abc", ""));
    assert!(contains_substring("abc", "abc"));
    assert!(contains_substring("xabcy", "abc"));
    assert!(!contains_substring("ab", "abc"));
    assert!(!contains_substring("axbxc", "abc"));
    assert!(contains_substring("aaab", "aab"));
}

#[test]
fn failed_batch_gets_one_uniform_disposition_per_row() {
    let permanent = SinkResult::Failure { detail: "400 bad data".to_string() };
    let transient = SinkResult::Failure { detail: "connection reset by peer".to_string() };

    for (outcome, expected) in
        [(permanent, Disposition::Term), (transient, Disposition::Nak)]
    {
        let mut b: Batcher<u64> = Batcher::new(100, 1_000_000);
        let topic = "events.login";
        let route = route_for_subject(topic).unwrap();
        b.add(topic.to_string(), route.clone(), vec![1], 1);
        b.add(topic.to_string(), route, vec![2], 2);
        let job = b.flush_subject(topic).unwrap();
        let rs = resolve_flush(job, &outcome);
        assert_eq!(rs.len(), 2);
        for r in &rs {
            assert_eq!(r.disposition, expected);
        }
        assert_eq!(rs[0].handle, 1);
        assert_eq!(rs[1].handle, 2);
    }
}

#[test]
fn routing_table_is_complete_and_exact() {
    let cases = [
        ("events.login", "login_events", "dto.proto:LoginEvent"),
        ("events.sabte_ahval", "sabte_ahval_events", "dto.proto:SabteAhvalEvent"),
        ("events.angulak.like", "angulak_like_events", "dto.proto:AngulakLikeEvent"),
        ("events.angulak.watch", "angulak_watch_events", "dto.proto:AngulakWatchEvent"),
        ("events.session", "session_events", "dto.proto:SessionEvent"),
        ("events.angulak.comment", "angulak_comment_events", "dto.proto:AngulakCommentEvent"),
        ("events.shahrefarang.item", "shahrefarang_item_events", "dto.proto:ShahreFarangItemEvent"),
        (
            "events.shahrefarang.play_info",
            "shahrefarang_play_info_events",
            "dto.proto:ShahreFarangPlayInfoEvent",
        ),
        ("events.angulak.bookmark", "angulak_bookmark_events", "dto.proto:AngulakBookmarkEvent"),
    ];
    for (subject, table, schema) in cases {
        let r = route_for_subject(subject).expect("mapped subject");
        assert_eq!(r.table, table);
        assert_eq!(r.format_schema, schema);
    }
    assert!(route_for_subject("events.unknown").is_none());
    assert!(route_for_subject("").is_none());
    assert!(route_for_subject("events.loginx").is_none());
}

#[test]
fn unroutable_event_is_rejected_before_batching() {
    match ingest_decision("events.unknown") {
        IngestDecision::Reject { disposition } => assert_eq!(disposition, Disposition::Term),
        IngestDecision::Forward { .. } => panic!("unmapped topic must not be forwarded"),
    }
    match ingest_decision("events.login") {
        IngestDecision::Forward { route } => assert_eq!(route.table, "login_events"),
        IngestDecision::Reject { .. } => panic!("mapped topic must be forwarded"),
    }
}

#[test]
fn undeliverable_events_are_redelivered_later() {
    assert_eq!(undeliverable_disposition(), Disposition::Nak);
}

#[test]
fn string_equality_by_value() {
    assert!(str_eq("events.login", "events.login"));
    assert!(!str_eq("events.login", "events.logi"));
    assert!(!str_eq("", "a"));
    assert!(str_eq("", ""));
}
