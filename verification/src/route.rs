//! Routing of queue topics to destination tables.
//!
//! A route is derived purely from the topic string; a topic with no mapping
//! is unroutable, which the caller resolves by terminally rejecting the
//! event (redelivery cannot fix a missing route).

use vstd::prelude::*;
use vstd::string::StrSliceExecFns;
use vstd::string::StringExecFns;

verus! {

/// The destination of one topic: a table and the row-schema identifier the
/// sink uses to decode the rows.
#[derive(Clone, Debug)]
pub struct Route {
    pub table: String,
    pub format_schema: String,
}

/// What `route_for_subject` returns, at the specification level: the views
/// of the table name and schema identifier, or `None` for an unmapped topic.
pub open spec fn spec_route(s: Seq<char>) -> Option<(Seq<char>, Seq<char>)> {
    if s == "events.login"@ {
        Some(("login_events"@, "dto.proto:LoginEvent"@))
    } else if s == "events.sabte_ahval"@ {
        Some(("sabte_ahval_events"@, "dto.proto:SabteAhvalEvent"@))
    } else if s == "events.angulak.like"@ {
        Some(("angulak_like_events"@, "dto.proto:AngulakLikeEvent"@))
    } else if s == "events.angulak.watch"@ {
        Some(("angulak_watch_events"@, "dto.proto:AngulakWatchEvent"@))
    } else if s == "events.session"@ {
        Some(("session_events"@, "dto.proto:SessionEvent"@))
    } else if s == "events.angulak.comment"@ {
        Some(("angulak_comment_events"@, "dto.proto:AngulakCommentEvent"@))
    } else if s == "events.shahrefarang.item"@ {
        Some(("shahrefarang_item_events"@, "dto.proto:ShahreFarangItemEvent"@))
    } else if s == "events.shahrefarang.play_info"@ {
        Some(("shahrefarang_play_info_events"@, "dto.proto:ShahreFarangPlayInfoEvent"@))
    } else if s == "events.angulak.bookmark"@ {
        Some(("angulak_bookmark_events"@, "dto.proto:AngulakBookmarkEvent"@))
    } else {
        None
    }
}

/// String equality by value, usable where only `&str` slices are at hand.
pub fn str_eq(a: &str, b: &str) -> (r: bool)
    ensures
        r == (a@ == b@),
{
    let alen = a.unicode_len();
    let blen = b.unicode_len();
    if alen != blen {
        return false;
    }
    let mut i: usize = 0;
    while i < alen
        invariant
            alen == a@.len(),
            alen == b@.len(),
            0 <= i <= alen,
            forall|j: int| 0 <= j < i ==> a@[j] == b@[j],
        decreases alen - i,
    {
        if a.get_char(i) != b.get_char(i) {
            return false;
        }
        i += 1;
    }
    assert(a@ =~= b@);
    true
}

fn make_route(table: &str, format_schema: &str) -> (r: Route)
    ensures
        r.table@ == table@,
        r.format_schema@ == format_schema@,
{
    Route { table: String::from_str(table), format_schema: String::from_str(format_schema) }
}

/// Maps a topic to its destination, or `None` when the topic is unroutable.
/// Total, deterministic and side-effect-free.
pub fn route_for_subject(subject: &str) -> (r: Option<Route>)
    ensures
        match r {
            Some(route) => spec_route(subject@) == Some((route.table@, route.format_schema@)),
            None => spec_route(subject@) is None,
        },
{
    if str_eq(subject, "events.login") {
        Some(make_route("login_events", "dto.proto:LoginEvent"))
    } else if str_eq(subject, "events.sabte_ahval") {
        Some(make_route("sabte_ahval_events", "dto.proto:SabteAhvalEvent"))
    } else if str_eq(subject, "events.angulak.like") {
        Some(make_route("angulak_like_events", "dto.proto:AngulakLikeEvent"))
    } else if str_eq(subject, "events.angulak.watch") {
        Some(make_route("angulak_watch_events", "dto.proto:AngulakWatchEvent"))
    } else if str_eq(subject, "events.session") {
        Some(make_route("session_events", "dto.proto:SessionEvent"))
    } else if str_eq(subject, "events.angulak.comment") {
        Some(make_route("angulak_comment_events", "dto.proto:AngulakCommentEvent"))
    } else if str_eq(subject, "events.shahrefarang.item") {
        Some(make_route("shahrefarang_item_events", "dto.proto:ShahreFarangItemEvent"))
    } else if str_eq(subject, "events.shahrefarang.play_info") {
        Some(make_route("shahrefarang_play_info_events", "dto.proto:ShahreFarangPlayInfoEvent"))
    } else if str_eq(subject, "events.angulak.bookmark") {
        Some(make_route("angulak_bookmark_events", "dto.proto:AngulakBookmarkEvent"))
    } else {
        None
    }
}

} // verus!
