use slackshot::conversations::{Channel, HistoryResponse, Message, MessageExport, ResponseMetadata};
use slackshot::export::{assemble, next_unresolved, render_transcript};
use slackshot::names::{NameCache, NameOption};
use slackshot::ordering::{sort_by_timestamp, str_lt};
use slackshot::paginator::{PageState, Paginator, UNKNOWN_API_ERROR};
use slackshot::reconcile::{needs_thread, reconcile};
use slackshot::timestamp::{epoch_seconds, format_timestamp, rendered_or_invalid};
use slackshot::user::{display_name, InfoResponse, Profile, User};

fn msg(user: Option<&str>, ts: &str, text: &str, reply_count: Option<i64>) -> Message {
    Message {
        user: user.map(|u| u.to_string()),
        ts: ts.to_string(),
        text: text.to_string(),
        reply_count,
    }
}

fn page(messages: Vec<Message>, cursor: Option<&str>) -> HistoryResponse {
    HistoryResponse {
        ok: true,
        error: None,
        messages: Some(messages),
        has_more: None,
        pin_count: None,
        response_metadata: cursor.map(|c| ResponseMetadata { next_cursor: c.to_string() }),
    }
}

fn channel(name: &str) -> Channel {
    Channel {
        id: "C1".to_string(),
        name: name.to_string(),
        is_channel: true,
        is_group: false,
        is_im: false,
        is_private: false,
        created: 1600000000,
        is_archived: false,
        num_members: 3,
    }
}

fn export(ts: &str) -> MessageExport {
    MessageExport { message: msg(Some("U1"), ts, "x", None), replies: Vec::new() }
}

#[test]
fn two_pages_of_general_give_three_messages() {
    let mut pager = Paginator::new();
    let mut pages = vec![
        page(vec![msg(Some("U1"), "1700000003.000000", "c", None), msg(Some("U2"), "1700000002.000000", "b", None)], Some("abc")),
        page(vec![msg(Some("U1"), "1700000001.000000", "a", None)], Some("")),
    ]
    .into_iter();
    let mut requests: Vec<Option<String>> = Vec::new();
    while let Some(cursor) = pager.next_request() {
        requests.push(cursor);
        let p = pages.next().expect("no request after the last page");
        pager.accept_page(p).unwrap();
    }
    assert_eq!(requests, vec![None, Some("abc".to_string())]);
    assert!(pages.next().is_none());
    let messages = pager.into_messages();
    assert_eq!(messages.len(), 3);
    assert_eq!(messages[0].ts, "1700000003.000000");
    assert_eq!(messages[2].ts, "1700000001.000000");
}

#[test]
fn page_without_metadata_ends_paging() {
    let mut pager = Paginator::new();
    pager.accept_page(page(vec![msg(None, "1.0", "a", None)], None)).unwrap();
    assert!(matches!(pager.state, PageState::Done));
    assert!(pager.next_request().is_none());
    assert_eq!(pager.messages.len(), 1);
}

#[test]
fn page_without_messages_adds_nothing() {
    let mut pager = Paginator::new();
    let mut p = page(Vec::new(), Some("next"));
    p.messages = None;
    pager.accept_page(p).unwrap();
    assert_eq!(pager.messages.len(), 0);
    assert_eq!(pager.next_request(), Some(Some("next".to_string())));
}

#[test]
fn failed_history_page_reports_its_error() {
    let mut pager = Paginator::new();
    let mut p = page(Vec::new(), None);
    p.ok = false;
    p.error = Some("invalid_auth".to_string());
    p.messages = None;
    let err = pager.accept_page(p).unwrap_err();
    assert!(err.contains("invalid_auth"));
    assert!(matches!(pager.state, PageState::Fetching(None)));
    assert!(pager.messages.is_empty());
}

#[test]
fn failed_page_without_error_text() {
    let mut pager = Paginator::new();
    let mut p = page(Vec::new(), None);
    p.ok = false;
    assert_eq!(pager.accept_page(p).unwrap_err(), UNKNOWN_API_ERROR);
}

#[test]
fn thread_root_drops_duplicated_root() {
    let root = msg(Some("U1"), "100.000001", "root", Some(2));
    assert!(needs_thread(&root));
    let thread = vec![
        msg(Some("U1"), "100.000001", "root", Some(2)),
        msg(Some("U2"), "100.000002", "replyA", None),
        msg(Some("U3"), "100.000003", "replyB", None),
    ];
    let e = reconcile(root, Some(thread)).unwrap();
    assert_eq!(e.message.text, "root");
    let texts: Vec<&str> = e.replies.iter().map(|r| r.text.as_str()).collect();
    assert_eq!(texts, vec!["replyA", "replyB"]);
    assert!(e.replies.iter().all(|r| r.ts != e.message.ts));
}

#[test]
fn message_without_reply_count_gets_no_replies() {
    let m = msg(Some("U1"), "5.0", "plain", None);
    assert!(!needs_thread(&m));
    let e = reconcile(m, None).unwrap();
    assert!(e.replies.is_empty());
    assert_eq!(e.message.text, "plain");
}

#[test]
fn reply_count_zero_still_is_thread_root() {
    assert!(needs_thread(&msg(None, "5.0", "t", Some(0))));
}

#[test]
fn empty_thread_drops_record() {
    let root = msg(Some("U1"), "5.0", "root", Some(1));
    assert!(reconcile(root.clone(), Some(Vec::new())).is_none());
    assert!(reconcile(root, None).is_none());
}

#[test]
fn records_sorted_oldest_first() {
    let sorted = sort_by_timestamp(vec![export("1700000003.000000"), export("1700000001.000000"), export("1700000002.000000")]);
    let ts: Vec<&str> = sorted.iter().map(|e| e.message.ts.as_str()).collect();
    assert_eq!(ts, vec!["1700000001.000000", "1700000002.000000", "1700000003.000000"]);
    for w in sorted.windows(2) {
        assert!(w[0].message.ts < w[1].message.ts);
    }
}

#[test]
fn sort_of_empty_list() {
    assert!(sort_by_timestamp(Vec::new()).is_empty());
}

#[test]
fn assemble_keeps_metadata_and_sorts() {
    let ce = assemble(channel("general"), vec![export("2.0"), export("1.0")]);
    assert_eq!(ce.metadata.name, "general");
    assert_eq!(ce.messages[0].message.ts, "1.0");
    assert_eq!(ce.messages[1].message.ts, "2.0");
}

#[test]
fn string_order_is_lexicographic() {
    assert!(str_lt("1.0", "2.0"));
    assert!(str_lt("abc", "abd"));
    assert!(str_lt("ab", "abc"));
    assert!(!str_lt("abc", "abc"));
    assert!(!str_lt("b", "abc"));
    assert!(!str_lt("", ""));
}

#[test]
fn timestamp_renders_in_pacific_time() {
    assert_eq!(format_timestamp("1700000000.000100"), "2023-11-14 02:13 PM");
}

#[test]
fn timestamp_in_summer_time() {
    // 2023-07-01 00:00:00 UTC is 17:00 PDT the day before.
    assert_eq!(format_timestamp("1688169600"), "2023-06-30 05:00 PM");
}

#[test]
fn unparseable_timestamp_is_invalid() {
    assert_eq!(format_timestamp("abc"), "Invalid timestamp");
    assert_eq!(format_timestamp(""), "Invalid timestamp");
    assert_eq!(format_timestamp(".5"), "Invalid timestamp");
    assert_eq!(format_timestamp("12.3.4"), "Invalid timestamp");
    assert_eq!(format_timestamp("99999999999999999999"), "Invalid timestamp");
}

#[test]
fn out_of_range_instant_is_invalid() {
    assert_eq!(format_timestamp("9223372036854775807"), "Invalid timestamp");
}

#[test]
fn epoch_seconds_truncates_fraction() {
    assert_eq!(epoch_seconds("1700000000.999999"), Some(1700000000));
    assert_eq!(epoch_seconds("42"), Some(42));
    assert_eq!(epoch_seconds("42."), Some(42));
    assert_eq!(epoch_seconds("4a"), None);
    assert_eq!(epoch_seconds("9223372036854775807"), Some(i64::MAX));
    assert_eq!(epoch_seconds("9223372036854775808"), None);
}

#[test]
fn rendered_time_or_invalid() {
    assert_eq!(rendered_or_invalid(Some("x".to_string())), "x");
    assert_eq!(rendered_or_invalid(None), "Invalid timestamp");
}

fn info(display: &str, real: &str) -> InfoResponse {
    InfoResponse {
        ok: true,
        user: Some(User {
            profile: Profile {
                real_name_normalized: real.to_string(),
                display_name_normalized: display.to_string(),
            },
        }),
    }
}

#[test]
fn display_name_preferred() {
    assert_eq!(display_name(info("dee", "Dee Real")), "dee");
}

#[test]
fn real_name_when_display_name_empty() {
    assert_eq!(display_name(info("", "Dee Real")), "Dee Real");
}

#[test]
fn unknown_user_named_unknown() {
    assert_eq!(display_name(InfoResponse { ok: true, user: None }), "UNKNOWN");
}

#[test]
fn name_cache_memoizes_first_name() {
    let mut cache = NameCache::new();
    let id = "U1".to_string();
    assert!(cache.get(&id).is_none());
    cache.insert(id.clone(), "dee".to_string());
    assert_eq!(cache.get(&id), Some("dee".to_string()));
    cache.insert(id.clone(), "other".to_string());
    assert_eq!(cache.get(&id), Some("dee".to_string()));
    assert!(cache.get(&"U2".to_string()).is_none());
}

#[test]
fn each_author_fetched_once() {
    let exports = vec![
        MessageExport {
            message: msg(Some("U1"), "1.0", "a", Some(2)),
            replies: vec![msg(Some("U2"), "1.1", "b", None), msg(Some("U1"), "1.2", "c", None)],
        },
        MessageExport { message: msg(Some("U1"), "2.0", "d", None), replies: Vec::new() },
        MessageExport { message: msg(None, "3.0", "bot", None), replies: Vec::new() },
    ];
    let mut cache = NameCache::new();
    let mut fetched: Vec<String> = Vec::new();
    while let Some(id) = next_unresolved(&exports, NameOption::DisplayName, &cache) {
        fetched.push(id.clone());
        let name = format!("name-{id}");
        cache.insert(id, name);
    }
    assert_eq!(fetched, vec!["U1".to_string(), "U2".to_string()]);
    assert!(next_unresolved(&exports, NameOption::UserId, &NameCache::new()).is_none());
}

#[test]
fn transcript_with_raw_ids() {
    let exports = vec![
        MessageExport {
            message: msg(Some("U1"), "1700000000.000100", "hello", Some(1)),
            replies: vec![msg(Some("U2"), "1700000060.000000", "hi", None)],
        },
        MessageExport { message: msg(None, "oops", "bot", None), replies: Vec::new() },
    ];
    let text = render_transcript(&exports, NameOption::UserId, &NameCache::new());
    assert_eq!(
        text,
        "U1 - 2023-11-14 02:13 PM\nhello\n\n    U2 - 2023-11-14 02:14 PM\n    hi\n\nUNKNOWN - Invalid timestamp\nbot\n\n"
    );
}

#[test]
fn transcript_with_display_names() {
    let exports = vec![MessageExport {
        message: msg(Some("U1"), "1700000000", "hello", Some(1)),
        replies: vec![msg(Some("U2"), "1700000000", "hi", None)],
    }];
    let mut cache = NameCache::new();
    cache.insert("U1".to_string(), "Ann".to_string());
    cache.insert("U2".to_string(), "Bob".to_string());
    let text = render_transcript(&exports, NameOption::DisplayName, &cache);
    assert_eq!(text, "Ann - 2023-11-14 02:13 PM\nhello\n\n    Bob - 2023-11-14 02:13 PM\n    hi\n\n");
}

#[test]
fn empty_channel_transcript_is_empty() {
    assert_eq!(render_transcript(&Vec::new(), NameOption::DisplayName, &NameCache::new()), "");
}

#[test]
fn name_options_offered_in_order() {
    let all = NameOption::all();
    assert_eq!(all, vec![NameOption::UserId, NameOption::DisplayName]);
    assert_eq!(all[0].friendly(), "User ID");
    assert_eq!(all[1].friendly(), "Display Name");
}
