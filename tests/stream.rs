use escape_artist::action::ParsedAction;
use escape_artist::asset::StaticFile;
use escape_artist::driver::ParserDriver;
use escape_artist::event::VteEventDto;
use escape_artist::fanout::{replay_chunks, LiveBatcher, REPLAY_CHUNK, THROTTLE_MS};
use escape_artist::history::EventLog;
use termwiz::escape::Action;

fn print_event(s: &str, color: Option<&str>) -> VteEventDto {
    VteEventDto::Print { string: s.to_string(), color: color.map(|c| c.to_string()), bg_color: None }
}

fn text_of(e: &VteEventDto) -> Option<&str> {
    match e {
        VteEventDto::Print { string, .. } => Some(string.as_str()),
        _ => None,
    }
}

#[test]
fn lone_escape_waits_for_more_bytes() {
    let mut driver = ParserDriver::new();
    let groups = driver.feed(b"\x1b");
    assert!(groups.is_empty());
    assert_eq!(driver.pending_bytes().as_slice(), b"\x1b");
    let groups = driver.feed(b"[2J");
    assert_eq!(groups.len(), 1);
    assert_eq!(groups[0].raw_bytes.as_slice(), b"\x1b[2J");
    assert_eq!(groups[0].actions.len(), 1);
    assert!(driver.pending_bytes().is_empty());
}

#[test]
fn windows_cover_the_stream() {
    let input: &[u8] = b"ab\x1b[31mc\r\n\x1b]0;t\x07\x1b";
    let mut driver = ParserDriver::new();
    let mut all = Vec::new();
    for chunk in input.chunks(3) {
        for g in driver.feed(chunk) {
            assert!(!g.actions.is_empty());
            all.extend_from_slice(&g.raw_bytes);
        }
    }
    all.extend_from_slice(driver.pending_bytes());
    assert_eq!(all.as_slice(), input);
}

#[test]
fn long_printable_burst_through_parser() {
    let input = vec![b'a'; 10_001];
    let mut driver = ParserDriver::new();
    let groups = driver.feed(&input);
    assert_eq!(groups.len(), 10_001);
    let mut log = EventLog::new();
    for g in &groups {
        for a in &g.actions {
            match a {
                Action::Print(c) => {
                    log.process(&ParsedAction::Print(*c), &g.raw_bytes);
                }
                _ => panic!("expected printable characters"),
            }
        }
    }
    let h = log.history();
    assert_eq!(h.len(), 1);
    assert_eq!(text_of(&h[0]).unwrap().len(), 10_001);
}

#[test]
fn replay_in_chunks_of_one_hundred() {
    let history: Vec<VteEventDto> = (0..250).map(|i| print_event(&i.to_string(), None)).collect();
    let chunks = replay_chunks(&history);
    assert_eq!(REPLAY_CHUNK, 100);
    assert_eq!(chunks.iter().map(|c| c.len()).collect::<Vec<_>>(), vec![100, 100, 50]);
    let flat: Vec<&str> = chunks.iter().flatten().map(|e| text_of(e).unwrap()).collect();
    let expect: Vec<String> = (0..250).map(|i| i.to_string()).collect();
    assert_eq!(flat, expect.iter().map(|s| s.as_str()).collect::<Vec<_>>());
    assert!(replay_chunks(&Vec::new()).is_empty());
    assert_eq!(replay_chunks(&history[..100].to_vec()).len(), 1);
}

#[test]
fn live_prints_are_joined_within_a_batch() {
    let mut b = LiveBatcher::new(1000);
    assert_eq!(b.next_send(), 1000 + THROTTLE_MS);
    assert!(b.on_wake(Some(print_event("a", Some("#010101"))), 1010).is_none());
    assert!(b.on_wake(Some(print_event("b", None)), 1020).is_none());
    assert!(b.on_wake(Some(VteEventDto::InvisibleLineBreak), 1030).is_none());
    assert!(b.on_wake(Some(print_event("c", None)), 1040).is_none());
    let sent = b.on_wake(None, 1101).unwrap();
    assert_eq!(sent.len(), 3);
    match &sent[0] {
        VteEventDto::Print { string, color, .. } => {
            assert_eq!(string, "ab");
            assert_eq!(color.as_deref(), Some("#010101"));
        }
        _ => panic!("expected printed text"),
    }
    assert!(matches!(sent[1], VteEventDto::InvisibleLineBreak));
    assert_eq!(text_of(&sent[2]), Some("c"));
    assert_eq!(b.next_send(), 1101 + THROTTLE_MS);
}

#[test]
fn nothing_is_sent_before_the_deadline_or_when_empty() {
    let mut b = LiveBatcher::new(0);
    assert!(b.on_wake(None, 100).is_none());
    assert_eq!(b.next_send(), 100);
    assert!(b.on_wake(None, 150).is_none());
    assert_eq!(b.next_send(), 250);
    assert!(b.on_wake(Some(VteEventDto::InvisibleLineBreak), 200).is_none());
    let sent = b.on_wake(Some(print_event("x", None)), 251).unwrap();
    assert_eq!(sent.len(), 2);
    assert_eq!(text_of(&sent[1]), Some("x"));
}

#[test]
fn joined_print_skips_the_deadline_check() {
    let mut b = LiveBatcher::new(0);
    assert!(b.on_wake(Some(print_event("a", None)), 50).is_none());
    assert!(b.on_wake(Some(print_event("b", None)), 500).is_none());
    assert_eq!(b.next_send(), 100);
    let sent = b.on_wake(None, 501).unwrap();
    assert_eq!(text_of(&sent[0]), Some("ab"));
}

#[test]
fn deadline_saturates() {
    let b = LiveBatcher::new(u64::MAX - 1);
    assert_eq!(b.next_send(), u64::MAX);
}

#[test]
fn static_file_found_and_missing() {
    let found = StaticFile("index.html".to_string()).into_response(Some(vec![1, 2, 3]));
    assert_eq!(found.status, 200);
    assert_eq!(found.content_type.as_deref(), Some("text/html"));
    assert_eq!(found.body, vec![1, 2, 3]);
    let js = StaticFile("app.js".to_string()).into_response(Some(vec![]));
    assert!(js.content_type.unwrap().contains("javascript"));
    let unknown = StaticFile("blob".to_string()).into_response(Some(vec![0]));
    assert_eq!(unknown.content_type.as_deref(), Some("application/octet-stream"));
    let missing = StaticFile("nope.css".to_string()).into_response(None);
    assert_eq!(missing.status, 404);
    assert_eq!(missing.body, b"404".to_vec());
    assert_eq!(missing.content_type, None);
}

fn coalesced(events: &[VteEventDto]) -> Vec<String> {
    let mut out: Vec<String> = Vec::new();
    let mut last_was_print = false;
    for e in events {
        match e {
            VteEventDto::Print { string, .. } if last_was_print => out.last_mut().unwrap().push_str(string),
            VteEventDto::Print { string, .. } => {
                out.push(format!("print:{string}"));
                last_was_print = true;
                continue;
            }
            VteEventDto::InvisibleLineBreak => out.push("ilb".to_string()),
            VteEventDto::LineBreak { title } => out.push(format!("lb:{title}")),
            _ => out.push("escape".to_string()),
        }
        last_was_print = matches!(e, VteEventDto::Print { .. });
    }
    out
}

#[test]
fn two_subscribers_see_the_same_content() {
    let events = vec![
        print_event("a", None),
        print_event("b", None),
        VteEventDto::InvisibleLineBreak,
        VteEventDto::LineBreak { title: "LF".to_string() },
        VteEventDto::InvisibleLineBreak,
        print_event("c", None),
        print_event("d", None),
        print_event("e", None),
    ];
    let mut fast = LiveBatcher::new(0);
    let mut slow = LiveBatcher::new(0);
    let mut fast_sent = Vec::new();
    let mut slow_sent = Vec::new();
    for (i, e) in events.iter().enumerate() {
        if let Some(b) = fast.on_wake(Some(e.clone()), 101 * (i as u64 + 1)) {
            fast_sent.extend(b);
        }
        if let Some(b) = slow.on_wake(Some(e.clone()), 10 * i as u64) {
            slow_sent.extend(b);
        }
    }
    fast_sent.extend(fast.on_wake(None, u64::MAX - 1).unwrap_or_default());
    slow_sent.extend(slow.on_wake(None, u64::MAX - 1).unwrap_or_default());
    assert_ne!(fast_sent.len(), slow_sent.len());
    assert_eq!(coalesced(&fast_sent), coalesced(&slow_sent));
    assert_eq!(coalesced(&slow_sent), vec!["print:ab", "ilb", "lb:LF", "ilb", "print:cde"]);
}

#[test]
fn late_subscriber_replays_the_full_history() {
    let mut log = EventLog::new();
    let mut published = 0;
    for _ in 0..10_001 {
        published += log.process(&ParsedAction::Print('z'), b"z").len();
    }
    assert_eq!(published, 10_001);
    let chunks = replay_chunks(log.history());
    assert_eq!(chunks.len(), 1);
    assert_eq!(chunks[0].len(), 1);
    assert_eq!(text_of(&chunks[0][0]).unwrap().len(), 10_001);
    // live delivery starts empty: only events after connecting are sent
    let mut b = LiveBatcher::new(0);
    assert!(b.on_wake(None, 101).is_none());
    let later = log.process(&ParsedAction::Print('y'), b"y");
    assert!(b.on_wake(Some(later[0].clone()), 150).is_none());
    let sent = b.on_wake(None, 202).unwrap();
    assert_eq!(sent.len(), 1);
    assert_eq!(text_of(&sent[0]), Some("y"));
}

#[test]
fn record_byte_grows_or_emits_the_window() {
    let mut driver = ParserDriver::new();
    assert!(driver.record_byte(b'\x1b', Vec::new()).is_none());
    assert_eq!(driver.pending_bytes().as_slice(), b"\x1b");
    assert!(driver.record_byte(b'7', Vec::new()).is_none());
    let group = driver.record_byte(b'x', vec![Action::Print('x'), Action::Print('y')]).unwrap();
    assert_eq!(group.raw_bytes.as_slice(), b"\x1b7x");
    assert_eq!(group.actions.len(), 2);
    assert!(driver.pending_bytes().is_empty());
}

#[test]
fn each_action_of_a_byte_shares_its_window() {
    let mut driver = ParserDriver::new();
    let groups = driver.feed(b"\x1b[2Jz\r");
    assert_eq!(groups.len(), 3);
    assert_eq!(groups[0].raw_bytes.as_slice(), b"\x1b[2J");
    assert_eq!(groups[1].raw_bytes.as_slice(), b"z");
    assert!(matches!(groups[1].actions[0], Action::Print('z')));
    assert_eq!(groups[2].raw_bytes.as_slice(), b"\r");
}
