use post::cursor::ChannelState;
use post::model::{ChannelMessage, Envelope, MailKind};
use post::output::{WatchEvent, WatchReason};
use post::textmap::{MemberMap, RoomMap};
use post::watch::{
    after_poll, gather_messages, limit_events, scan_batch, scan_room, select_rooms,
    skipped_channel, skipped_invalid_channel, skipped_nameless_channel, unlisted_channels,
    AfterPoll, ChannelSighting, MailOutcome, MailSighting, MessageLook, MessageOutcome,
    MessageSighting, NameSet, WatchTarget,
};

fn message(id: &str, from: &str) -> ChannelMessage {
    ChannelMessage {
        id: id.to_owned(),
        from: from.to_owned(),
        channel: "tax".to_owned(),
        subject: String::new(),
        sent: "2026-07-22 01:30:00 -0500".to_owned(),
        event: None,
        display_name: None,
        pfp: None,
        re: None,
        mentions: vec![],
        signature_ref: None,
    }
}

fn sighting(id: &str, from: &str) -> MessageSighting {
    MessageSighting {
        channel: "tax".to_owned(),
        path: format!("/channels/tax/messages/{id}.msg"),
        stem: Some(id.to_owned()),
        outcome: MessageOutcome::Message(message(id, from)),
    }
}

fn mail(id: &str) -> MailSighting {
    MailSighting {
        path: format!("/alpha/inbox/{id}.mail"),
        stem: Some(id.to_owned()),
        outcome: MailOutcome::Mail(Envelope {
            id: id.to_owned(),
            from: "beta".to_owned(),
            to: "alpha".to_owned(),
            kind: MailKind::Note,
            subject: "hi".to_owned(),
            sent: "2026-07-22 01:31:00 -0500".to_owned(),
            display_name: None,
            pfp: None,
            sender_address: None,
            sender_provenance: None,
        }),
    }
}

fn target(room: &str) -> WatchTarget {
    WatchTarget::new(room.to_owned(), ChannelState::default())
}

fn froms(events: &[WatchEvent]) -> Vec<&str> {
    events
        .iter()
        .filter_map(|event| match event {
            WatchEvent::ChannelMessage { from, .. } => Some(from.as_str()),
            _ => None,
        })
        .collect()
}

const A: &str = "20260722-013000-000001-aaa111";
const B: &str = "20260722-013000-000002-bbb222";

#[test]
fn scan_batch_never_rings_for_the_rooms_own_messages() {
    let mut alpha = target("alpha");
    let mut emitted = NameSet::new();
    let scan = scan_batch(
        &mut alpha,
        &mut emitted,
        vec![],
        vec![sighting(A, "alpha"), sighting(B, "beta")],
    );
    assert_eq!(froms(&scan.events), vec!["beta"], "own message must not ring own doorbell");
    assert!(scan.warnings.is_empty());
}

#[test]
fn shared_channel_messages_ring_once_for_all_watched_rooms() {
    let mut alpha = target("alpha");
    let mut gamma = target("gamma");
    let mut emitted = NameSet::new();
    let first = scan_batch(&mut alpha, &mut emitted, vec![], vec![sighting(B, "beta")]);
    let second = scan_batch(&mut gamma, &mut emitted, vec![], vec![sighting(B, "beta")]);
    assert_eq!(first.events.len(), 1);
    assert!(second.events.is_empty());
    // But a room's own message still rings the other room's bell.
    let own = scan_batch(&mut alpha, &mut emitted, vec![], vec![sighting(A, "alpha")]);
    let other = scan_batch(&mut gamma, &mut emitted, vec![], vec![sighting(A, "alpha")]);
    assert!(own.events.is_empty());
    assert_eq!(other.events.len(), 1);
}

#[test]
fn a_second_scan_is_quiet() {
    let mut alpha = target("alpha");
    let mut emitted = NameSet::new();
    let once = scan_batch(
        &mut alpha,
        &mut emitted,
        vec![mail("20260722-013100-aaaaaa")],
        vec![sighting(B, "beta")],
    );
    assert_eq!(once.events.len(), 2);
    assert!(matches!(&once.events[0], WatchEvent::Mail { room, .. } if room == "alpha"));
    assert!(!alpha.wants_mail("/alpha/inbox/20260722-013100-aaaaaa.mail"));
    assert!(alpha.wants_mail("/alpha/inbox/other.mail"));
    let again = scan_batch(
        &mut alpha,
        &mut emitted,
        vec![mail("20260722-013100-aaaaaa")],
        vec![sighting(B, "beta")],
    );
    assert!(again.events.is_empty());
}

#[test]
fn messages_at_or_below_the_cursor_do_not_ring() {
    let mut floors = ChannelState::default();
    floors.restore("tax", A);
    let mut alpha = WatchTarget::new("alpha".to_owned(), floors);
    let mut emitted = NameSet::new();
    assert!(!alpha.wants_message(&emitted, "tax", "/p", Some(A)));
    assert!(alpha.wants_message(&emitted, "tax", "/p", Some(B)));
    assert!(alpha.wants_message(&emitted, "ops", "/p", Some(A)));
    let scan = scan_batch(
        &mut alpha,
        &mut emitted,
        vec![],
        vec![sighting(A, "beta"), sighting(B, "beta")],
    );
    assert_eq!(scan.events.len(), 1);
    assert_eq!(alpha.floors.cursor("tax"), Some(A), "a watch moves no cursor");
}

#[test]
fn mentions_ring_as_mentions() {
    let mut alpha = target("alpha");
    let mut emitted = NameSet::new();
    let mut m = sighting(B, "beta");
    let mut content = message(B, "beta");
    content.mentions = vec!["alpha".to_owned()];
    m.outcome = MessageOutcome::Message(content);
    let scan = scan_batch(&mut alpha, &mut emitted, vec![], vec![m]);
    match &scan.events[0] {
        WatchEvent::ChannelMessage { reason, .. } => assert_eq!(*reason, WatchReason::Mention),
        other => panic!("{other:?}"),
    }
    assert_eq!(scan.events[0].text_line(), format!("{B}  @ #tax from \"beta\"\n"));
}

#[test]
fn unreadable_files_ring_with_their_names_only() {
    let mut alpha = target("alpha");
    let mut emitted = NameSet::new();
    let scan = scan_batch(
        &mut alpha,
        &mut emitted,
        vec![
            MailSighting {
                path: "/alpha/inbox/bad.mail".to_owned(),
                stem: Some("bad".to_owned()),
                outcome: MailOutcome::Unreadable("no \"separator\"".to_owned()),
            },
            MailSighting {
                path: "/alpha/inbox/gone.mail".to_owned(),
                stem: Some("gone".to_owned()),
                outcome: MailOutcome::Gone,
            },
        ],
        vec![MessageSighting {
            channel: "tax".to_owned(),
            path: "/channels/tax/messages/x".to_owned(),
            stem: None,
            outcome: MessageOutcome::Unreadable("why".to_owned()),
        }],
    );
    assert_eq!(scan.events.len(), 2);
    assert_eq!(scan.events[0].text_line(), "\"bad\"  [?] unreadable envelope\n");
    assert_eq!(scan.events[1].text_line(), "\"<non-utf8 filename>\"  [?] unreadable envelope\n");
    assert_eq!(
        scan.warnings,
        vec![
            "post: warning: unreadable mail \"/alpha/inbox/bad.mail\": \"no \\\"separator\\\"\"".to_owned(),
            "post: warning: unreadable channel message \"/channels/tax/messages/x\": \"why\"".to_owned(),
        ]
    );
}

#[test]
fn rooms_are_watched_once_and_snapshots_skip_strangers() {
    let mut rooms = RoomMap::new();
    rooms.insert("alpha", "/a".to_owned());
    let named = vec!["alpha".to_owned(), "ghost".to_owned(), "alpha".to_owned(), "ghost".to_owned()];
    let (chosen, warnings) = select_rooms(&named, &rooms, false);
    assert_eq!(chosen, vec!["alpha".to_owned(), "ghost".to_owned()]);
    assert_eq!(
        warnings,
        vec!["post: warning: room \"ghost\" is not registered; watching a new empty mailbox".to_owned()]
    );
    let (chosen, warnings) = select_rooms(&named, &rooms, true);
    assert_eq!(chosen, vec!["alpha".to_owned()]);
    assert_eq!(
        warnings,
        vec![
            "post: warning: room \"ghost\" is not registered; snapshot scans nothing and creates nothing"
                .to_owned()
        ]
    );
}

#[test]
fn snapshot_limits_keep_the_last_events() {
    let events = || {
        let mut alpha = target("alpha");
        let mut emitted = NameSet::new();
        scan_batch(
            &mut alpha,
            &mut emitted,
            vec![],
            vec![sighting(A, "beta"), sighting(B, "gamma")],
        )
        .events
    };
    let (kept, notice) = limit_events(events(), Some(1));
    assert_eq!(froms(&kept), vec!["gamma"]);
    assert_eq!(
        notice.as_deref(),
        Some("post: snapshot limit omitted 1 earlier event (use --limit 0 for all)")
    );
    let (kept, notice) = limit_events(events(), Some(0));
    assert_eq!(kept.len(), 2);
    assert!(notice.is_none());
    let (kept, notice) = limit_events(events(), None);
    assert_eq!(kept.len(), 2);
    assert!(notice.is_none());
    let mut many = events();
    many.extend(events());
    let (kept, notice) = limit_events(many, Some(2));
    assert_eq!(kept.len(), 2);
    assert_eq!(
        notice.as_deref(),
        Some("post: snapshot limit omitted 2 earlier events (use --limit 0 for all)")
    );
}

#[test]
fn polls_go_on_unless_once() {
    assert_eq!(after_poll(0, true), AfterPoll::Wait);
    assert_eq!(after_poll(2, true), AfterPoll::EmitAndStop);
    assert_eq!(after_poll(2, false), AfterPoll::EmitAndWait);
}

#[test]
fn scan_failures_are_said_once_and_recovery_too() {
    let mut alpha = target("alpha");
    assert_eq!(alpha.note_scan(None), None);
    assert_eq!(
        alpha.note_scan(Some("gone")).as_deref(),
        Some("post: warning: watch scan failed for room \"alpha\" (will keep polling): gone")
    );
    assert_eq!(alpha.note_scan(Some("gone")), None);
    assert_eq!(
        alpha.note_scan(None).as_deref(),
        Some("post: warning: watch scan recovered for room \"alpha\"")
    );
    assert_eq!(alpha.note_scan(None), None);
}

#[test]
fn skipped_channels_are_named_quoted() {
    assert_eq!(skipped_channel("a\nb", "why"), "post: warning: skipped channel \"a\\nb\": \"why\"");
    assert_eq!(
        skipped_invalid_channel("..", "why"),
        "post: warning: skipped invalid channel \"..\": \"why\""
    );
    assert_eq!(
        skipped_nameless_channel("/c"),
        "post: warning: skipped channel with non-UTF-8 name under \"/c\""
    );
    assert_eq!(
        unlisted_channels(true, "/c", "why"),
        "post: warning: cannot list channels directory \"/c\": \"why\""
    );
    assert_eq!(
        unlisted_channels(false, "/c", "why"),
        "post: warning: cannot read channels entry \"/c\": \"why\""
    );
}

#[test]
fn arriving_mail_brings_the_evidence_of_its_sender() {
    let mut alpha = target("alpha");
    let mut emitted = NameSet::new();
    let mut letter = mail("20260722-013100-aaaaaa");
    if let MailOutcome::Mail(envelope) = &mut letter.outcome {
        envelope.sender_address = Some("beta@host".to_owned());
        envelope.sender_provenance = Some("declared-flag".to_owned());
    }
    let scan = scan_batch(&mut alpha, &mut emitted, vec![letter], vec![]);
    match &scan.events[0] {
        WatchEvent::Mail { room, item, sender_address, sender_provenance, reason } => {
            assert_eq!(room, "alpha");
            assert_eq!(item.from, "beta");
            assert_eq!(sender_address.as_deref(), Some("beta@host"));
            assert_eq!(sender_provenance.as_deref(), Some("declared-flag"));
            assert_eq!(*reason, WatchReason::Mail);
        }
        other => panic!("a mail must ring: {other:?}"),
    }
}

#[test]
fn a_scan_rings_for_the_news_and_for_nothing_else() {
    let mut floors = ChannelState::default();
    floors.restore("tax", A);
    let mut alpha = WatchTarget::new("alpha".to_owned(), floors);
    let mut emitted = NameSet::new();
    let own = "20260722-013000-000003-ccc333";
    let scan = scan_batch(
        &mut alpha,
        &mut emitted,
        vec![mail("20260722-013100-aaaaaa"), mail("20260722-013100-aaaaaa")],
        vec![sighting(A, "beta"), sighting(own, "alpha"), sighting(B, "beta"), sighting(B, "beta")],
    );
    assert_eq!(scan.events.len(), 2, "one mail and one message are new");
    assert!(matches!(&scan.events[0], WatchEvent::Mail { item, .. } if item.id == "20260722-013100-aaaaaa"));
    assert!(matches!(&scan.events[1], WatchEvent::ChannelMessage { id, .. } if id == B));
}

#[test]
fn events_take_a_line_each() {
    let mut alpha = target("alpha");
    let mut emitted = NameSet::new();
    let mut letter = mail("20260722-013100-aaaaaa");
    if let MailOutcome::Mail(envelope) = &mut letter.outcome {
        envelope.subject = "two\nlines".to_owned();
        envelope.display_name = Some("La\nntern".to_owned());
    }
    let mut odd = mail("od\nd");
    odd.outcome = MailOutcome::Unreadable("no separator".to_owned());
    let scan = scan_batch(&mut alpha, &mut emitted, vec![letter, odd], vec![sighting(B, "be\nta")]);
    assert_eq!(scan.events.len(), 3);
    for event in &scan.events {
        let line = event.text_line();
        assert!(line.ends_with('\n'));
        assert_eq!(line.matches('\n').count(), 1, "{line:?}");
    }
}

#[test]
fn misnamed_message_files_ring_as_unreadable() {
    let mut alpha = target("alpha");
    let mut emitted = NameSet::new();
    let mut renamed = sighting(A, "beta");
    renamed.stem = Some("copy".to_owned());
    renamed.path = "/channels/tax/messages/copy.msg".to_owned();
    let scan = scan_batch(&mut alpha, &mut emitted, vec![], vec![renamed, sighting(A, "beta")]);
    assert_eq!(scan.events.len(), 2);
    assert!(matches!(&scan.events[0], WatchEvent::Unreadable { id, reason, .. }
        if id == "copy" && *reason == WatchReason::Channel));
    assert!(scan.warnings[0].contains(&format!("channel message filename must be '{A}.msg'")));
    assert!(matches!(&scan.events[1], WatchEvent::ChannelMessage { id, .. } if id == A));
}

fn sound_channel(name: &str, members: &[&str], ids: &[&str]) -> ChannelSighting {
    let mut list: MemberMap = MemberMap::new();
    for member in members {
        list.insert(member, "2026-07-22 01:00:00 -0500".to_owned());
    }
    ChannelSighting::Channel {
        name: name.to_owned(),
        info_problem: None,
        members: Ok(list),
        files: Ok(ids.iter().map(|id| format!("/channels/{name}/messages/{id}.msg")).collect()),
    }
}

fn look(id: &str, from: &str) -> MessageLook {
    MessageLook { stem: Some(id.to_owned()), outcome: MessageOutcome::Message(message(id, from)) }
}

#[test]
fn a_scan_of_a_room_hears_its_own_channels_only() {
    let other = "20260722-013000-000003-ccc333";
    let found = vec![
        sound_channel("ops", &["beta"], &[other]),
        ChannelSighting::Nameless,
        sound_channel("tax", &["alpha", "beta"], &[A, B]),
    ];
    let (files, warnings) = gather_messages(&found, "/channels", "alpha");
    assert_eq!(files.len(), 2);
    assert_eq!(warnings.len(), 1);
    let mut alpha = target("alpha");
    let mut emitted = NameSet::new();
    let looks = || vec![look(A, "alpha"), look(B, "beta")];
    let scan = scan_room(
        &mut alpha,
        &mut emitted,
        &found,
        vec![mail("20260722-013100-aaaaaa")],
        looks(),
    );
    assert_eq!(scan.events.len(), 2);
    assert_eq!(froms(&scan.events), ["beta"]);
    assert!(alpha.seen.contains_key(&format!("/channels/tax/messages/{A}.msg")));
    let again = scan_room(
        &mut alpha,
        &mut emitted,
        &found,
        vec![mail("20260722-013100-aaaaaa")],
        looks(),
    );
    assert!(again.events.is_empty(), "an unchanged store is quiet");
    // Files without a look wait for the next scan.
    let mut gamma = target("alpha");
    let scan = scan_room(&mut gamma, &mut NameSet::new(), &found, vec![], vec![look(A, "beta")]);
    assert_eq!(scan.events.len(), 1);
    assert!(gamma.wants_message(&NameSet::new(), "tax", "/channels/tax/messages/b.msg", Some(B)));
}
