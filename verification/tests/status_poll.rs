//! Status parsing and rendering: the end-to-end poll behaviour over real
//! JSON payloads, the defaulting rules, and the favicon handling.

use mcbridge::render::next_attachment_state;
use mcbridge::render::poll_cycle;
use mcbridge::render::render_update;
use mcbridge::render::AttachmentAction;
use mcbridge::render::COLOR_OFFLINE;
use mcbridge::render::COLOR_ONLINE;
use mcbridge::status::offline_snapshot;
use mcbridge::status::parse_status_payload;
use mcbridge::status::snapshot_of_document;
use mcbridge::status::StatusDocument;
use mcbridge::status::StatusError;

#[test]
fn a_status_payload_renders_counts_names_and_online() {
    let payload = br#"{
        "version": {"name": "1.20.4"},
        "description": {"text": "A test server"},
        "players": {
            "online": 5,
            "max": 20,
            "sample": [{"name": "alice"}, {"name": "bob"}]
        }
    }"#
    .to_vec();
    let snapshot = parse_status_payload(&payload).expect("well-formed payload");
    assert!(snapshot.online);
    assert_eq!(snapshot.version, "1.20.4");
    assert_eq!(snapshot.description, "A test server");
    assert_eq!(snapshot.player_count, 5);
    assert_eq!(snapshot.player_max, 20);
    assert_eq!(snapshot.sample, "alice, bob");

    let (update, _) = render_update("My Server", snapshot, &None, false);
    assert_eq!(update.title, "My Server");
    assert_eq!(update.status_field, "ONLINE");
    assert_eq!(update.color, COLOR_ONLINE);
    assert_eq!(update.players_field, "5/20");
    assert_eq!(update.version_field, "1.20.4");
    assert_eq!(update.sample_field, "alice, bob");
}

#[test]
fn an_unreachable_target_renders_offline_with_zero_counts() {
    let r = poll_cycle("My Server", None, &None, false).expect("offline is not an error");
    let (update, next_favicon) = r;
    assert_eq!(update.status_field, "OFFLINE");
    assert_eq!(update.color, COLOR_OFFLINE);
    assert_eq!(update.players_field, "0/0");
    assert_eq!(update.version_field, "Unknown");
    assert_eq!(update.sample_field, "None");
    assert!(matches!(update.attachment, AttachmentAction::NoImage));
    assert!(next_favicon.is_none());
}

#[test]
fn offline_snapshot_has_the_documented_defaults() {
    let snap = offline_snapshot();
    assert!(!snap.online);
    assert_eq!(snap.version, "Unknown");
    assert_eq!(snap.description, "");
    assert_eq!(snap.player_count, 0);
    assert_eq!(snap.player_max, 0);
    assert_eq!(snap.sample, "None");
    assert!(snap.favicon.is_none());
}

#[test]
fn absent_fields_fall_back_to_their_defaults() {
    let snapshot = parse_status_payload(b"{}").expect("empty object is well-formed");
    assert!(snapshot.online);
    assert_eq!(snapshot.version, "Unknown");
    assert_eq!(snapshot.description, "");
    assert_eq!(snapshot.player_count, 0);
    assert_eq!(snapshot.player_max, 0);
    assert_eq!(snapshot.sample, "Unknown");
    assert!(snapshot.favicon.is_none());
}

#[test]
fn malformed_fields_fall_back_but_malformed_json_is_an_error() {
    let odd = br#"{"version": {"name": 7}, "players": {"online": "five"}}"#;
    let snapshot = parse_status_payload(odd).expect("still JSON");
    assert_eq!(snapshot.version, "Unknown");
    assert_eq!(snapshot.player_count, 0);

    let err = parse_status_payload(b"not json at all").unwrap_err();
    assert_eq!(err, StatusError::MalformedResponse);
    let err = parse_status_payload(b"{\"truncated\":").unwrap_err();
    assert_eq!(err, StatusError::MalformedResponse);
}

#[test]
fn a_sample_entry_without_a_name_shows_the_null_spelling() {
    let payload = br#"{"players": {"sample": [{"name": "alice"}, {"id": "x"}]}}"#;
    let snapshot = parse_status_payload(payload).unwrap();
    assert_eq!(snapshot.sample, "alice, null");
}

#[test]
fn favicon_base64_body_is_decoded_after_the_data_url_prefix() {
    let doc = StatusDocument {
        version: None,
        description: None,
        online: None,
        max: None,
        sample: None,
        favicon: Some("data:image/png;base64,AQIDBA==".to_string()),
    };
    let snap = snapshot_of_document(doc);
    assert_eq!(snap.favicon.as_deref(), Some(&[1u8, 2, 3, 4][..]));
}

#[test]
fn favicon_without_comma_or_with_bad_base64_is_dropped() {
    let no_comma = StatusDocument {
        version: None,
        description: None,
        online: None,
        max: None,
        sample: None,
        favicon: Some("AQIDBA==".to_string()),
    };
    assert!(snapshot_of_document(no_comma).favicon.is_none());

    let bad = StatusDocument {
        version: None,
        description: None,
        online: None,
        max: None,
        sample: None,
        favicon: Some("data:image/png;base64,@@@".to_string()),
    };
    assert!(snapshot_of_document(bad).favicon.is_none());
}

#[test]
fn a_changed_favicon_uploads_and_an_unchanged_one_is_kept() {
    let payload = br#"{"favicon": "data:image/png;base64,AQID"}"#;
    let snapshot = parse_status_payload(payload).unwrap();
    let (update, next) = render_update("t", snapshot, &None, false);
    match update.attachment {
        AttachmentAction::Upload(bytes) => assert_eq!(bytes, vec![1, 2, 3]),
        _ => panic!("a new favicon must upload"),
    }
    assert_eq!(next.as_deref(), Some(&[1u8, 2, 3][..]));

    // same favicon, already attached: keep the existing attachment
    let snapshot = parse_status_payload(payload).unwrap();
    let (update, next) = render_update("t", snapshot, &next, true);
    assert!(matches!(update.attachment, AttachmentAction::Keep));
    assert_eq!(next.as_deref(), Some(&[1u8, 2, 3][..]));

    // a different favicon uploads again
    let changed = parse_status_payload(br#"{"favicon": "data:image/png;base64,BQYH"}"#).unwrap();
    let (update, next) = render_update("t", changed, &next, true);
    match update.attachment {
        AttachmentAction::Upload(bytes) => assert_eq!(bytes, vec![5, 6, 7]),
        _ => panic!("a changed favicon must upload"),
    }
    assert_eq!(next.as_deref(), Some(&[5u8, 6, 7][..]));
}

#[test]
fn attachment_state_follows_the_publish_decision() {
    assert!(next_attachment_state(&AttachmentAction::Upload(vec![1]), false));
    assert!(next_attachment_state(&AttachmentAction::Upload(vec![1]), true));
    assert!(next_attachment_state(&AttachmentAction::Keep, true));
    assert!(!next_attachment_state(&AttachmentAction::Keep, false));
    assert!(!next_attachment_state(&AttachmentAction::NoImage, true));
    assert!(!next_attachment_state(&AttachmentAction::NoImage, false));
}

#[test]
fn poll_cycle_reports_malformed_payloads() {
    let bad = b"\xFF\xFE".to_vec();
    let r = poll_cycle("t", Some(&bad), &None, false);
    assert_eq!(r.unwrap_err(), StatusError::MalformedResponse);

    let good = br#"{"players": {"online": 1, "max": 2}}"#.to_vec();
    let (update, _) = poll_cycle("t", Some(&good), &None, false).unwrap();
    assert_eq!(update.players_field, "1/2");
    assert_eq!(update.status_field, "ONLINE");
}
