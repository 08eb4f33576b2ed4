use bignetscreen::cast::{CastEvent, NS_MEDIA};
use bignetscreen::error::NdError;
use bignetscreen::file_server::MediaFile;
use bignetscreen::media::{MediaCommand, MediaKind, PlaybackState};
use bignetscreen::media_session::{
    active_status, command_refused, control_request, finish, is_photo, item_has_ended, load_error,
    media_session, on_channel_event, on_command, on_control_reply, on_mirror_command,
    on_mirror_control, on_mirror_poll, on_report, silence_error, start, status_request,
    update_playback, AfterCommand, AfterMirrorCommand, AfterMirrorPoll, AfterReport, MediaStatus,
    Queue,
};
use bignetscreen::path::same_path;
use serde_json::Value;

fn json(text: &str) -> Value {
    serde_json::from_str(text).unwrap()
}

fn fixture(name: &str) -> MediaFile {
    MediaFile {
        path: name.into(),
        kind: MediaKind::Video,
        content_type: "video/mp4",
        size: 1,
    }
}

fn three() -> Vec<MediaFile> {
    vec![fixture("a.mp4"), fixture("b.mp4"), fixture("c.mp4")]
}

fn shown() -> MediaStatus {
    start(&three()).unwrap()
}

#[test]
fn removing_files_keeps_http_indexes_and_current_item_consistent() {
    let mut status = shown();
    let mut queue = Queue::new(three());
    assert!(!queue.edit(&MediaCommand::Remove("b.mp4".into()), &mut status));
    assert_eq!(
        queue.pending.iter().map(|(index, _)| *index).collect::<Vec<_>>(),
        vec![0, 2]
    );
    assert!(queue.edit(&MediaCommand::Remove("a.mp4".into()), &mut status));
    assert_eq!(queue.pending.front().unwrap().0, 2);
    assert!(queue.edit(&MediaCommand::Next, &mut status));
    assert!(queue.pending.is_empty());
}

#[test]
fn receiver_updates_preserve_duration_and_use_capabilities() {
    let mut playback = PlaybackState::default();
    update_playback(
        &mut playback,
        &json(
            r#"{"currentTime": 8.0, "media": {"duration": 50.0}, "playerState": "PLAYING", "supportedMediaCommands": 3}"#,
        ),
        false,
    );
    assert!(playback.can_seek && playback.can_pause);
    assert_eq!(f64::from_bits(playback.seconds), 8.0);
    update_playback(
        &mut playback,
        &json(r#"{"currentTime": 9.0, "playerState": "PAUSED"}"#),
        false,
    );
    assert_eq!(playback.duration.map(f64::from_bits), Some(50.0));
    assert!(playback.paused);
    let request = control_request(&MediaCommand::TogglePause, 7, &playback).unwrap();
    assert_eq!(request.payload, json(r#"{"type": "PLAY", "mediaSessionId": 7}"#));
    let back = MediaCommand::SeekRelative((-10.0f64).to_bits());
    let request = control_request(&back, 7, &playback).unwrap();
    assert_eq!(request.payload["type"], "SEEK");
    assert_eq!(request.seek.map(f64::from_bits), Some(-10.0));
    assert!(
        request.payload.get("resumeState").is_none(),
        "seeking preserves pause"
    );
    update_playback(&mut playback, &json(r#"{"supportedMediaCommands": 0}"#), false);
    assert!(control_request(&MediaCommand::TogglePause, 7, &playback).is_none());
}

#[test]
fn whole_numbers_and_bad_times_are_told_apart() {
    let mut playback = PlaybackState::default();
    update_playback(
        &mut playback,
        &json(r#"{"currentTime": 12, "media": {"duration": 90}}"#),
        false,
    );
    assert_eq!(f64::from_bits(playback.seconds), 12.0);
    assert_eq!(playback.duration.map(f64::from_bits), Some(90.0));
    update_playback(
        &mut playback,
        &json(r#"{"currentTime": -1.5, "media": {"duration": 0.0}}"#),
        false,
    );
    assert_eq!(f64::from_bits(playback.seconds), 12.0);
    assert_eq!(playback.duration.map(f64::from_bits), Some(90.0));
    // A photo can be neither paused nor sought in.
    update_playback(&mut playback, &json(r#"{"supportedMediaCommands": 3}"#), true);
    assert!(!playback.can_pause && !playback.can_seek);
}

#[test]
fn removing_and_skipping_files_updates_the_running_mirrored_queue() {
    let mut queue = Queue::new(three());
    let mut status = shown();
    let mut started = vec![];

    let (_, file) = queue.current(false).unwrap();
    started.push(file.path.clone());
    queue.publish(&mut status, true);
    let remove = MediaCommand::Remove("b.mp4".into());
    assert_eq!(
        on_mirror_command(&mut queue, &mut status, Some(&remove)),
        AfterMirrorCommand::Continue
    );
    let remove = MediaCommand::Remove("a.mp4".into());
    assert_eq!(
        on_mirror_command(&mut queue, &mut status, Some(&remove)),
        AfterMirrorCommand::StopAndNext
    );
    let (_, file) = queue.current(false).unwrap();
    started.push(file.path.clone());
    queue.publish(&mut status, true);
    assert_eq!(started, vec!["a.mp4", "c.mp4"]);
    assert_eq!(status.queue, vec!["c.mp4"]);
    assert_eq!(
        on_mirror_command(&mut queue, &mut status, Some(&MediaCommand::Next)),
        AfterMirrorCommand::StopAndNext
    );
    assert!(queue.current(false).is_none());
    finish(&mut status, &Ok(()), false);
    assert!(status.finished);
    assert!(status.error.is_none());
}

#[test]
fn stale_status_cannot_finish_the_current_item() {
    let status = json(
        r#"{"type": "MEDIA_STATUS", "status": [{"mediaSessionId": 5, "media": {"contentId": "file-one"}, "playerState": "IDLE", "idleReason": "FINISHED"}]}"#,
    );
    assert!(active_status(&status, 6, "file-two").is_none());
    assert!(active_status(&status, 5, "file-two").is_none());
    assert!(active_status(&status, 5, "file-one").is_some());
    assert!(active_status(&json(r#"{"type": "PING"}"#), 5, "file-one").is_none());
}

#[test]
fn the_end_of_an_item_is_idle_with_a_reason() {
    assert!(item_has_ended(&json(
        r#"{"type": "MEDIA_STATUS", "status": [{"playerState": "IDLE", "idleReason": "FINISHED"}]}"#
    )));
}

#[test]
fn idle_before_the_first_item_is_not_the_end() {
    // The receiver is IDLE when the app has just started. Reading that as
    // "finished" skipped the file the person asked for.
    assert!(!item_has_ended(&json(
        r#"{"type": "MEDIA_STATUS", "status": [{"playerState": "IDLE"}]}"#
    )));
}

#[test]
fn playing_and_buffering_are_not_the_end() {
    for state in ["PLAYING", "BUFFERING", "PAUSED"] {
        let text = format!(
            "{{\"type\": \"MEDIA_STATUS\", \"status\": [{{\"playerState\": \"{state}\"}}]}}"
        );
        assert!(!item_has_ended(&json(&text)), "{state} must not advance the queue");
    }
}

#[test]
fn an_item_that_cannot_be_played_does_not_stall_the_queue() {
    // A file the receiver refuses mid-play reports ERROR. Waiting for a FINISHED
    // that will never come would hang the rest of the queue.
    assert!(item_has_ended(&json(
        r#"{"type": "MEDIA_STATUS", "status": [{"playerState": "IDLE", "idleReason": "ERROR"}]}"#
    )));
}

#[test]
fn other_messages_are_ignored() {
    assert!(!item_has_ended(&json(r#"{"type": "PING"}"#)));
    assert!(!item_has_ended(&json(r#"{"type": "MEDIA_STATUS"}"#)));
    assert!(!item_has_ended(&Value::Null));
}

#[test]
fn nothing_to_send_is_refused() {
    let error = start(&vec![]).unwrap_err();
    assert_eq!(error.message(), "protocol: no files to send");
    let status = shown();
    assert_eq!((status.position, status.total), (0, 3));
    assert_eq!(status.queue, vec!["a.mp4", "b.mp4", "c.mp4"]);
}

#[test]
fn a_new_item_starts_its_playback_afresh() {
    let mut status = shown();
    let mut queue = Queue::new(three());
    status.playback.paused = true;
    status.control_error = Some("x".into());
    queue.advance();
    queue.publish(&mut status, true);
    assert_eq!((status.position, status.total), (2, 3));
    assert_eq!(status.title, "b");
    assert_eq!(status.playback, PlaybackState::default());
    assert!(status.control_error.is_none());
    queue.advance();
    queue.advance();
    queue.publish(&mut status, true);
    assert_eq!((status.position, status.total), (3, 3));
    assert_eq!(status.title, "");
    assert!(queue.current(false).is_none());
}

#[test]
fn a_session_that_was_stopped_shows_no_failure() {
    let mut status = shown();
    finish(&mut status, &Err(NdError::Cancelled), true);
    assert!(status.finished && status.error.is_none());
    finish(&mut status, &Err(NdError::Network("gone".into())), false);
    assert_eq!(status.error.as_deref(), Some("network: gone"));
    assert!(Queue::new(three()).current(true).is_none());
}

#[test]
fn commands_become_requests_where_the_receiver_can() {
    let mut status = shown();
    let mut queue = Queue::new(three());
    assert!(matches!(
        on_command(&mut queue, &mut status, None, 1),
        AfterCommand::Finished
    ));
    assert!(matches!(
        on_command(&mut queue, &mut status, Some(&MediaCommand::TogglePause), 1),
        AfterCommand::Continue
    ));
    status.playback.can_pause = true;
    match on_command(&mut queue, &mut status, Some(&MediaCommand::TogglePause), 1) {
        AfterCommand::Ask(request) => {
            assert_eq!(request.payload, json(r#"{"type":"PAUSE","mediaSessionId":1}"#));
            assert!(request.seek.is_none());
        }
        _ => panic!("it can be paused"),
    }
    assert!(matches!(
        on_command(&mut queue, &mut status, Some(&MediaCommand::Next), 1),
        AfterCommand::NextItem
    ));
    assert_eq!(status.queue, vec!["b.mp4", "c.mp4"]);
    assert_eq!(
        status_request(4),
        json(r#"{"type":"GET_STATUS","mediaSessionId":4}"#)
    );
}

#[test]
fn a_rejected_control_is_shown() {
    let mut status = shown();
    let reply = Ok(json(r#"{"type":"INVALID_REQUEST"}"#));
    assert!(!on_control_reply(&mut status, &reply, 1, "u"));
    assert_eq!(
        status.control_error.as_deref(),
        Some("receiver rejected the playback control")
    );
    assert!(!on_control_reply(&mut status, &Err(NdError::Cancelled), 1, "u"));
    assert_eq!(status.control_error.as_deref(), Some("cancelled"));
    let reply = Ok(json(r#"{"type":"MEDIA_STATUS","status":[{"mediaSessionId":1}]}"#));
    assert!(on_control_reply(&mut status, &reply, 1, "u"));
    assert!(status.control_error.is_none());
}

#[test]
fn reports_move_the_queue() {
    let mut status = shown();
    let mut queue = Queue::new(three());
    let other = json(r#"{"type":"MEDIA_STATUS","status":[{"mediaSessionId":2}]}"#);
    assert!(matches!(
        on_report(&mut queue, &mut status, &other, 1, "u", false),
        AfterReport::Nothing
    ));
    let playing = json(
        r#"{"type":"MEDIA_STATUS","status":[{"mediaSessionId":1,"playerState":"PLAYING","currentTime":2.5}]}"#,
    );
    assert!(matches!(
        on_report(&mut queue, &mut status, &playing, 1, "u", false),
        AfterReport::Heard
    ));
    assert_eq!(f64::from_bits(status.playback.seconds), 2.5);
    let over = json(
        r#"{"type":"MEDIA_STATUS","status":[{"mediaSessionId":1,"playerState":"IDLE","idleReason":"FINISHED"}]}"#,
    );
    // A photo ends by the clock.
    assert!(matches!(
        on_report(&mut queue, &mut status, &over, 1, "u", true),
        AfterReport::Heard
    ));
    assert!(matches!(
        on_report(&mut queue, &mut status, &over, 1, "u", false),
        AfterReport::NextItem
    ));
    assert_eq!(queue.current(false).unwrap().0, 1);
    let failed = json(
        r#"{"type":"MEDIA_STATUS","status":[{"mediaSessionId":1,"playerState":"IDLE","idleReason":"CANCELLED"}]}"#,
    );
    match on_report(&mut queue, &mut status, &failed, 1, "u", false) {
        AfterReport::Failed(error) => assert_eq!(
            error.message(),
            "protocol: receiver cancelled or failed to play the item"
        ),
        other => panic!("{other:?}"),
    }
}

#[test]
fn a_load_gives_a_session_or_an_error() {
    let reply = json(r#"{"status":[{"mediaSessionId":-3}]}"#);
    assert_eq!(media_session(&reply).unwrap(), -3);
    let reply = json(r#"{"status":{"0":{"mediaSessionId":8}}}"#);
    assert_eq!(media_session(&reply).unwrap(), 8);
    for text in [r#"{"status":[]}"#, r#"{}"#, r#"{"status":[{"mediaSessionId":1.5}]}"#] {
        assert_eq!(
            media_session(&json(text)).unwrap_err().message(),
            "protocol: LOAD returned no media session"
        );
    }
    let refused = NdError::Unsupported("no codec".into());
    assert_eq!(
        load_error(&fixture("/tmp/film.mp4"), &refused).message(),
        "protocol: the receiver refused film: unsupported: no codec"
    );
}

#[test]
fn only_media_messages_of_an_open_channel_count() {
    let event = CastEvent { namespace: NS_MEDIA.to_string(), payload: json("[1]") };
    assert_eq!(on_channel_event(Some(event)).unwrap(), Some(json("[1]")));
    let event = CastEvent { namespace: "urn:x".to_string(), payload: json("[1]") };
    assert_eq!(on_channel_event(Some(event)).unwrap(), None);
    assert_eq!(
        on_channel_event(None).unwrap_err().message(),
        "protocol: media channel closed"
    );
    assert_eq!(
        silence_error().message(),
        "protocol: media receiver stopped reporting status"
    );
    assert_eq!(
        command_refused().message(),
        "protocol: media control is busy or playback has ended"
    );
}

#[test]
fn a_mirrored_photo_is_shown_for_eight_seconds() {
    let mut status = shown();
    let mut queue = Queue::new(three());
    let mut playback = PlaybackState::default();
    assert_eq!(
        on_mirror_poll(&mut queue, &mut status, playback, true, None),
        AfterMirrorPoll::Shown
    );
    playback.can_pause = true;
    playback.can_seek = true;
    assert_eq!(
        on_mirror_poll(&mut queue, &mut status, playback, true, None),
        AfterMirrorPoll::PhotoBegins
    );
    assert!(!status.playback.can_pause && !status.playback.can_seek);
    assert_eq!(
        on_mirror_poll(&mut queue, &mut status, playback, true, Some(7_999)),
        AfterMirrorPoll::Shown
    );
    assert_eq!(
        on_mirror_poll(&mut queue, &mut status, playback, true, Some(8_000)),
        AfterMirrorPoll::StopAndNext
    );
    assert_eq!(queue.current(false).unwrap().0, 1);
    assert_eq!(
        on_mirror_poll(&mut queue, &mut status, playback, false, Some(9_000)),
        AfterMirrorPoll::Shown
    );
    assert!(status.playback.can_pause);
    on_mirror_control(&mut status, Some("no".into()));
    assert_eq!(status.control_error.as_deref(), Some("no"));
    assert_eq!(
        on_mirror_command(&mut queue, &mut status, Some(&MediaCommand::TogglePause)),
        AfterMirrorCommand::Control
    );
    assert_eq!(
        on_mirror_command(&mut queue, &mut status, None),
        AfterMirrorCommand::StopAndFinish
    );
    assert!(!is_photo(&fixture("a.mp4")));
}

#[test]
fn paths_are_compared_by_their_components() {
    assert!(same_path("/a//b/./c.mp4", "/a/b/c.mp4/"));
    assert!(!same_path("./a.mp4", "a.mp4"));
    assert!(!same_path("/a.mp4", "a.mp4"));
    assert!(!same_path("/a/../b", "/b"));
    assert!(same_path("", ""));
    assert!(same_path("//", "/"));
    assert!(same_path("./x", ".//x"));
}
