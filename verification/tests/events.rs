use line_gtk::events::{
    call_error_text, call_state_plan, call_timer_text, canceled_call_closes, chats_progress, failure_plan,
    incoming_plan, message_peer, messages_progress, on_ready, peer_chat_kind, reconnecting_text, recovery_step,
    sender_label, session_failure_text, should_recover, CallPlan, Pane, PendingKind, ReadyPlan, RecoveryPlan,
};
use line_gtk::i18n::I18n;
use line_gtk::protocol::{FlexAction, MessageInfo};
use line_gtk::events::{flex_action_plan, jump_banner_text, FlexPlan};
use line_gtk::events::{apply_media_paths, media_failed_plan, media_ready_plan, mute_toast, record_download, MediaStep};
use line_gtk::events::{answer_step, call_progress_text, check_call_start, AnswerStep};
use line_gtk::events::{check_media_download, media_action_of, MediaAction};
use line_gtk::events::{auth_token_present, self_profile_view};
use line_gtk::protocol::Profile;

fn table() -> Option<I18n> {
    Some(I18n::load(
        Some(r#"{"you": "You", "they": "They", "logged_out_hint": "Signed out", "call_failed": "Call failed: {error}", "call_ended": "Call ended", "no_chats": "No chats", "status_no_chats": "Nothing here", "refreshing_chats": "Refreshing", "profile_check_failed": "Lookup failed: {error}", "sticker_not_owned": "Buy it first", "protocol_reconnecting": "Reconnecting ({attempt})"}"#),
        None,
    ))
}

fn msg(chat_mid: &str, from: &str, to: &str, mine: bool) -> MessageInfo {
    MessageInfo {
        id: "1".to_string(),
        text: String::new(),
        from: from.to_string(),
        to: to.to_string(),
        chat_mid: chat_mid.to_string(),
        sender_name: String::new(),
        mine,
        created_time: 0,
        content_type: "TEXT".to_string(),
        image_path: None,
        image_url: None,
        audio_path: None,
        file_name: None,
        file_path: None,
        duration_ms: None,
        flex: None,
    }
}

#[test]
fn ready_restores_or_asks_for_a_qr_code() {
    let mut restarting = false;
    assert_eq!(on_ready(&mut restarting, true), ReadyPlan::ShowRestoring);
    assert_eq!(on_ready(&mut restarting, false), ReadyPlan::RequestQr);
    let mut restarting = true;
    assert_eq!(on_ready(&mut restarting, true), ReadyPlan::RequestQr);
    assert!(!restarting);
}

#[test]
fn explains_session_failures() {
    let t = table();
    assert_eq!(session_failure_text(&t, "E: V3_TOKEN_CLIENT_LOGGED_OUT"), "Signed out");
    assert_eq!(session_failure_text(&t, "timeout"), "timeout");
    assert_eq!(session_failure_text(&None, "relogin_android_required!"), "relogin_android_required");
}

#[test]
fn finds_the_conversation_of_a_message() {
    assert_eq!(message_peer(&msg("c1", "u1", "u2", false)), "c1");
    assert_eq!(message_peer(&msg("", "u1", "u2", true)), "u2");
    assert_eq!(message_peer(&msg("", "u1", "u2", false)), "u1");
    assert_eq!(peer_chat_kind("m123"), "openchat");
    assert_eq!(peer_chat_kind("c123"), "group");
    assert_eq!(peer_chat_kind("u123"), "dm");
    assert_eq!(peer_chat_kind(""), "dm");
    let t = table();
    assert_eq!(sender_label(&t, &msg("", "u1", "u2", true)), "You");
    let mut m = msg("", "u1", "u2", false);
    assert_eq!(sender_label(&t, &m), "They");
    m.sender_name = "Ann".to_string();
    assert_eq!(sender_label(&t, &m), "Ann");
}

#[test]
fn alerts_only_when_the_chat_is_not_in_view() {
    let quiet = incoming_plan(true, true, true, false);
    assert!(quiet.append && quiet.follow && quiet.mark_read && !quiet.notify && !quiet.bump_unread);
    let unfocused = incoming_plan(true, false, true, false);
    assert!(unfocused.notify && unfocused.bump_unread && !unfocused.mark_read);
    let scrolled = incoming_plan(true, true, false, false);
    assert!(scrolled.new_marker && scrolled.count_below && scrolled.notify && !scrolled.follow);
    let elsewhere = incoming_plan(false, true, true, false);
    assert!(!elsewhere.append && elsewhere.notify && elsewhere.bump_unread);
    let own = incoming_plan(false, false, false, true);
    assert!(!own.notify && !own.bump_unread && !own.mark_read);
    let own_open = incoming_plan(true, false, false, true);
    assert!(own_open.append && !own_open.new_marker && !own_open.count_below && !own_open.notify);
}

#[test]
fn chat_list_progress() {
    let t = table();
    let p = chats_progress(&t, "loading", None, true);
    assert_eq!(p.spinner, Some(true));
    assert_eq!(p.pane, Some(Pane::Loading));
    assert_eq!(p.status.as_deref(), Some("Refreshing"));
    let p = chats_progress(&t, "ready", None, false);
    assert_eq!(p.pane, Some(Pane::List));
    let p = chats_progress(&t, "empty", None, true);
    assert_eq!(p.empty_text.as_deref(), Some("No chats"));
    let p = chats_progress(&t, "error", None, true);
    assert_eq!(p.toast.as_deref(), Some("Failed to load chats"));
    let p = chats_progress(&t, "weird", Some("x"), true);
    assert!(p.spinner.is_none() && p.pane.is_none() && p.toast.is_none());
}

#[test]
fn message_progress_only_for_the_open_chat() {
    let t = table();
    let p = messages_progress(&t, Some("a"), Some("b"), "error", Some("boom"), false);
    assert!(p.pane.is_none() && p.toast.is_none());
    let p = messages_progress(&t, Some("a"), Some("a"), "error", Some("boom"), false);
    assert_eq!(p.pane, Some(Pane::Empty));
    assert_eq!(p.toast.as_deref(), Some("boom"));
    let p = messages_progress(&t, Some("a"), Some("a"), "empty", None, true);
    assert!(p.pane.is_none());
    let p = messages_progress(&t, None, None, "loading", None, false);
    assert_eq!(p.pane, Some(Pane::Loading));
}

#[test]
fn reacts_to_failed_requests() {
    let t = table();
    let p = failure_plan(&t, Some(PendingKind::Login), true, Some("x"));
    assert!(p.ignore);
    let p = failure_plan(&t, Some(PendingKind::Login), false, None);
    assert_eq!(p.login_text.as_deref(), Some("Login failed. Tap Retry to start over."));
    assert_eq!(p.toast.as_deref(), Some("request failed"));
    let p = failure_plan(&t, Some(PendingKind::ProfileLookup), false, Some("nope"));
    assert_eq!(p.profile.as_ref().map(|(s, add)| (s.as_str(), *add)), Some(("Lookup failed: nope", false)));
    let p = failure_plan(&t, None, false, Some("USER_NOT_STICKER_OWNER"));
    assert_eq!(p.toast.as_deref(), Some("Buy it first"));
    let p = failure_plan(&t, Some(PendingKind::CallScreenStop), false, None);
    assert_eq!(p.screen_sharing, Some(true));
    let p = failure_plan(&t, Some(PendingKind::Send), false, None);
    assert!(p.drop_placeholder);
}

#[test]
fn gives_up_after_three_restarts() {
    let mut attempts = 0u8;
    assert_eq!(recovery_step(&mut attempts), RecoveryPlan::Retry { attempt: 1, delay_secs: 1 });
    assert_eq!(recovery_step(&mut attempts), RecoveryPlan::Retry { attempt: 2, delay_secs: 2 });
    assert_eq!(recovery_step(&mut attempts), RecoveryPlan::Retry { attempt: 3, delay_secs: 4 });
    assert_eq!(recovery_step(&mut attempts), RecoveryPlan::GiveUp);
    assert_eq!(attempts, 3);
    assert!(should_recover(false));
    assert!(!should_recover(true));
    assert_eq!(reconnecting_text(&table(), 2), "Reconnecting (2)");
}

#[test]
fn plans_call_states() {
    let t = table();
    assert!(matches!(call_state_plan(&t, false, "ringing", None), CallPlan::EndLocked));
    assert!(matches!(call_state_plan(&t, false, "ended", None), CallPlan::Ended(_)));
    assert!(matches!(call_state_plan(&t, true, "starting", None), CallPlan::Outgoing));
    assert!(matches!(call_state_plan(&t, true, "connected", None), CallPlan::Connected));
    assert!(matches!(call_state_plan(&t, true, "connecting", None), CallPlan::Nothing));
    match call_state_plan(&t, true, "failed", Some("opus")) {
        CallPlan::Failed(s) => assert_eq!(s, "Call failed: opus"),
        _ => panic!("expected a failure"),
    }
    match call_state_plan(&t, true, "failed", None) {
        CallPlan::Failed(s) => assert_eq!(s, "Call failed: call failed"),
        _ => panic!("expected a failure"),
    }
    assert_eq!(call_error_text(&t, "DESKTOPWIN x"), "Call failed: DESKTOPWIN x");
    assert_eq!(canceled_call_closes(Some("u1"), None, "u1"), (true, true));
    assert_eq!(canceled_call_closes(None, Some("u1"), "u1"), (false, true));
    assert_eq!(canceled_call_closes(Some("u2"), Some("u3"), "u1"), (false, false));
    assert_eq!(call_timer_text(0), "00:00");
    assert_eq!(call_timer_text(75), "01:15");
    assert_eq!(call_timer_text(6005), "100:05");
}

#[test]
fn flex_buttons_open_send_or_post_back() {
    let link = FlexAction { label: "Site".into(), kind: "URI".into(), data: None, uri: Some("https://x".into()) };
    assert!(matches!(flex_action_plan(&link), FlexPlan::OpenUri(u) if u == "https://x"));
    let broken_link = FlexAction { label: "Site".into(), kind: "url".into(), data: None, uri: None };
    assert!(matches!(flex_action_plan(&broken_link), FlexPlan::Postback { data, uri: None } if data == "Site"));
    let say = FlexAction { label: "Yes".into(), kind: "message".into(), data: Some("yes please".into()), uri: None };
    assert!(matches!(flex_action_plan(&say), FlexPlan::SendText(t) if t == "yes please"));
    let post = FlexAction { label: "Buy".into(), kind: "postback".into(), data: Some("id=1".into()), uri: Some("u".into()) };
    assert!(matches!(flex_action_plan(&post), FlexPlan::Postback { data, uri: Some(u) } if data == "id=1" && u == "u"));
}

#[test]
fn jump_banner_counts_new_messages() {
    let t = Some(I18n::load(Some(r#"{"jump_new_one": "1 new message", "jump_new_n": "{n} new messages"}"#), None));
    assert_eq!(jump_banner_text(&t, 0, false), None);
    assert_eq!(jump_banner_text(&t, 3, true), None);
    assert_eq!(jump_banner_text(&t, 1, false).as_deref(), Some("1 new message"));
    assert_eq!(jump_banner_text(&t, 12, false).as_deref(), Some("12 new messages"));
}

#[test]
fn media_ready_reports_attach_queue_or_fail() {
    let p = media_ready_plan(false, "/m/1.jpg", true, &None, false);
    assert!(p.remember);
    assert_eq!(p.step, MediaStep::Nothing);
    let p = media_ready_plan(true, "/m/1.jpg", true, &None, false);
    assert_eq!(p.step, MediaStep::Queue("/m/1.jpg".to_string()));
    let p = media_ready_plan(true, "", false, &None, false);
    assert!(!p.remember);
    assert_eq!(p.step, MediaStep::MarkFailed);
    let p = media_ready_plan(true, "/m/1.jpg", false, &None, false);
    assert!(!p.remember);
    assert_eq!(p.step, MediaStep::MarkFailed);
    let voice = Some("/m/1.m4a".to_string());
    assert_eq!(media_ready_plan(true, "", false, &voice, true).step, MediaStep::AttachAudio("/m/1.m4a".to_string()));
    assert_eq!(media_ready_plan(true, "/m/1.jpg", true, &voice, false).step, MediaStep::Nothing);
}

#[test]
fn media_failed_reports_fall_back_to_a_ready_file() {
    let ready = Some("/m/2.jpg".to_string());
    assert_eq!(media_failed_plan(false, &ready, true), MediaStep::Nothing);
    assert_eq!(media_failed_plan(true, &ready, true), MediaStep::Queue("/m/2.jpg".to_string()));
    assert_eq!(media_failed_plan(true, &ready, false), MediaStep::MarkFailed);
    assert_eq!(media_failed_plan(true, &None, true), MediaStep::MarkFailed);
}

#[test]
fn media_paths_are_recorded_on_the_message() {
    let mut m = msg("c", "u1", "u2", false);
    m.image_path = Some("/old.jpg".to_string());
    apply_media_paths(&mut m, "", &Some("/v.m4a".to_string()), &None);
    assert_eq!(m.image_path.as_deref(), Some("/old.jpg"));
    assert_eq!(m.audio_path.as_deref(), Some("/v.m4a"));
    assert_eq!(m.file_path, None);
    apply_media_paths(&mut m, "/new.jpg", &None, &Some("/f.bin".to_string()));
    assert_eq!(m.image_path.as_deref(), Some("/new.jpg"));
    assert_eq!(m.file_path.as_deref(), Some("/f.bin"));

    let mut d = msg("c", "u1", "u2", false);
    record_download(&mut d, "Image", "/d/1.jpg");
    assert_eq!(d.file_path.as_deref(), Some("/d/1.jpg"));
    assert_eq!(d.image_path.as_deref(), Some("/d/1.jpg"));
    assert_eq!(d.audio_path, None);
    let mut a = msg("c", "u1", "u2", false);
    record_download(&mut a, "AUDIO", "/d/2.m4a");
    assert_eq!(a.audio_path.as_deref(), Some("/d/2.m4a"));
    assert_eq!(a.image_path, None);
    let mut f = msg("c", "u1", "u2", false);
    record_download(&mut f, "FILE", "/d/3.pdf");
    assert_eq!(f.file_path.as_deref(), Some("/d/3.pdf"));
    assert_eq!(f.image_path, None);
    assert_eq!(f.audio_path, None);
}

#[test]
fn muting_is_announced() {
    let t = Some(I18n::load(Some(r#"{"chat_muted": "Muted", "chat_unmuted": "Unmuted"}"#), None));
    assert_eq!(mute_toast(&t, true), "Muted");
    assert_eq!(mute_toast(&t, false), "Unmuted");
}

#[test]
fn placing_and_answering_calls() {
    let t = Some(I18n::load(
        Some(r#"{"call_experimental_toast": "Calls are off", "select_chat_first": "Pick a chat", "voice_call_unavailable": "No calls here", "call_already_active": "Busy", "call_no_incoming": "Nobody calls", "call_calling": "Calling {name}…", "call_answering": "Answering {name}…"}"#),
        None,
    ));
    let u = Some("u1".to_string());
    assert_eq!(check_call_start(&t, false, &u, false), Err("Calls are off".to_string()));
    assert_eq!(check_call_start(&t, true, &None, false), Err("Pick a chat".to_string()));
    assert_eq!(check_call_start(&t, true, &Some("c2".to_string()), false), Err("No calls here".to_string()));
    assert_eq!(check_call_start(&t, true, &u, true), Err("Busy".to_string()));
    assert_eq!(check_call_start(&t, true, &u, false), Ok("u1".to_string()));

    assert!(matches!(answer_step(&t, false, &u, false), AnswerStep::Decline(m) if m == "Calls are off"));
    assert!(matches!(answer_step(&t, true, &None, false), AnswerStep::Refuse(m) if m == "Nobody calls"));
    assert!(matches!(answer_step(&t, true, &u, true), AnswerStep::Refuse(m) if m == "Busy"));
    assert!(matches!(answer_step(&t, true, &u, false), AnswerStep::Answer(p) if p == "u1"));

    assert_eq!(call_progress_text(&t, false, "Ann"), "Calling Ann…");
    assert_eq!(call_progress_text(&t, true, "Ann"), "Answering Ann…");
}

#[test]
fn media_requests_name_their_action() {
    assert_eq!(media_action_of("open_viewer"), MediaAction::OpenViewer);
    assert_eq!(media_action_of("play_audio"), MediaAction::PlayAudio);
    assert_eq!(media_action_of("save_dialog"), MediaAction::SaveDialog);
    assert_eq!(media_action_of("anything"), MediaAction::SaveDialog);
}

#[test]
fn media_downloads_need_a_chat_and_an_id() {
    let t = Some(I18n::load(Some(r#"{"select_chat_first": "Pick a chat", "media_download_failed": "Download failed"}"#), None));
    assert_eq!(check_media_download(&t, &None, "5"), Err("Pick a chat".to_string()));
    assert_eq!(check_media_download(&t, &Some("u1".to_string()), ""), Err("Download failed".to_string()));
    assert_eq!(check_media_download(&t, &Some("u1".to_string()), "5"), Ok("u1".to_string()));
}

#[test]
fn a_saved_session_needs_a_token() {
    assert!(!auth_token_present(None));
    assert!(!auth_token_present(Some(" \n")));
    assert!(auth_token_present(Some("abc\n")));
}

#[test]
fn the_header_shows_the_account() {
    let mut p = Profile {
        mid: "u1".to_string(),
        display_name: "Me".to_string(),
        status_message: String::new(),
        picture_path: Some("/p.jpg".to_string()),
        avatar_path: None,
        picture_url: None,
    };
    assert_eq!(self_profile_view(&p), (Some("/p.jpg".to_string()), None));
    p.picture_url = Some("https://x/p".to_string());
    p.status_message = "hi".to_string();
    assert_eq!(self_profile_view(&p), (Some("https://x/p".to_string()), Some("hi".to_string())));
}

#[test]
fn an_answer_takes_its_own_request() {
    let mut book = line_gtk::events::PendingBook::new();
    book.insert(1, PendingKind::Login);
    book.insert(2, PendingKind::ListChats);
    book.insert(1, PendingKind::FetchMessages);
    assert_eq!(book.take(2), Some(PendingKind::ListChats));
    assert_eq!(book.take(2), None);
    assert_eq!(book.take(1), Some(PendingKind::FetchMessages));
    assert_eq!(book.take(7), None);
}
