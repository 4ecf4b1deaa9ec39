use line_gtk::i18n::I18n;
use line_gtk::looks::{
    call_mic_button, call_speaker_button, call_window_rows, chat_mute_button, chat_pin_button, CallWindowMode,
};

fn table() -> Option<I18n> {
    Some(I18n::load(
        Some(r#"{"unmute_chat": "Unmute", "mute_chat": "Mute", "unpin_chat": "Unpin", "pin_chat": "Pin", "call_unmute_mic": "Mic on", "call_mute_mic": "Mic off", "call_undeafen": "Sound on", "call_deafen": "Sound off"}"#),
        None,
    ))
}

#[test]
fn toggle_buttons_show_what_a_press_does() {
    let t = table();
    let l = chat_mute_button(&t, true);
    assert_eq!((l.icon, l.tooltip.as_str()), ("audio-volume-muted-symbolic", "Unmute"));
    let l = chat_mute_button(&t, false);
    assert_eq!((l.icon, l.tooltip.as_str()), ("audio-volume-high-symbolic", "Mute"));
    let l = chat_pin_button(&t, true);
    assert_eq!((l.icon, l.tooltip.as_str()), ("starred-symbolic", "Unpin"));
    let l = chat_pin_button(&t, false);
    assert_eq!((l.icon, l.tooltip.as_str()), ("non-starred-symbolic", "Pin"));
    let l = call_mic_button(&t, true);
    assert_eq!((l.icon, l.tooltip.as_str()), ("microphone-sensitivity-muted-symbolic", "Mic on"));
    let l = call_mic_button(&t, false);
    assert_eq!((l.icon, l.tooltip.as_str()), ("microphone-sensitivity-high-symbolic", "Mic off"));
    let l = call_speaker_button(&t, true);
    assert_eq!((l.icon, l.tooltip.as_str()), ("audio-volume-muted-symbolic", "Sound on"));
    let l = call_speaker_button(&t, false);
    assert_eq!((l.icon, l.tooltip.as_str()), ("audio-volume-high-symbolic", "Sound off"));
}

#[test]
fn the_call_window_rows_follow_the_mode() {
    assert_eq!(call_window_rows(CallWindowMode::Outgoing), (true, false, false));
    assert_eq!(call_window_rows(CallWindowMode::Incoming), (false, true, false));
    assert_eq!(call_window_rows(CallWindowMode::Connected), (true, false, true));
}
