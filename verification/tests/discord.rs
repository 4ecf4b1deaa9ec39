use line_gtk::discord::{
    activity_assets, configure_command, connect_finished, discord_app_id, handle_cmd, initial_worker_state,
    plan_step, publish_finished, Cmd, DiscordRpc, Plan, Presence, DEFAULT_APP_ID,
};

fn presence(details: &str) -> Presence {
    Presence {
        details: details.to_string(),
        state: "Chatting".to_string(),
        start_unix: Some(1),
        small_image: None,
        small_text: Some(String::new()),
        large_image: Some("line".to_string()),
        large_text: None,
    }
}

#[test]
fn posts_commands_to_the_worker() {
    let (tx, rx) = std::sync::mpsc::channel();
    let mut rpc = DiscordRpc::from_sender(tx);
    rpc.configure(true, "  123  ");
    rpc.set(presence("x"));
    rpc.clear();
    rpc.shutdown();
    let got: Vec<Cmd> = rx.try_iter().collect();
    assert_eq!(got.len(), 4);
    assert!(matches!(&got[0], Cmd::Configure { enabled: true, app_id } if app_id == "123"));
    assert!(matches!(&got[1], Cmd::Show(p) if p.details == "x"));
    assert!(matches!(got[2], Cmd::Clear));
    assert!(matches!(got[3], Cmd::Shutdown));
}

#[test]
fn configure_trims_the_id() {
    assert!(matches!(configure_command(false, " a b "), Cmd::Configure { enabled: false, app_id } if app_id == "a b"));
}

#[test]
fn worker_connects_publishes_and_skips_repeats() {
    let mut s = initial_worker_state();
    assert!(matches!(plan_step(&mut s, false), Plan::Wait));
    handle_cmd(&mut s, Cmd::Configure { enabled: true, app_id: "42".to_string() });
    handle_cmd(&mut s, Cmd::Show(presence("a")));
    assert!(matches!(plan_step(&mut s, false), Plan::Connect));
    assert!(connect_finished(&mut s, true));
    publish_finished(&mut s, true);
    assert!(matches!(plan_step(&mut s, false), Plan::Wait));
    handle_cmd(&mut s, Cmd::Show(presence("a")));
    assert!(matches!(plan_step(&mut s, false), Plan::Wait));
    handle_cmd(&mut s, Cmd::Show(presence("b")));
    assert!(matches!(plan_step(&mut s, false), Plan::Publish));
    publish_finished(&mut s, false);
    assert!(!s.connected);
    let eff = handle_cmd(&mut s, Cmd::Configure { enabled: false, app_id: "42".to_string() });
    assert!(!eff.disconnect);
    assert!(matches!(plan_step(&mut s, true), Plan::Wait));
    let eff = handle_cmd(&mut s, Cmd::Shutdown);
    assert!(eff.exit);
}

#[test]
fn disabling_disconnects() {
    let mut s = initial_worker_state();
    handle_cmd(&mut s, Cmd::Configure { enabled: true, app_id: "1".to_string() });
    connect_finished(&mut s, true);
    let eff = handle_cmd(&mut s, Cmd::Configure { enabled: false, app_id: "1".to_string() });
    assert!(eff.disconnect);
    assert!(!s.connected);
}

#[test]
fn keeps_only_non_empty_assets() {
    let a = activity_assets(&presence("x")).unwrap();
    assert_eq!(a.large_image.as_deref(), Some("line"));
    assert_eq!(a.small_text, None);
    let mut bare = presence("x");
    bare.large_image = None;
    assert!(activity_assets(&bare).is_none());
}

#[test]
fn chooses_the_application_id() {
    assert_eq!(discord_app_id(" 77 ", Some("88")), "77");
    assert_eq!(discord_app_id("", Some(" 88 ")), "88");
    assert_eq!(discord_app_id("  ", Some("  ")), DEFAULT_APP_ID);
    assert_eq!(discord_app_id("", None), DEFAULT_APP_ID);
}
