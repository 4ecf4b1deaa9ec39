use line_gtk::diagnostics::{codec_rows, engine_rows, first_line, program_version};
use line_gtk::i18n::I18n;
use line_gtk::sidecar::SidecarStatus;

fn table() -> Option<I18n> {
    Some(I18n::load(
        Some(r#"{"diagnostics_not_found": "not found", "diagnostics_running": "running", "diagnostics_stopped": "stopped"}"#),
        None,
    ))
}

#[test]
fn the_first_line_is_what_lines_gives() {
    assert_eq!(first_line(""), None);
    assert_eq!(first_line("ffmpeg version 6.1\nbuilt with gcc").as_deref(), Some("ffmpeg version 6.1"));
    assert_eq!(first_line("v1\r\nmore").as_deref(), Some("v1"));
    assert_eq!(first_line("\nsecond").as_deref(), Some(""));
    assert_eq!(first_line("only\r").as_deref(), Some("only\r"));
    for s in ["a", "a\nb", "\r\n", "x\r\ny", "\n"] {
        assert_eq!(first_line(s).as_deref(), s.lines().next());
    }
}

#[test]
fn program_versions_or_not_found() {
    let t = table();
    assert_eq!(program_version(&t, Some("pdftoppm 23.02\n")), "pdftoppm 23.02");
    assert_eq!(program_version(&t, Some("")), "not found");
    assert_eq!(program_version(&t, None), "not found");
}

#[test]
fn codecs_are_found_in_the_decoder_list() {
    let list = " V....D h264                 H.264\n A....D libopus              Opus\n";
    let rows = codec_rows(Some(list));
    assert_eq!(
        rows,
        vec![("H.264", true), ("H.265/HEVC", false), ("VP9", false), ("AV1", false), ("Opus", true)]
    );
    assert!(codec_rows(None).iter().all(|r| !r.1));
}

#[test]
fn the_engine_rows() {
    let t = table();
    let r = engine_rows(&t, &SidecarStatus { runtime: "deno", running: true, pid: Some(4242), pending_requests: 3 });
    assert_eq!(r.status, "running");
    assert_eq!(r.runtime, "deno");
    assert_eq!(r.pid, "4242");
    assert_eq!(r.pending, "3");
    let r = engine_rows(&t, &SidecarStatus { runtime: "binary", running: false, pid: None, pending_requests: 0 });
    assert_eq!(r.status, "stopped");
    assert_eq!(r.pid, "—");
}
