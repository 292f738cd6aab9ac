use nezumi_ai_core::cli::stream_output::drain_displayable;

#[test]
fn strips_thinking_when_hidden() {
    let mut buf = "<think>\nsecret\n</think>\nHi".to_string();
    let out = drain_displayable(&mut buf, false);
    assert_eq!(out.trim(), "Hi");
    assert!(buf.is_empty());
}

#[test]
fn waits_for_incomplete_tag() {
    let mut buf = "Hello<redacted_think".to_string();
    let out = drain_displayable(&mut buf, false);
    assert_eq!(out, "Hello");
    assert_eq!(buf, "<redacted_think");
}

#[test]
fn shows_thinking_dimmed_when_asked() {
    let mut buf = "<think>  idea  </think>Answer".to_string();
    let out = drain_displayable(&mut buf, true);
    assert_eq!(out, "\x1b[2m[思考] idea\x1b[0m\nAnswer");
    assert!(buf.is_empty());
}

#[test]
fn blank_thinking_is_not_shown() {
    let mut buf = "<think> \n </think>ok".to_string();
    let out = drain_displayable(&mut buf, true);
    assert_eq!(out, "ok");
}

#[test]
fn unclosed_thinking_waits() {
    let mut buf = "<think>still going".to_string();
    let out = drain_displayable(&mut buf, true);
    assert_eq!(out, "");
    assert_eq!(buf, "<think>still going");
}

#[test]
fn turn_headers_are_dropped() {
    let mut buf = "<start_of_turn>model\nHi<start_of_turn>other role\nthere".to_string();
    let out = drain_displayable(&mut buf, false);
    // A header is dropped with its line wherever it stands.
    assert_eq!(out, "Hithere");
    assert!(buf.is_empty());
}

#[test]
fn turn_header_waits_for_its_line_break() {
    for show in [false, true] {
        let mut buf = "<start_of_turn>model".to_string();
        let out = drain_displayable(&mut buf, show);
        assert_eq!(out, "");
        assert_eq!(buf, "<start_of_turn>model");
    }
    let mut buf = "Hi<start_of_turn>mod".to_string();
    let out = drain_displayable(&mut buf, false);
    assert_eq!(out, "Hi");
    assert_eq!(buf, "<start_of_turn>mod");
}

#[test]
fn streamed_turn_header_is_never_shown() {
    let mut buf = String::new();
    let mut shown = String::new();
    for piece in ["<start_of_turn>", "model", "\n", "Hello"] {
        buf.push_str(piece);
        shown.push_str(&drain_displayable(&mut buf, false));
    }
    assert_eq!(shown, "Hello");
    assert!(buf.is_empty());
}

#[test]
fn thinking_is_hidden_wherever_it_starts() {
    let mut buf = "x<think>secret</think>y".to_string();
    assert_eq!(drain_displayable(&mut buf, false), "xy");
    assert!(buf.is_empty());
    let mut buf = "x<think>idea</think>y".to_string();
    assert_eq!(drain_displayable(&mut buf, true), "x\x1b[2m[思考] idea\x1b[0m\ny");
}

#[test]
fn second_drain_changes_nothing() {
    for start in ["ab<think>un", "x<start_of_turn>mo", "a<b>c<d", "plain", "<start_of_t"] {
        for show in [false, true] {
            let mut buf = start.to_string();
            drain_displayable(&mut buf, show);
            let left = buf.clone();
            assert_eq!(drain_displayable(&mut buf, show), "");
            assert_eq!(buf, left);
        }
    }
}

#[test]
fn unknown_tags_are_dropped() {
    let mut buf = "a<b>c<d".to_string();
    let out = drain_displayable(&mut buf, false);
    assert_eq!(out, "ac");
    assert_eq!(buf, "<d");
}

#[test]
fn plain_text_passes_through() {
    let mut buf = "no tags here, 日本語".to_string();
    let out = drain_displayable(&mut buf, false);
    assert_eq!(out, "no tags here, 日本語");
    assert!(buf.is_empty());
}

#[test]
fn streamed_pieces_join_up() {
    let mut buf = String::new();
    let mut shown = String::new();
    for piece in ["Hel", "lo <thi", "nk>x</th", "ink> world"] {
        buf.push_str(piece);
        shown.push_str(&drain_displayable(&mut buf, false));
    }
    assert_eq!(shown, "Hello  world");
    assert!(buf.is_empty());
}
