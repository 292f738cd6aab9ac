use nezumi_ai_core::{clean_assistant_output, strip_template_tags, strip_thinking_tags};

#[test]
fn strip_template_tags_removes_tags_and_end_marker() {
    let raw = "<start_of_turn>model\nHello<end_of_turn>\n<start_of_turn>user\nIgnored";
    let cleaned = strip_template_tags(raw);
    assert_eq!(cleaned, "Hello");
}

#[test]
fn strip_thinking_tags_removes_thinking_block() {
    let raw = "<think>\nfoo\n</think>\nHello";
    let cleaned = strip_thinking_tags(raw);
    assert_eq!(cleaned.trim(), "Hello");
}

#[test]
fn chatml_markers_are_removed() {
    let raw = "<|im_start|>assistant\nSure thing.<|im_end|>\n<|im_start|>user\nnext";
    assert_eq!(strip_template_tags(raw), "Sure thing.");
}

#[test]
fn end_of_turn_wins_over_im_end() {
    assert_eq!(strip_template_tags("a<|im_end|>b<end_of_turn>c"), "a<|im_end|>b");
}

#[test]
fn header_without_line_break_cuts_the_rest() {
    assert_eq!(strip_template_tags("keep<start_of_turn>model"), "keep");
}

#[test]
fn several_thinking_blocks() {
    assert_eq!(strip_thinking_tags("a<think>1</think>b<think>2</think>c"), "abc");
}

#[test]
fn unclosed_thinking_cuts_the_rest() {
    assert_eq!(strip_thinking_tags("answer<think>never closed"), "answer");
}

#[test]
fn clean_output_of_a_full_answer() {
    let raw = "<start_of_turn>model\n<think>\nlet me see\n</think>\n  The answer is 4.  <end_of_turn>";
    assert_eq!(clean_assistant_output(raw), "The answer is 4.");
}

#[test]
fn clean_output_is_trimmed_and_free_of_think_tags() {
    for raw in ["  \u{3000}x\u{2003} ", "<think>", "a <think> b", "\n\n", "<think>a</think><think>b"] {
        let c = clean_assistant_output(raw);
        assert_eq!(c, c.trim());
        assert!(!c.contains("<think>"));
    }
    assert_eq!(clean_assistant_output("  \u{3000}x\u{2003} "), "x");
}

#[test]
fn strip_thinking_twice_changes_nothing() {
    for raw in ["a<think>1</think>b", "<thi<think>x</think>nk>y", "plain"] {
        let once = strip_thinking_tags(raw);
        assert_eq!(strip_thinking_tags(&once), once);
    }
}
