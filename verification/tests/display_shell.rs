use ai_engine::display::render_token;
use ai_engine::meta::Which;
use ai_engine::session::frame_turn_input;
use ai_engine::shell::{line_flags_error, plan_cd, shell_prompt, CdTarget};
use ai_engine::sizefmt::format_size;
use ai_engine::stopping::should_stop;

fn chars(s: &str) -> Vec<char> {
    s.chars().collect()
}

#[test]
fn placeholder_becomes_space() {
    let out = render_token(&chars("\u{2581}Hello")).unwrap();
    assert_eq!(out, chars(" Hello"));
}

#[test]
fn newline_escape_is_decoded() {
    let out = render_token(&chars("<0x0A>")).unwrap();
    assert_eq!(out, vec!['\n']);
}

#[test]
fn printable_escape_is_decoded() {
    let out = render_token(&chars("<0x41>")).unwrap();
    assert_eq!(out, vec!['A']);
}

#[test]
fn non_ascii_escape_is_suppressed() {
    assert_eq!(render_token(&chars("<0xFF>")), None);
}

#[test]
fn malformed_escape_passes_through() {
    let out = render_token(&chars("<0x4G>")).unwrap();
    assert_eq!(out, chars("<0x4G>"));
}

#[test]
fn format_size_exact_values() {
    assert_eq!(format_size(999), "999B");
    assert_eq!(format_size(1000), "1.00KB");
    assert_eq!(format_size(1500), "1.50KB");
    assert_eq!(format_size(999999), "1000.00KB");
    assert_eq!(format_size(2500000), "2.50MB");
    assert_eq!(format_size(3200000000), "3.20GB");
}

#[test]
fn mistral_variants_are_flagged() {
    assert!(Which::Mistral7b.is_mistral());
    assert!(Which::Mistral7bInstruct.is_mistral());
    assert!(!Which::L7b.is_mistral());
    assert!(!Which::L70bChat.is_mistral());
    assert!(!Which::L34bCode.is_mistral());
    assert!(!Which::RiftSolver.is_mistral());
}

#[test]
fn provisioning_tables_name_the_repositories() {
    assert_eq!(Which::Mistral7b.tokenizer_repo(), "mistralai/Mistral-7B-v0.1");
    assert_eq!(Which::L7bChat.tokenizer_repo(), "hf-internal-testing/llama-tokenizer");
    assert_eq!(
        Which::L7bChat.model_source(),
        ("TheBloke/Llama-2-7B-Chat-GGML", "llama-2-7b-chat.ggmlv3.q4_0.bin")
    );
    assert_eq!(
        Which::Mistral7bInstruct.model_source(),
        (
            "TheBloke/Mistral-7B-Instruct-v0.1-GGUF",
            "mistral-7b-instruct-v0.1.Q4_K_S.gguf"
        )
    );
    assert_eq!(Which::L70b.default_gqa(), 8);
    assert_eq!(Which::Mistral7b.default_gqa(), 8);
    assert_eq!(Which::L7b.default_gqa(), 1);
}

#[test]
fn stopping_policy_cases() {
    // End-of-sequence stops regardless of budget; otherwise the turn stops
    // once sample_len tokens (the forced first one included) are emitted.
    assert!(should_stop(4, 0, 100, 4));
    assert!(!should_stop(3, 0, 100, 4));
    assert!(!should_stop(3, 3, 5, 4));
    assert!(should_stop(3, 4, 5, 4));
    assert!(should_stop(3, 7, 5, 4));
}

#[test]
fn instruction_framing_wraps_only_when_asked() {
    assert_eq!(frame_turn_input(&chars("hi"), true), chars("[INST] hi [/INST]"));
    assert_eq!(frame_turn_input(&chars("hi"), false), chars("hi"));
}

#[test]
fn error_lines_are_flagged_case_insensitively() {
    assert!(line_flags_error("Error: something broke"));
    assert!(line_flags_error("ERROR"));
    assert!(line_flags_error("an eRrOr in the middle"));
    assert!(!line_flags_error("all fine here"));
    assert!(!line_flags_error("err"));
}

#[test]
fn cd_decisions() {
    let args = |v: &[&str]| -> Vec<String> { v.iter().map(|s| s.to_string()).collect() };

    let d = plan_cd(&args(&["cd"]));
    assert!(!d.too_many_args);
    assert!(matches!(d.target, CdTarget::Home));

    let d = plan_cd(&args(&["cd", ""]));
    assert!(matches!(d.target, CdTarget::Home));

    let d = plan_cd(&args(&["cd", "~"]));
    assert!(matches!(d.target, CdTarget::Home));

    let d = plan_cd(&args(&["cd", "/tmp"]));
    assert!(!d.too_many_args);
    match d.target {
        CdTarget::Path(p) => assert_eq!(p, "/tmp"),
        CdTarget::Home => panic!("expected a path"),
    }

    let d = plan_cd(&args(&["cd", "a", "b"]));
    assert!(d.too_many_args);
    match d.target {
        CdTarget::Path(p) => assert_eq!(p, "a"),
        CdTarget::Home => panic!("expected a path"),
    }
}

#[test]
fn prompt_line_shape() {
    assert_eq!(shell_prompt("alice", "/home/alice"), "alice @ /home/alice dsh % ");
}
