use wax_core::cli::{
    engine_config, noop_stream, parse_chat_message, select_prompt_source, DTypeArg, DeviceArg,
    PromptSource,
};
use wax_core::device::{DTypeChoice, DeviceChoice};

#[test]
fn message_with_known_role_is_split_at_the_first_colon() {
    let m = parse_chat_message("system:Be brief: really.");

    assert_eq!(m.role, "system");
    assert_eq!(m.content, "Be brief: really.");
}

#[test]
fn message_with_each_known_role() {
    for role in ["system", "user", "assistant", "tool"] {
        let m = parse_chat_message(&format!("{role}:hi"));
        assert_eq!(m.role, role);
        assert_eq!(m.content, "hi");
    }
}

#[test]
fn message_with_unknown_role_is_a_user_message() {
    let m = parse_chat_message("note: keep going");

    assert_eq!(m.role, "user");
    assert_eq!(m.content, "note: keep going");
}

#[test]
fn message_without_colon_is_a_user_message() {
    let m = parse_chat_message("hello there");

    assert_eq!(m.role, "user");
    assert_eq!(m.content, "hello there");
}

#[test]
fn message_role_may_have_empty_content() {
    let m = parse_chat_message("assistant:");

    assert_eq!(m.role, "assistant");
    assert_eq!(m.content, "");
}

#[test]
fn message_with_non_ascii_text_splits_on_characters() {
    let m = parse_chat_message("user:héllo:wörld");

    assert_eq!(m.role, "user");
    assert_eq!(m.content, "héllo:wörld");
}

#[test]
fn exactly_one_prompt_source_is_taken() {
    assert!(matches!(
        select_prompt_source(Some("hi".to_string()), None, false),
        Ok(PromptSource::Text(t)) if t == "hi"
    ));
    assert!(matches!(
        select_prompt_source(None, Some("prompt.txt".to_string()), false),
        Ok(PromptSource::File(f)) if f == "prompt.txt"
    ));
    assert!(matches!(
        select_prompt_source(None, None, true),
        Ok(PromptSource::Stdin)
    ));
}

#[test]
fn several_prompt_sources_are_refused() {
    let err = select_prompt_source(Some("hi".to_string()), None, true).unwrap_err();

    assert_eq!(err, "provide only one of --prompt, --prompt-file, or --stdin");
}

#[test]
fn missing_prompt_source_is_refused() {
    let err = select_prompt_source(None, None, false).unwrap_err();

    assert_eq!(err, "provide --prompt, --prompt-file, or --stdin");
}

#[test]
fn engine_config_takes_the_arguments() {
    let config = engine_config("/models/tiny", DeviceArg::Metal, DTypeArg::Bf16);

    assert_eq!(config.model_dir, "/models/tiny");
    assert_eq!(config.device, DeviceChoice::Metal);
    assert_eq!(config.dtype, DTypeChoice::BF16);
}

#[test]
fn argument_conversions_keep_the_choice() {
    assert_eq!(DeviceChoice::from(DeviceArg::Auto), DeviceChoice::Auto);
    assert_eq!(DeviceChoice::from(DeviceArg::Cpu), DeviceChoice::Cpu);
    assert_eq!(DeviceChoice::from(DeviceArg::Cuda), DeviceChoice::Cuda);
    assert_eq!(DTypeChoice::from(DTypeArg::Auto), DTypeChoice::Auto);
    assert_eq!(DTypeChoice::from(DTypeArg::F32), DTypeChoice::F32);
    assert_eq!(DTypeChoice::from(DTypeArg::F16), DTypeChoice::F16);
}

#[test]
fn noop_stream_accepts_everything() {
    assert!(noop_stream("anything").is_ok());
}

#[test]
fn chat_needs_a_message() {
    let err = wax_core::cli::chat_messages(Some("Be brief.".to_string()), &[]).unwrap_err();

    assert_eq!(err, "at least one --message is required");
}

#[test]
fn chat_messages_put_the_system_prompt_first() {
    let messages = wax_core::cli::chat_messages(
        Some("Be brief.".to_string()),
        &["hello".to_string(), "assistant:hi".to_string()],
    )
    .unwrap();
    let parts: Vec<(String, String)> = messages
        .into_iter()
        .map(|m| (m.role, m.content))
        .collect();

    assert_eq!(
        parts,
        vec![
            ("system".to_string(), "Be brief.".to_string()),
            ("user".to_string(), "hello".to_string()),
            ("assistant".to_string(), "hi".to_string()),
        ]
    );
}

#[test]
fn chat_without_system_prompt_keeps_the_messages() {
    let messages = wax_core::cli::chat_messages(None, &["tool:42".to_string()]).unwrap();

    assert_eq!(messages.len(), 1);
    assert_eq!(messages[0].role, "tool");
    assert_eq!(messages[0].content, "42");
}

#[test]
fn bench_rejects_zero_runs_before_loading_model() {
    let err = wax_core::cli::validate_runs(0).unwrap_err();

    assert!(err.contains("--runs must be > 0"));
    assert!(wax_core::cli::validate_runs(5).is_ok());
}
