use wax_core::chat::{
    normalize_chat_template, select_chat_template, tokenizer_config_path, ChatMessage,
    ChatTemplate, ChatTemplateValue, NamedChatTemplate, TokenValue, TokenizerConfig,
    TokenizerConfigFile,
};
use wax_core::error::WaxError;

#[test]
fn renders_basic_hf_chat_template() {
    let template = ChatTemplate {
        template: r#"{% for message in messages %}{{ '<|' + message['role'] + '|>\n' + message['content'] + eos_token }}{% endfor %}{% if add_generation_prompt %}{{ '<|assistant|>\n' }}{% endif %}"#.to_string(),
        bos_token: Some("<s>".to_string()),
        eos_token: Some("</s>".to_string()),
        unk_token: None,
        pad_token: None,
    };

    let rendered = template
        .render(
            &[
                ChatMessage::new("system", "Be brief."),
                ChatMessage::new("user", "Hello"),
            ],
            true,
        )
        .unwrap();

    assert_eq!(
        rendered,
        "<|system|>\nBe brief.</s><|user|>\nHello</s><|assistant|>\n"
    );
}

fn plain_template(template: &str) -> ChatTemplate {
    ChatTemplate {
        template: template.to_string(),
        bos_token: None,
        eos_token: None,
        unk_token: None,
        pad_token: None,
    }
}

#[test]
fn render_rejects_empty_messages() {
    let err = plain_template("{{ messages }}").render(&[], true).unwrap_err();

    assert_eq!(err.message(), "invalid generation request: chat messages must not be empty");
}

#[test]
fn render_drops_generation_markers() {
    let template = plain_template(
        "{% for m in messages %}{% generation %}{{ m['content'] }}{%- endgeneration -%}{% endfor %}",
    );

    let rendered = template.render(&[ChatMessage::new("user", "hi")], false).unwrap();

    assert_eq!(rendered, "hi");
}

#[test]
fn raise_exception_fails_rendering() {
    let template = plain_template("{{ raise_exception('no system role') }}");

    let err = template.render(&[ChatMessage::new("user", "hi")], false).unwrap_err();

    assert!(matches!(err, WaxError::Template(ref m) if m.contains("no system role")));
}

#[test]
fn strftime_now_renders_empty() {
    let template = plain_template("[{{ strftime_now('%Y') }}]");

    let rendered = template.render(&[ChatMessage::new("user", "hi")], false).unwrap();

    assert_eq!(rendered, "[]");
}

#[test]
fn normalize_removes_every_marker_form() {
    let normalized = normalize_chat_template(
        "a{% generation %}b{%- generation %}c{% generation -%}d{%- generation -%}e{% endgeneration %}f{%- endgeneration %}g{% endgeneration -%}h{%- endgeneration -%}i",
    );

    assert_eq!(normalized, "abcdefghi");
    assert_eq!(normalize_chat_template("héllo {{ x }}"), "héllo {{ x }}");
}

#[test]
fn named_templates_prefer_default() {
    let named = |name: Option<&str>, template: &str| NamedChatTemplate {
        name: name.map(|n| n.to_string()),
        template: template.to_string(),
    };
    let value = ChatTemplateValue::Named(vec![
        named(Some("tool_use"), "tools"),
        named(None, "unnamed"),
        named(Some("default"), "main"),
        named(Some("default"), "second"),
    ]);
    assert_eq!(select_chat_template(value), Some("main".to_string()));

    let value = ChatTemplateValue::Named(vec![named(Some("rag"), "rag"), named(None, "x")]);
    assert_eq!(select_chat_template(value), Some("rag".to_string()));

    assert_eq!(select_chat_template(ChatTemplateValue::Named(Vec::new())), None);
    assert_eq!(
        select_chat_template(ChatTemplateValue::String("t".to_string())),
        Some("t".to_string())
    );
}

#[test]
fn load_reads_template_and_special_tokens() {
    let config = TokenizerConfig {
        chat_template: Some(ChatTemplateValue::String("{{ bos_token }}".to_string())),
        bos_token: Some(TokenValue::Object {
            content: "<s>".to_string(),
        }),
        eos_token: Some(TokenValue::String("</s>".to_string())),
        unk_token: None,
        pad_token: None,
    };

    let template = ChatTemplate::load(
        "/models/tiny/tokenizer_config.json",
        TokenizerConfigFile::Parsed(config),
    )
    .unwrap();

    assert_eq!(template.template, "{{ bos_token }}");
    assert_eq!(template.bos_token.as_deref(), Some("<s>"));
    assert_eq!(template.eos_token.as_deref(), Some("</s>"));
    assert_eq!(template.unk_token, None);
}

#[test]
fn load_reports_missing_template() {
    let config = TokenizerConfig {
        chat_template: None,
        bos_token: None,
        eos_token: None,
        unk_token: None,
        pad_token: None,
    };

    let err = ChatTemplate::load("/m/tokenizer_config.json", TokenizerConfigFile::Parsed(config))
        .unwrap_err();

    assert_eq!(
        err.message(),
        "invalid model folder /m/tokenizer_config.json: tokenizer_config.json does not define a chat_template"
    );
}

#[test]
fn load_reports_missing_file_and_bad_json() {
    let err = ChatTemplate::load("/m/tokenizer_config.json", TokenizerConfigFile::Missing)
        .unwrap_err();
    assert_eq!(err.message(), "missing required model file: /m/tokenizer_config.json");

    let err = ChatTemplate::load(
        "/m/tokenizer_config.json",
        TokenizerConfigFile::Invalid("expected value at line 1 column 1".to_string()),
    )
    .unwrap_err();
    assert!(matches!(err, WaxError::Json(_)));

    let err = ChatTemplate::load(
        "/m/tokenizer_config.json",
        TokenizerConfigFile::Unreadable("Permission denied (os error 13)".to_string()),
    )
    .unwrap_err();
    assert!(matches!(err, WaxError::Io(_)));
}

#[test]
fn config_path_sits_next_to_a_model_file() {
    assert_eq!(
        tokenizer_config_path("/models/tiny.gguf", true),
        "/models/tokenizer_config.json"
    );
    assert_eq!(
        tokenizer_config_path("/models/tiny", false),
        "/models/tiny/tokenizer_config.json"
    );
    assert_eq!(tokenizer_config_path("tiny.gguf", true), "tokenizer_config.json");
}

#[test]
fn load_for_model_path_reports_the_config_path() {
    let err = ChatTemplate::load_for_model_path(
        "/models/tiny",
        false,
        TokenizerConfigFile::Missing,
    )
    .unwrap_err();

    assert!(matches!(err, WaxError::MissingModelFile(p) if p == "/models/tiny/tokenizer_config.json"));
}
