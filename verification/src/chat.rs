//! Chat templates: choosing the template a tokenizer configuration defines,
//! and rendering chat messages into a prompt with MiniJinja.
use vstd::prelude::*;
use vstd::string::*;
use vstd::utf8::*;

use std::collections::BTreeMap;

use minijinja::{Environment, Value};

use crate::error::{invalid_request, WaxError};
use crate::paths::{join_path, parent_of, path_join, path_parent};
use crate::text::{remove_all, remove_pattern, same_text};

verus! {

/// One message of a chat.
#[derive(Debug, Clone)]
pub struct ChatMessage {
    pub role: String,
    pub content: String,
}

impl ChatMessage {
    /// A message with the given role and content.
    pub fn new(role: &str, content: &str) -> (m: Self)
        ensures
            m.role@ == role@,
            m.content@ == content@,
    {
        ChatMessage { role: String::from_str(role), content: String::from_str(content) }
    }
}

/// A chat template and the special tokens it may refer to.
#[derive(Debug, Clone)]
pub struct ChatTemplate {
    pub template: String,
    pub bos_token: Option<String>,
    pub eos_token: Option<String>,
    pub unk_token: Option<String>,
    pub pad_token: Option<String>,
}

/// A template listed under a name.
#[derive(Debug, Clone)]
pub struct NamedChatTemplate {
    pub name: Option<String>,
    pub template: String,
}

/// The `chat_template` of a tokenizer configuration: one template, or a list of
/// named ones.
#[derive(Debug, Clone)]
pub enum ChatTemplateValue {
    String(String),
    Named(Vec<NamedChatTemplate>),
}

/// A special token of a tokenizer configuration: its text, or an object holding it.
#[derive(Debug, Clone)]
pub enum TokenValue {
    String(String),
    Object { content: String },
}

/// The parts of `tokenizer_config.json` a chat template is made from.
#[derive(Debug, Clone)]
pub struct TokenizerConfig {
    pub chat_template: Option<ChatTemplateValue>,
    pub bos_token: Option<TokenValue>,
    pub eos_token: Option<TokenValue>,
    pub unk_token: Option<TokenValue>,
    pub pad_token: Option<TokenValue>,
}

/// What reading `tokenizer_config.json` gave.
#[derive(Debug, Clone)]
pub enum TokenizerConfigFile {
    /// The file is not a regular file.
    Missing,
    /// The file could not be read; the message of the error.
    Unreadable(String),
    /// The file is not a valid configuration; the message of the JSON error.
    Invalid(String),
    /// The configuration the file holds.
    Parsed(TokenizerConfig),
}

/// The template is named "default".
pub open spec fn named_default(t: NamedChatTemplate) -> bool {
    t.name matches Some(n) && n@ == "default"@
}

/// The index of the first template named "default", if any.
pub open spec fn default_template_index(templates: Seq<NamedChatTemplate>) -> Option<int> {
    if exists|i: int| 0 <= i < templates.len() && named_default(#[trigger] templates[i]) {
        Some(
            choose|i: int|
                {
                    &&& 0 <= i < templates.len()
                    &&& named_default(#[trigger] templates[i])
                    &&& forall|j: int| 0 <= j < i ==> !named_default(#[trigger] templates[j])
                },
        )
    } else {
        None
    }
}

/// The template a `chat_template` value selects: the single template, or the
/// first one named "default", or else the first one listed.
pub open spec fn selected_template(value: ChatTemplateValue) -> Option<Seq<char>> {
    match value {
        ChatTemplateValue::String(t) => Some(t@),
        ChatTemplateValue::Named(list) => match default_template_index(list@) {
            Some(i) => Some(list@[i].template@),
            None => if list@.len() > 0 {
                Some(list@[0].template@)
            } else {
                None
            },
        },
    }
}

/// Whether a named template is named "default".
fn is_default(t: &NamedChatTemplate) -> (b: bool)
    ensures
        b == named_default(*t),
{
    match &t.name {
        Some(n) => same_text(n.as_str(), "default"),
        None => false,
    }
}

/// Selects the template of a `chat_template` value.
pub fn select_chat_template(value: ChatTemplateValue) -> (r: Option<String>)
    ensures
        match r {
            Some(t) => selected_template(value) == Some(t@),
            None => selected_template(value) is None,
        },
{
    match value {
        ChatTemplateValue::String(template) => Some(template),
        ChatTemplateValue::Named(templates) => {
            let mut i: usize = 0;
            while i < templates.len()
                invariant
                    value == ChatTemplateValue::Named(templates),
                    i <= templates@.len(),
                    forall|j: int| 0 <= j < i ==> !named_default(#[trigger] templates@[j]),
                decreases templates@.len() - i,
            {
                if is_default(&templates[i]) {
                    proof {
                        lemma_first_default(templates@, i as int);
                    }
                    return Some(templates[i].template.clone());
                }
                i = i + 1;
            }
            proof {
                assert(!exists|j: int| 0 <= j < templates@.len() && named_default(#[trigger] templates@[j]));
            }
            if templates.len() > 0 {
                Some(templates[0].template.clone())
            } else {
                None
            }
        },
    }
}

proof fn lemma_first_default(templates: Seq<NamedChatTemplate>, i: int)
    requires
        0 <= i < templates.len(),
        named_default(templates[i]),
        forall|j: int| 0 <= j < i ==> !named_default(#[trigger] templates[j]),
    ensures
        default_template_index(templates) == Some(i),
{
    assert(exists|k: int| 0 <= k < templates.len() && named_default(#[trigger] templates[k]));
    let c = default_template_index(templates)->0;
    assert(exists|k: int|
        {
            &&& 0 <= k < templates.len()
            &&& named_default(#[trigger] templates[k])
            &&& forall|j: int| 0 <= j < k ==> !named_default(#[trigger] templates[j])
        }) by {
        assert(forall|j: int| 0 <= j < i ==> !named_default(#[trigger] templates[j]));
    }
    if c < i {
        assert(!named_default(templates[c]));
    } else if c > i {
        assert(!named_default(templates[i]));
    }
}

/// The text of a special token.
pub open spec fn token_text(value: TokenValue) -> Seq<char> {
    match value {
        TokenValue::String(s) => s@,
        TokenValue::Object { content } => content@,
    }
}

/// The text of a special token.
pub fn token_content(value: TokenValue) -> (r: Option<String>)
    ensures
        r matches Some(s) && s@ == token_text(value),
{
    match value {
        TokenValue::String(value) => Some(value),
        TokenValue::Object { content } => Some(content),
    }
}

/// The text of an optional special token.
pub open spec fn optional_token_text(value: Option<TokenValue>) -> Option<Seq<char>> {
    match value {
        Some(v) => Some(token_text(v)),
        None => None,
    }
}

fn optional_token(value: Option<TokenValue>) -> (r: Option<String>)
    ensures
        match r {
            Some(s) => optional_token_text(value) == Some(s@),
            None => optional_token_text(value) is None,
        },
{
    match value {
        Some(v) => token_content(v),
        None => None,
    }
}

/// The texts of an optional string.
pub open spec fn optional_text(s: Option<String>) -> Option<Seq<char>> {
    match s {
        Some(s) => Some(s@),
        None => None,
    }
}

/// The message when a configuration has no chat template.
pub open spec fn no_template_text() -> Seq<char> {
    "tokenizer_config.json does not define a chat_template"@
}

/// `r` is what loading a chat template from the configuration at `path` gives.
pub open spec fn template_load_result(
    path: Seq<char>,
    file: TokenizerConfigFile,
    r: Result<ChatTemplate, WaxError>,
) -> bool {
    match file {
        TokenizerConfigFile::Missing => r matches Err(WaxError::MissingModelFile(p)) && p@ == path,
        TokenizerConfigFile::Unreadable(m) => r matches Err(WaxError::Io(e)) && e@ == m@,
        TokenizerConfigFile::Invalid(m) => r matches Err(WaxError::Json(e)) && e@ == m@,
        TokenizerConfigFile::Parsed(config) => match config.chat_template {
            Some(value) if selected_template(value) is Some => r matches Ok(t) && {
                &&& Some(t.template@) == selected_template(value)
                &&& optional_text(t.bos_token) == optional_token_text(config.bos_token)
                &&& optional_text(t.eos_token) == optional_token_text(config.eos_token)
                &&& optional_text(t.unk_token) == optional_token_text(config.unk_token)
                &&& optional_text(t.pad_token) == optional_token_text(config.pad_token)
            },
            _ => r matches Err(WaxError::InvalidModelFolder { path: p, reason }) && p@ == path
                && reason@ == no_template_text(),
        },
    }
}

/// The path of `tokenizer_config.json` for a model: next to a model file, or
/// inside a model folder.
pub open spec fn tokenizer_config_location(model_path: Seq<char>, is_file: bool) -> Seq<char> {
    let base = if is_file {
        match path_parent(model_path) {
            Some(p) => p,
            None => "."@,
        }
    } else {
        model_path
    };
    path_join(base, "tokenizer_config.json"@)
}

/// Where the `tokenizer_config.json` of a model is.
pub fn tokenizer_config_path(model_path: &str, is_file: bool) -> (r: String)
    ensures
        r@ == tokenizer_config_location(model_path@, is_file),
{
    if is_file {
        match parent_of(model_path) {
            Some(parent) => join_path(parent.as_str(), "tokenizer_config.json"),
            None => join_path(".", "tokenizer_config.json"),
        }
    } else {
        join_path(model_path, "tokenizer_config.json")
    }
}

impl ChatTemplate {
    /// Loads the chat template of the tokenizer configuration at `path`, given
    /// what reading that file gave.
    pub fn load(path: &str, file: TokenizerConfigFile) -> (r: Result<Self, WaxError>)
        ensures
            template_load_result(path@, file, r),
    {
        match file {
            TokenizerConfigFile::Missing => Err(WaxError::MissingModelFile(String::from_str(path))),
            TokenizerConfigFile::Unreadable(msg) => Err(WaxError::Io(msg)),
            TokenizerConfigFile::Invalid(msg) => Err(WaxError::Json(msg)),
            TokenizerConfigFile::Parsed(config) => {
                let template = match config.chat_template {
                    Some(value) => select_chat_template(value),
                    None => None,
                };
                match template {
                    Some(template) => Ok(
                        ChatTemplate {
                            template,
                            bos_token: optional_token(config.bos_token),
                            eos_token: optional_token(config.eos_token),
                            unk_token: optional_token(config.unk_token),
                            pad_token: optional_token(config.pad_token),
                        },
                    ),
                    None => Err(
                        WaxError::InvalidModelFolder {
                            path: String::from_str(path),
                            reason: String::from_str(
                                "tokenizer_config.json does not define a chat_template",
                            ),
                        },
                    ),
                }
            },
        }
    }

    /// Loads the chat template of the model at `model_path` (a model file or a
    /// model folder), given what reading its `tokenizer_config.json` gave.
    pub fn load_for_model_path(model_path: &str, is_file: bool, file: TokenizerConfigFile) -> (r:
        Result<Self, WaxError>)
        ensures
            template_load_result(tokenizer_config_location(model_path@, is_file), file, r),
    {
        let path = tokenizer_config_path(model_path, is_file);
        Self::load(path.as_str(), file)
    }

    /// Renders `messages` into a prompt.
    pub fn render(&self, messages: &[ChatMessage], add_generation_prompt: bool) -> (r: Result<
        String,
        WaxError,
    >)
        ensures
            messages@.len() == 0 ==> (r matches Err(WaxError::InvalidRequest(m)) && m@
                == "chat messages must not be empty"@),
            messages@.len() > 0 ==> match rendered_template(
                normalized_template(self.template@),
                "raise_exception"@,
                "strftime_now"@,
                chat_context(messages@, add_generation_prompt, *self),
            ) {
                Ok(text) => r matches Ok(s) && s@ == text,
                Err(msg) => r matches Err(WaxError::Template(m)) && m@ == msg,
            },
    {
        if messages.len() == 0 {
            return Err(invalid_request("chat messages must not be empty"));
        }
        let template = normalize_chat_template(self.template.as_str());
        let context = template_context(messages, add_generation_prompt, self);
        let rendered = render_with_minijinja(
            template.as_str(),
            "raise_exception",
            "strftime_now",
            context.as_slice(),
        );
        match rendered {
            Ok(text) => Ok(text),
            Err(msg) => Err(WaxError::Template(msg)),
        }
    }
}

/// The role and content of each message.
pub open spec fn message_texts(messages: Seq<ChatMessage>) -> Seq<(Seq<char>, Seq<char>)> {
    messages.map_values(|m: ChatMessage| (m.role@, m.content@))
}

/// A value of a template's context, as the contracts see it.
pub enum TemplateData {
    /// A boolean.
    Flag(bool),
    /// A string, or none.
    Text(Option<Seq<char>>),
    /// A list of objects, each a list of string fields.
    Records(Seq<Seq<(Seq<char>, Seq<char>)>>),
}

/// A value of a template's context.
#[derive(Debug, Clone)]
pub enum TemplateValue {
    Flag(bool),
    Text(Option<String>),
    Records(Vec<Vec<(String, String)>>),
}

/// The texts of a list of string fields.
pub open spec fn field_texts(fields: Seq<(String, String)>) -> Seq<(Seq<char>, Seq<char>)> {
    fields.map_values(|f: (String, String)| (f.0@, f.1@))
}

impl View for TemplateValue {
    type V = TemplateData;

    open spec fn view(&self) -> TemplateData {
        match self {
            TemplateValue::Flag(b) => TemplateData::Flag(*b),
            TemplateValue::Text(t) => TemplateData::Text(optional_text(*t)),
            TemplateValue::Records(rs) => TemplateData::Records(
                rs@.map_values(|r: Vec<(String, String)>| field_texts(r@)),
            ),
        }
    }
}

/// The keys and values of a context, as the contracts see them.
pub open spec fn context_data(context: Seq<(String, TemplateValue)>) -> Seq<
    (Seq<char>, TemplateData),
> {
    context.map_values(|e: (String, TemplateValue)| (e.0@, e.1@))
}

/// A message as a template object: its `role` and its `content`.
pub open spec fn message_record(m: ChatMessage) -> Seq<(Seq<char>, Seq<char>)> {
    seq![("role"@, m.role@), ("content"@, m.content@)]
}

/// The context a chat template is rendered with: `messages` (each an object with
/// `role` and `content`), `add_generation_prompt`, and the special tokens
/// `bos_token`, `eos_token`, `unk_token` and `pad_token` (none when absent).
pub open spec fn chat_context(
    messages: Seq<ChatMessage>,
    add_generation_prompt: bool,
    t: ChatTemplate,
) -> Seq<(Seq<char>, TemplateData)> {
    seq![
        ("messages"@, TemplateData::Records(messages.map_values(|m: ChatMessage| message_record(m)))),
        ("add_generation_prompt"@, TemplateData::Flag(add_generation_prompt)),
        ("bos_token"@, TemplateData::Text(optional_text(t.bos_token))),
        ("eos_token"@, TemplateData::Text(optional_text(t.eos_token))),
        ("unk_token"@, TemplateData::Text(optional_text(t.unk_token))),
        ("pad_token"@, TemplateData::Text(optional_text(t.pad_token))),
    ]
}

/// A copy of an optional string.
fn copy_text(s: &Option<String>) -> (r: Option<String>)
    ensures
        optional_text(r) == optional_text(*s),
{
    match s {
        Some(t) => Some(t.clone()),
        None => None,
    }
}

/// A message as a template object.
fn message_fields(m: &ChatMessage) -> (r: Vec<(String, String)>)
    ensures
        field_texts(r@) == message_record(*m),
{
    let mut fields: Vec<(String, String)> = Vec::new();
    fields.push((String::from_str("role"), m.role.clone()));
    fields.push((String::from_str("content"), m.content.clone()));
    assert(field_texts(fields@) =~= message_record(*m));
    fields
}

/// The context a chat template is rendered with.
fn template_context(messages: &[ChatMessage], add_generation_prompt: bool, t: &ChatTemplate) -> (r:
    Vec<(String, TemplateValue)>)
    ensures
        context_data(r@) == chat_context(messages@, add_generation_prompt, *t),
{
    let mut records: Vec<Vec<(String, String)>> = Vec::new();
    let mut i: usize = 0;
    while i < messages.len()
        invariant
            i <= messages@.len(),
            records@.len() == i,
            records@.map_values(|r: Vec<(String, String)>| field_texts(r@)) =~= messages@.take(
                i as int,
            ).map_values(|m: ChatMessage| message_record(m)),
        decreases messages@.len() - i,
    {
        let fields = message_fields(&messages[i]);
        let ghost before = records@;
        let ghost item = field_texts(fields@);
        let ghost pushed = fields;
        records.push(fields);
        proof {
            assert(records@ == before.push(pushed));
            assert(field_texts(records@[i as int]@) == item);
            assert(records@.map_values(|r: Vec<(String, String)>| field_texts(r@)) =~= before.map_values(
                |r: Vec<(String, String)>| field_texts(r@),
            ).push(item));
            assert(messages@.take(i + 1) =~= messages@.take(i as int).push(messages@[i as int]));
            assert(messages@.take(i + 1).map_values(|m: ChatMessage| message_record(m))
                =~= messages@.take(i as int).map_values(|m: ChatMessage| message_record(m)).push(
                message_record(messages@[i as int]),
            ));
        }
        i = i + 1;
    }
    proof {
        assert(messages@.take(messages@.len() as int) =~= messages@);
    }
    let mut context: Vec<(String, TemplateValue)> = Vec::new();
    context.push((String::from_str("messages"), TemplateValue::Records(records)));
    context.push((String::from_str("add_generation_prompt"), TemplateValue::Flag(add_generation_prompt)));
    context.push((String::from_str("bos_token"), TemplateValue::Text(copy_text(&t.bos_token))));
    context.push((String::from_str("eos_token"), TemplateValue::Text(copy_text(&t.eos_token))));
    context.push((String::from_str("unk_token"), TemplateValue::Text(copy_text(&t.unk_token))));
    context.push((String::from_str("pad_token"), TemplateValue::Text(copy_text(&t.pad_token))));
    proof {
        reveal_strlit("messages");
        reveal_strlit("add_generation_prompt");
        reveal_strlit("bos_token");
        reveal_strlit("eos_token");
        reveal_strlit("unk_token");
        reveal_strlit("pad_token");
    }
    assert(context_data(context@) =~= chat_context(messages@, add_generation_prompt, *t));
    context
}

/// What MiniJinja renders from `template` in a fresh environment with the
/// context `context` (each key bound to its value: a boolean, a string or none,
/// or a list of objects with string fields), where the template function named
/// `raise_name` fails the rendering with its argument and the one named
/// `strftime_name` gives the empty string. On failure, the message of the error.
pub uninterp spec fn rendered_template(
    template: Seq<char>,
    raise_name: Seq<char>,
    strftime_name: Seq<char>,
    context: Seq<(Seq<char>, TemplateData)>,
) -> Result<Seq<char>, Seq<char>>;

/// Renders with `Environment::render_str` of a fresh MiniJinja environment that
/// has `raise_exception` and `strftime_now` under the given names, converting each
/// context value to a MiniJinja value one for one. The result is
/// `rendered_template` of the arguments.
#[verifier::external_body]
fn render_with_minijinja(
    template: &str,
    raise_name: &str,
    strftime_name: &str,
    context: &[(String, TemplateValue)],
) -> (r: Result<String, String>)
    ensures
        match rendered_template(template@, raise_name@, strftime_name@, context_data(context@)) {
            Ok(text) => r matches Ok(s) && s@ == text,
            Err(msg) => r matches Err(m) && m@ == msg,
        },
{
    let mut env = Environment::new();
    env.add_function(raise_name, raise_exception);
    env.add_function(strftime_name, strftime_now);
    let ctx: BTreeMap<&str, Value> = context.iter().map(|(key, value)| (key.as_str(), match value {
        TemplateValue::Flag(b) => Value::from(*b),
        TemplateValue::Text(t) => Value::from(t.clone()),
        TemplateValue::Records(rs) => Value::from_iter(rs.iter().map(|r| r.iter().map(|(k, v)| (k.as_str(), v.clone())).collect::<BTreeMap<_, _>>())),
    })).collect();
    env.render_str(template, ctx).map_err(|err| err.to_string())
}

/// `minijinja::Error`, carried as an opaque value.
#[verifier::external_type_specification]
#[verifier::external_body]
pub struct ExTemplateError(minijinja::Error);

/// Calls `minijinja::Error::new(ErrorKind::InvalidOperation, message)`: an error
/// that fails the rendering with `message`.
#[verifier::external_body]
fn invalid_operation(message: String) -> minijinja::Error {
    minijinja::Error::new(minijinja::ErrorKind::InvalidOperation, message)
}

/// The template function `raise_exception`: fails the rendering with `message`.
pub fn raise_exception(message: String) -> (r: Result<String, minijinja::Error>)
    ensures
        r is Err,
{
    Err(invalid_operation(message))
}

/// The template function `strftime_now`: the empty string, whatever the format.
pub fn strftime_now(_format: String) -> (r: String)
    ensures
        r@ == Seq::<char>::empty(),
{
    String::new()
}

/// `template` with every generation block marker removed.
pub open spec fn normalized_template(template: Seq<char>) -> Seq<char> {
    decode_utf8(
        remove_all(
            remove_all(
                remove_all(
                    remove_all(
                        remove_all(
                            remove_all(
                                remove_all(
                                    remove_all(
                                        encode_utf8(template),
                                        encode_utf8("{% generation %}"@),
                                    ),
                                    encode_utf8("{%- generation %}"@),
                                ),
                                encode_utf8("{% generation -%}"@),
                            ),
                            encode_utf8("{%- generation -%}"@),
                        ),
                        encode_utf8("{% endgeneration %}"@),
                    ),
                    encode_utf8("{%- endgeneration %}"@),
                ),
                encode_utf8("{% endgeneration -%}"@),
            ),
            encode_utf8("{%- endgeneration -%}"@),
        ),
    )
}

/// Removes the `generation`/`endgeneration` block markers (in each of their
/// whitespace-trimming forms) that MiniJinja does not know.
pub fn normalize_chat_template(template: &str) -> (r: String)
    ensures
        r@ == normalized_template(template@),
{
    let s = remove_pattern(template, "{% generation %}");
    let s = remove_pattern(s.as_str(), "{%- generation %}");
    let s = remove_pattern(s.as_str(), "{% generation -%}");
    let s = remove_pattern(s.as_str(), "{%- generation -%}");
    let s = remove_pattern(s.as_str(), "{% endgeneration %}");
    let s = remove_pattern(s.as_str(), "{%- endgeneration %}");
    let s = remove_pattern(s.as_str(), "{% endgeneration -%}");
    let s = remove_pattern(s.as_str(), "{%- endgeneration -%}");
    proof {
        broadcast use vstd::utf8::group_utf8_lib;
        assert(decode_utf8(encode_utf8(s@)) == s@);
    }
    s
}

/// The value a context binds to `key` (the first binding), if any.
pub open spec fn bound_value(context: Seq<(Seq<char>, TemplateData)>, key: Seq<char>) -> Option<
    TemplateData,
>
    decreases context.len(),
{
    if context.len() == 0 {
        None
    } else if context[0].0 == key {
        Some(context[0].1)
    } else {
        bound_value(context.drop_first(), key)
    }
}

/// Law: a chat template is rendered with `add_generation_prompt` bound to the
/// caller's flag, `messages` bound to each message's `role` and `content` in
/// order, and each special token bound to the template's token (none when it has
/// none). Rendering with the flag set and unset uses different contexts.
pub proof fn law_chat_context_bindings(messages: Seq<ChatMessage>, add_generation_prompt: bool, t: ChatTemplate)
    ensures
        bound_value(chat_context(messages, add_generation_prompt, t), "add_generation_prompt"@)
            == Some(TemplateData::Flag(add_generation_prompt)),
        bound_value(chat_context(messages, add_generation_prompt, t), "messages"@) matches Some(
            TemplateData::Records(rs),
        ) && rs.len() == messages.len() && forall|i: int|
            0 <= i < messages.len() ==> #[trigger] rs[i] == seq![
                ("role"@, messages[i].role@),
                ("content"@, messages[i].content@),
            ],
        bound_value(chat_context(messages, add_generation_prompt, t), "bos_token"@) == Some(
            TemplateData::Text(optional_text(t.bos_token)),
        ),
        bound_value(chat_context(messages, add_generation_prompt, t), "eos_token"@) == Some(
            TemplateData::Text(optional_text(t.eos_token)),
        ),
        bound_value(chat_context(messages, add_generation_prompt, t), "unk_token"@) == Some(
            TemplateData::Text(optional_text(t.unk_token)),
        ),
        bound_value(chat_context(messages, add_generation_prompt, t), "pad_token"@) == Some(
            TemplateData::Text(optional_text(t.pad_token)),
        ),
        chat_context(messages, true, t) != chat_context(messages, false, t),
{
    reveal_strlit("messages");
    reveal_strlit("add_generation_prompt");
    reveal_strlit("bos_token");
    reveal_strlit("eos_token");
    reveal_strlit("unk_token");
    reveal_strlit("pad_token");
    let c = chat_context(messages, add_generation_prompt, t);
    reveal_with_fuel(bound_value, 7);
    assert(c.drop_first()[0] == c[1]);
    assert(c.drop_first().drop_first()[0] == c[2]);
    assert(c.drop_first().drop_first().drop_first()[0] == c[3]);
    assert(c.drop_first().drop_first().drop_first().drop_first()[0] == c[4]);
    assert(c.drop_first().drop_first().drop_first().drop_first().drop_first()[0] == c[5]);
    assert("messages"@[0] != "add_generation_prompt"@[0]);
    assert("messages"@[0] != "bos_token"@[0]);
    assert("messages"@[0] != "eos_token"@[0]);
    assert("messages"@[0] != "unk_token"@[0]);
    assert("messages"@[0] != "pad_token"@[0]);
    assert("add_generation_prompt"@[0] != "bos_token"@[0]);
    assert("add_generation_prompt"@[0] != "eos_token"@[0]);
    assert("add_generation_prompt"@[0] != "unk_token"@[0]);
    assert("add_generation_prompt"@[0] != "pad_token"@[0]);
    assert("bos_token"@[0] != "eos_token"@[0]);
    assert("bos_token"@[0] != "unk_token"@[0]);
    assert("bos_token"@[0] != "pad_token"@[0]);
    assert("eos_token"@[0] != "unk_token"@[0]);
    assert("eos_token"@[0] != "pad_token"@[0]);
    assert("unk_token"@[0] != "pad_token"@[0]);
    assert(chat_context(messages, true, t)[1] != chat_context(messages, false, t)[1]);
}

/// Where some template is named "default", a first one is.
proof fn lemma_first_default_exists(templates: Seq<NamedChatTemplate>, d: int)
    requires
        0 <= d < templates.len(),
        named_default(templates[d]),
    ensures
        exists|m: int|
            {
                &&& 0 <= m < templates.len()
                &&& named_default(#[trigger] templates[m])
                &&& forall|j: int| 0 <= j < m ==> !named_default(#[trigger] templates[j])
            },
    decreases d,
{
    if exists|j: int| 0 <= j < d && named_default(#[trigger] templates[j]) {
        let j = choose|j: int| 0 <= j < d && named_default(#[trigger] templates[j]);
        lemma_first_default_exists(templates, j);
    } else {
        assert(named_default(templates[d]));
    }
}

/// Law: a single template is used as it is; from a list of named templates the
/// first one named `default` is used, the first one listed when none is, and no
/// template when the list is empty. The template chosen is always one listed.
pub proof fn law_template_choice(text: String, list: Vec<NamedChatTemplate>, i: int)
    ensures
        selected_template(ChatTemplateValue::String(text)) == Some(text@),
        0 <= i < list@.len() && (list@[i].name matches Some(n) && n@ == "default"@) && (forall|j: int|
            0 <= j < i ==> !((#[trigger] list@[j]).name matches Some(m) && m@ == "default"@))
            ==> selected_template(ChatTemplateValue::Named(list)) == Some(list@[i].template@),
        list@.len() > 0 && (forall|j: int|
            0 <= j < list@.len() ==> !((#[trigger] list@[j]).name matches Some(m) && m@
                == "default"@)) ==> selected_template(ChatTemplateValue::Named(list)) == Some(
            list@[0].template@,
        ),
        list@.len() == 0 ==> selected_template(ChatTemplateValue::Named(list)) is None,
        selected_template(ChatTemplateValue::Named(list)) matches Some(t) ==> exists|j: int|
            0 <= j < list@.len() && (#[trigger] list@[j]).template@ == t,
{
    let l = list@;
    if 0 <= i < l.len() && (l[i].name matches Some(n) && n@ == "default"@) && (forall|j: int|
        0 <= j < i ==> !((#[trigger] l[j]).name matches Some(m) && m@ == "default"@)) {
        assert(named_default(l[i]));
        assert forall|j: int| 0 <= j < i implies !named_default(#[trigger] l[j]) by {
            assert(!(l[j].name matches Some(m) && m@ == "default"@));
        }
        lemma_first_default(l, i);
    }
    if l.len() > 0 && (forall|j: int|
        0 <= j < l.len() ==> !((#[trigger] l[j]).name matches Some(m) && m@ == "default"@)) {
        assert(!exists|j: int| 0 <= j < l.len() && named_default(#[trigger] l[j])) by {
            assert forall|j: int| 0 <= j < l.len() implies !named_default(#[trigger] l[j]) by {
                assert(!(l[j].name matches Some(m) && m@ == "default"@));
            }
        }
    }
    match default_template_index(l) {
        Some(k) => {
            let d = choose|j: int| 0 <= j < l.len() && named_default(#[trigger] l[j]);
            lemma_first_default_exists(l, d);
            let m = choose|m: int|
                {
                    &&& 0 <= m < l.len()
                    &&& named_default(#[trigger] l[m])
                    &&& forall|j: int| 0 <= j < m ==> !named_default(#[trigger] l[j])
                };
            lemma_first_default(l, m);
            assert(l[k].template@ == l[k].template@);
        },
        None => {
            if l.len() > 0 {
                assert(l[0].template@ == l[0].template@);
            }
        },
    }
}

/// Law: a model folder's `tokenizer_config.json` is inside it; a model file's
/// is in the folder holding the file (`.` when the path has no parent).
pub proof fn law_tokenizer_config_location(model_path: Seq<char>, is_file: bool)
    ensures
        !is_file ==> tokenizer_config_location(model_path, is_file) == path_join(
            model_path,
            "tokenizer_config.json"@,
        ),
        is_file && path_parent(model_path) is Some ==> tokenizer_config_location(model_path, is_file)
            == path_join(path_parent(model_path)->Some_0, "tokenizer_config.json"@),
        is_file && path_parent(model_path) is None ==> tokenizer_config_location(model_path, is_file)
            == path_join("."@, "tokenizer_config.json"@),
{
}

} // verus!
