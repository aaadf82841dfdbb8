//! The command line's decisions: device and element-type arguments, where the
//! prompt comes from, and how `--message` arguments become chat messages.
use vstd::prelude::*;
use vstd::string::*;

use crate::chat::{message_texts, ChatMessage};
use crate::device::{DTypeChoice, DeviceChoice};
use crate::engine::EngineConfig;
use crate::error::WaxError;
use crate::text::same_text;

verus! {

/// The `--device` argument.
#[derive(Debug, Clone, Copy, PartialEq, Eq, Structural)]
pub enum DeviceArg {
    Auto,
    Cpu,
    Cuda,
    Metal,
}

/// The `--dtype` argument.
#[derive(Debug, Clone, Copy, PartialEq, Eq, Structural)]
pub enum DTypeArg {
    Auto,
    F32,
    F16,
    Bf16,
}

/// The device choice a `--device` argument stands for.
pub open spec fn device_choice_of(value: DeviceArg) -> DeviceChoice {
    match value {
        DeviceArg::Auto => DeviceChoice::Auto,
        DeviceArg::Cpu => DeviceChoice::Cpu,
        DeviceArg::Cuda => DeviceChoice::Cuda,
        DeviceArg::Metal => DeviceChoice::Metal,
    }
}

/// The element-type choice a `--dtype` argument stands for.
pub open spec fn dtype_choice_of(value: DTypeArg) -> DTypeChoice {
    match value {
        DTypeArg::Auto => DTypeChoice::Auto,
        DTypeArg::F32 => DTypeChoice::F32,
        DTypeArg::F16 => DTypeChoice::F16,
        DTypeArg::Bf16 => DTypeChoice::BF16,
    }
}

impl From<DeviceArg> for DeviceChoice {
    fn from(value: DeviceArg) -> (r: Self) {
        match value {
            DeviceArg::Auto => DeviceChoice::Auto,
            DeviceArg::Cpu => DeviceChoice::Cpu,
            DeviceArg::Cuda => DeviceChoice::Cuda,
            DeviceArg::Metal => DeviceChoice::Metal,
        }
    }
}

impl vstd::std_specs::convert::FromSpecImpl<DeviceArg> for DeviceChoice {
    open spec fn obeys_from_spec() -> bool {
        true
    }

    open spec fn from_spec(v: DeviceArg) -> DeviceChoice {
        device_choice_of(v)
    }
}

impl From<DTypeArg> for DTypeChoice {
    fn from(value: DTypeArg) -> (r: Self) {
        match value {
            DTypeArg::Auto => DTypeChoice::Auto,
            DTypeArg::F32 => DTypeChoice::F32,
            DTypeArg::F16 => DTypeChoice::F16,
            DTypeArg::Bf16 => DTypeChoice::BF16,
        }
    }
}

impl vstd::std_specs::convert::FromSpecImpl<DTypeArg> for DTypeChoice {
    open spec fn obeys_from_spec() -> bool {
        true
    }

    open spec fn from_spec(v: DTypeArg) -> DTypeChoice {
        dtype_choice_of(v)
    }
}

/// The engine configuration for the model at `model` with the given arguments.
pub fn engine_config(model: &str, device: DeviceArg, dtype: DTypeArg) -> (c: EngineConfig)
    ensures
        c.model_dir@ == model@,
        c.device == device_choice_of(device),
        c.dtype == dtype_choice_of(dtype),
{
    EngineConfig {
        model_dir: String::from_str(model),
        device: DeviceChoice::from(device),
        dtype: DTypeChoice::from(dtype),
    }
}

/// Where the prompt comes from.
#[derive(Debug, Clone)]
pub enum PromptSource {
    /// The text of `--prompt`.
    Text(String),
    /// The file named by `--prompt-file`.
    File(String),
    /// Standard input.
    Stdin,
}

/// The message when more than one prompt source is given.
pub open spec fn several_prompts_text() -> Seq<char> {
    "provide only one of --prompt, --prompt-file, or --stdin"@
}

/// The message when no prompt source is given.
pub open spec fn no_prompt_text() -> Seq<char> {
    "provide --prompt, --prompt-file, or --stdin"@
}

/// How many prompt sources are given.
pub open spec fn prompt_sources(prompt: Option<String>, prompt_file: Option<String>, stdin: bool) -> int {
    (if prompt is Some { 1int } else { 0int }) + (if prompt_file is Some { 1int } else { 0int }) + (
    if stdin { 1int } else { 0int })
}

/// Picks the prompt source: exactly one of `--prompt`, `--prompt-file` and
/// `--stdin` must be given.
pub fn select_prompt_source(prompt: Option<String>, prompt_file: Option<String>, stdin: bool) -> (r:
    Result<PromptSource, String>)
    ensures
        prompt_sources(prompt, prompt_file, stdin) > 1 ==> (r matches Err(m) && m@
            == several_prompts_text()),
        prompt_sources(prompt, prompt_file, stdin) == 0 ==> (r matches Err(m) && m@
            == no_prompt_text()),
        prompt_sources(prompt, prompt_file, stdin) == 1 ==> match r {
            Ok(PromptSource::Text(t)) => prompt == Some(t),
            Ok(PromptSource::File(f)) => prompt_file == Some(f),
            Ok(PromptSource::Stdin) => stdin,
            Err(_) => false,
        },
{
    let selected: usize = (if prompt.is_some() { 1usize } else { 0usize }) + (if prompt_file.is_some() {
        1usize
    } else {
        0usize
    }) + (if stdin { 1usize } else { 0usize });
    if selected > 1 {
        return Err(String::from_str("provide only one of --prompt, --prompt-file, or --stdin"));
    }
    match prompt {
        Some(text) => {
            return Ok(PromptSource::Text(text));
        },
        None => {},
    }
    match prompt_file {
        Some(path) => {
            return Ok(PromptSource::File(path));
        },
        None => {},
    }
    if stdin {
        return Ok(PromptSource::Stdin);
    }
    Err(String::from_str("provide --prompt, --prompt-file, or --stdin"))
}

/// The position of the first `:` in `s`, if any.
pub open spec fn first_colon(s: Seq<char>) -> Option<int> {
    if exists|i: int| 0 <= i < s.len() && s[i] == ':' {
        Some(choose|i: int| 0 <= i < s.len() && s[i] == ':' && forall|j: int| 0 <= j < i ==> s[j] != ':')
    } else {
        None
    }
}

/// A chat role the command line accepts before a `:`.
pub open spec fn known_role(role: Seq<char>) -> bool {
    role == "system"@ || role == "user"@ || role == "assistant"@ || role == "tool"@
}

/// The role and content a `--message` argument stands for: `role:content` when
/// the text before the first `:` is a known role, otherwise a user message.
pub open spec fn message_parts(message: Seq<char>) -> (Seq<char>, Seq<char>) {
    match first_colon(message) {
        Some(i) => if known_role(message.subrange(0, i)) {
            (message.subrange(0, i), message.subrange(i + 1, message.len() as int))
        } else {
            ("user"@, message)
        },
        None => ("user"@, message),
    }
}

/// Turns a `--message` argument into a chat message.
pub fn parse_chat_message(message: &str) -> (m: ChatMessage)
    ensures
        (m.role@, m.content@) == message_parts(message@),
{
    let n = message.unicode_len();
    let mut i: usize = 0;
    while i < n
        invariant
            n == message@.len(),
            i <= n,
            forall|j: int| 0 <= j < i ==> message@[j] != ':',
        decreases n - i,
    {
        if message.get_char(i) == ':' {
            proof {
                let c = first_colon(message@)->0;
                assert(message@[i as int] == ':');
                if c < i {
                    assert(message@[c] == ':');
                } else if c > i {
                    assert(message@[i as int] != ':');
                }
            }
            let role = message.substring_char(0, i);
            if same_text(role, "system") || same_text(role, "user") || same_text(role, "assistant")
                || same_text(role, "tool") {
                let content = message.substring_char(i + 1, n);
                return ChatMessage::new(role, content);
            }
            return ChatMessage::new("user", message);
        }
        i = i + 1;
    }
    ChatMessage::new("user", message)
}

/// The message when a chat is given no `--message`.
pub open spec fn no_message_text() -> Seq<char> {
    "at least one --message is required"@
}

/// The role and content of each message of a chat: the system prompt first,
/// when there is one, then each `--message` argument in turn.
pub open spec fn chat_parts(system: Option<String>, messages: Seq<String>) -> Seq<
    (Seq<char>, Seq<char>),
> {
    let given = messages.map_values(|m: String| message_parts(m@));
    match system {
        Some(s) => seq![("system"@, s@)] + given,
        None => given,
    }
}

/// The messages of a chat, from the `--system` and `--message` arguments; at
/// least one `--message` is needed.
pub fn chat_messages(system: Option<String>, messages: &[String]) -> (r: Result<
    Vec<ChatMessage>,
    String,
>)
    ensures
        messages@.len() == 0 ==> (r matches Err(m) && m@ == no_message_text()),
        messages@.len() > 0 ==> (r matches Ok(v) && message_texts(v@) == chat_parts(
            system,
            messages@,
        )),
{
    if messages.len() == 0 {
        return Err(String::from_str("at least one --message is required"));
    }
    let mut out: Vec<ChatMessage> = Vec::new();
    match &system {
        Some(s) => {
            out.push(ChatMessage::new("system", s.as_str()));
        },
        None => {},
    }
    let ghost head = message_texts(out@);
    let ghost given = messages@.map_values(|m: String| message_parts(m@));
    proof {
        assert(message_texts(out@) =~= head + given.take(0));
    }
    let mut i: usize = 0;
    while i < messages.len()
        invariant
            i <= messages@.len(),
            given == messages@.map_values(|m: String| message_parts(m@)),
            head == match system {
                Some(s) => seq![("system"@, s@)],
                None => Seq::<(Seq<char>, Seq<char>)>::empty(),
            },
            message_texts(out@) == head + given.take(i as int),
        decreases messages@.len() - i,
    {
        let m = parse_chat_message(messages[i].as_str());
        let ghost before = out@;
        let ghost parts = (m.role@, m.content@);
        out.push(m);
        proof {
            assert(parts == given[i as int]);
            assert(message_texts(out@) =~= message_texts(before).push(parts));
            assert(given.take(i + 1) =~= given.take(i as int).push(given[i as int]));
            assert(message_texts(out@) =~= head + given.take(i + 1));
        }
        i = i + 1;
    }
    proof {
        assert(given.take(messages@.len() as int) =~= given);
        assert(head + given =~= chat_parts(system, messages@));
    }
    Ok(out)
}

/// The message when a benchmark is asked for no runs.
pub open spec fn no_runs_text() -> Seq<char> {
    "--runs must be > 0"@
}

/// A benchmark needs at least one run.
pub fn validate_runs(runs: usize) -> (r: Result<(), String>)
    ensures
        runs == 0 ==> (r matches Err(m) && m@ == no_runs_text()),
        runs > 0 ==> r is Ok,
{
    if runs == 0 {
        return Err(String::from_str("--runs must be > 0"));
    }
    Ok(())
}

/// A stream sink that drops every piece of text.
pub fn noop_stream(_text: &str) -> (r: Result<(), WaxError>)
    ensures
        r is Ok,
{
    Ok(())
}

/// Law: `role:content` with `role` one of `system`, `user`, `assistant`, `tool`
/// is a message of that role with the text after the first colon as its content
/// (further colons included); text without a colon is a user message of the
/// whole text; and every message gets one of the four roles.
pub proof fn law_message_parts(role: Seq<char>, rest: Seq<char>, plain: Seq<char>, any: Seq<char>)
    requires
        role == "system"@ || role == "user"@ || role == "assistant"@ || role == "tool"@,
        forall|i: int| 0 <= i < plain.len() ==> plain[i] != ':',
    ensures
        message_parts(role + ":"@ + rest) == (role, rest),
        message_parts(plain) == ("user"@, plain),
        ({
            let r = message_parts(any).0;
            r == "system"@ || r == "user"@ || r == "assistant"@ || r == "tool"@
        }),
{
    reveal_strlit("system");
    reveal_strlit("user");
    reveal_strlit("assistant");
    reveal_strlit("tool");
    reveal_strlit(":");
    let s = role + ":"@ + rest;
    let n = role.len() as int;
    assert(forall|j: int| 0 <= j < n ==> role[j] != ':');
    assert(s[n] == ':');
    assert forall|j: int| 0 <= j < n implies s[j] != ':' by {
        assert(s[j] == role[j]);
    }
    let c = first_colon(s)->0;
    assert(first_colon(s) is Some);
    assert(c == n) by {
        if c < n {
            assert(s[c] == role[c]);
        } else if c > n {
            assert(s[n] != ':');
        }
    }
    assert(s.subrange(0, n) =~= role);
    assert(s.subrange(n + 1, s.len() as int) =~= rest);
    assert(known_role(role));
    assert(first_colon(plain) is None);
}

/// Law: a chat's messages are the system prompt first, when there is one, then
/// one message for each `--message` argument, in order, each split as
/// `message_parts` says.
pub proof fn law_chat_parts(system: Option<String>, messages: Seq<String>)
    ensures
        chat_parts(system, messages).len() == messages.len() + if system is Some {
            1int
        } else {
            0int
        },
        system matches Some(s) ==> chat_parts(system, messages)[0] == ("system"@, s@),
        forall|k: int|
            0 <= k < messages.len() ==> chat_parts(system, messages)[k + if system is Some {
                1int
            } else {
                0int
            }] == message_parts((#[trigger] messages[k])@),
{
}

} // verus!
