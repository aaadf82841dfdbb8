//! The decisions of the token-by-token generation loop: when to stop, what text
//! the generation has produced so far, and which part of it may be streamed.
//!
//! The model forward pass and the sampler run outside; after each sampled token
//! the caller hands it to [`GenerationState::accept_token`], streams the delta it
//! returns, and stops when [`GenerationState::is_finished`] says so. A final
//! [`GenerationState::finish`] flushes whatever was held back.
use vstd::prelude::*;
use vstd::string::*;
use vstd::utf8::*;

use tokenizers::Tokenizer;

use crate::error::{invalid_request, WaxError};
use crate::stats::StopReason;
use crate::stopping::{
    all_valid_utf8, lemma_extension_keeps_prefix, lemma_hold_len_after_append, apply_stop_sequences, earliest_stop, hold_len, holds_prefix, law_held_tail, lemma_hold_len_witness,
    lemma_prefix_stop_free, lemma_truncation_stop_free, stop_bytes,
    streamable_len, truncate_at_stop,
};
use crate::text::{byte_len, has_prefix, substring_bytes};
use crate::tokenizer::{decode_ids, decoded_text, encode_ids, may_encode};

verus! {

broadcast use vstd::utf8::group_utf8_lib;

/// The state of a generation, as the contracts see it.
pub struct GenerationModel {
    /// The stop strings, as bytes.
    pub stop: Seq<Seq<u8>>,
    /// End-of-sequence ids of the model.
    pub engine_eos: Seq<u32>,
    /// Extra end-of-sequence ids of the request.
    pub request_eos: Seq<u32>,
    /// Whether text is streamed while it is generated.
    pub stream: bool,
    /// The most tokens that may be sampled.
    pub max_new_tokens: int,
    /// The ids generated so far, end-of-sequence ids excluded.
    pub token_ids: Seq<u32>,
    /// The generated text so far (cut at a stop sequence), as bytes.
    pub text: Seq<u8>,
    /// Everything handed to the stream so far, as bytes.
    pub emitted: Seq<u8>,
    /// How many tokens were sampled, end-of-sequence tokens included.
    pub generated_tokens: int,
    pub stop_reason: StopReason,
    pub finished: bool,
}

/// The state before the first token.
pub open spec fn initial_model(
    max_new_tokens: int,
    stop: Seq<Seq<u8>>,
    engine_eos: Seq<u32>,
    request_eos: Seq<u32>,
    stream: bool,
) -> GenerationModel {
    GenerationModel {
        stop,
        engine_eos,
        request_eos,
        stream,
        max_new_tokens,
        token_ids: Seq::empty(),
        text: Seq::empty(),
        emitted: Seq::empty(),
        generated_tokens: 0,
        stop_reason: StopReason::MaxTokens,
        finished: max_new_tokens <= 0,
    }
}

/// `token` ends the generation.
pub open spec fn is_eos(m: GenerationModel, token: u32) -> bool {
    m.engine_eos.contains(token) || m.request_eos.contains(token)
}

/// The state after `token` was sampled: it is counted; an end-of-sequence token
/// finishes the generation, any other token is recorded.
pub open spec fn after_sample(m: GenerationModel, token: u32) -> GenerationModel {
    if is_eos(m, token) {
        GenerationModel {
            generated_tokens: m.generated_tokens + 1,
            stop_reason: StopReason::Eos,
            finished: true,
            ..m
        }
    } else {
        GenerationModel {
            generated_tokens: m.generated_tokens + 1,
            token_ids: m.token_ids.push(token),
            ..m
        }
    }
}

/// The decoded text cut at its earliest stop sequence.
pub open spec fn cut_text(m: GenerationModel, decoded: Seq<u8>) -> Seq<u8> {
    truncate_at_stop(decoded, m.stop)
}

/// A stop sequence occurs in the decoded text.
pub open spec fn hits_stop(m: GenerationModel, decoded: Seq<u8>) -> bool {
    earliest_stop(decoded, m.stop) is Some
}

/// How much of the cut text may have been streamed after this step: all of it
/// once a stop sequence was hit, otherwise all but a tail that could still
/// become a stop sequence.
pub open spec fn stream_target(m: GenerationModel, decoded: Seq<u8>) -> int {
    let cut = cut_text(m, decoded);
    if hits_stop(m, decoded) {
        cut.len() as int
    } else {
        cut.len() - hold_len(cut, m.stop)
    }
}

/// This step hands new text to the stream.
pub open spec fn emits(m: GenerationModel, decoded: Seq<u8>) -> bool {
    m.stream && stream_target(m, decoded) > m.emitted.len()
}

/// The text this step hands to the stream.
pub open spec fn step_delta(m: GenerationModel, decoded: Seq<u8>) -> Seq<u8> {
    cut_text(m, decoded).subrange(m.emitted.len() as int, stream_target(m, decoded))
}

/// The step fails because what was streamed before does not end on a character
/// boundary of the new text.
pub open spec fn boundary_error(m: GenerationModel, decoded: Seq<u8>) -> bool {
    emits(m, decoded) && !is_char_boundary(cut_text(m, decoded), m.emitted.len() as int)
}

/// The state after the generated ids decoded to `decoded`.
pub open spec fn after_text(m: GenerationModel, decoded: Seq<u8>) -> GenerationModel {
    GenerationModel {
        text: cut_text(m, decoded),
        emitted: if emits(m, decoded) {
            m.emitted + step_delta(m, decoded)
        } else {
            m.emitted
        },
        stop_reason: if hits_stop(m, decoded) {
            StopReason::StopSequence
        } else {
            m.stop_reason
        },
        finished: hits_stop(m, decoded) || m.generated_tokens >= m.max_new_tokens,
        ..m
    }
}

/// The error returned when streamed text would not end on a character boundary.
pub open spec fn is_boundary_error_value(e: WaxError) -> bool {
    e matches WaxError::InvalidRequest(msg) && msg@ == "invalid UTF-8 stream boundary"@
}

/// What a text step returns and leaves behind, for decoded text `decoded`.
pub open spec fn text_step(
    m: GenerationModel,
    decoded: Seq<u8>,
    next: GenerationModel,
    r: Result<Option<String>, WaxError>,
) -> bool {
    if boundary_error(m, decoded) {
        r matches Err(e) && is_boundary_error_value(e)
    } else {
        &&& next == after_text(m, decoded)
        &&& match r {
            Ok(Some(delta)) => emits(m, decoded) && encode_utf8(delta@) == step_delta(m, decoded),
            Ok(None) => !emits(m, decoded),
            Err(_) => false,
        }
    }
}

/// The final flush hands text to the stream.
pub open spec fn flush_emits(m: GenerationModel) -> bool {
    m.stream && m.stop_reason != StopReason::StopSequence && m.text.len() > m.emitted.len()
}

/// The final flush fails on a character boundary.
pub open spec fn flush_error(m: GenerationModel) -> bool {
    flush_emits(m) && !is_char_boundary(m.text, m.emitted.len() as int)
}

/// The state after the final flush.
pub open spec fn after_flush(m: GenerationModel) -> GenerationModel {
    if flush_emits(m) {
        GenerationModel {
            emitted: m.emitted + m.text.subrange(m.emitted.len() as int, m.text.len() as int),
            ..m
        }
    } else {
        m
    }
}

/// The counters are in range: an unfinished generation may still sample.
pub open spec fn counters_ok(m: GenerationModel) -> bool {
    &&& 0 <= m.generated_tokens <= m.max_new_tokens
    &&& !m.finished ==> m.generated_tokens < m.max_new_tokens
}

/// The stream so far agrees with the text: it is a prefix of it, all of it once
/// a stop sequence was hit, and nothing when not streaming.
pub open spec fn stream_consistent(m: GenerationModel) -> bool {
    &&& has_prefix(m.text, m.emitted)
    &&& m.stop_reason == StopReason::StopSequence ==> m.finished
    &&& m.stream && m.stop_reason == StopReason::StopSequence ==> m.emitted == m.text
    &&& !m.stream ==> m.emitted.len() == 0
}

/// The controller of one generation.
pub struct GenerationState {
    stop: Vec<String>,
    engine_eos: Vec<u32>,
    request_eos: Vec<u32>,
    stream: bool,
    max_new_tokens: usize,
    token_ids: Vec<u32>,
    text: String,
    emitted_len: usize,
    emitted: Ghost<Seq<u8>>,
    generated_tokens: usize,
    stop_reason: StopReason,
    finished: bool,
}

impl View for GenerationState {
    type V = GenerationModel;

    closed spec fn view(&self) -> GenerationModel {
        GenerationModel {
            stop: stop_bytes(self.stop@),
            engine_eos: self.engine_eos@,
            request_eos: self.request_eos@,
            stream: self.stream,
            max_new_tokens: self.max_new_tokens as int,
            token_ids: self.token_ids@,
            text: encode_utf8(self.text@),
            emitted: self.emitted@,
            generated_tokens: self.generated_tokens as int,
            stop_reason: self.stop_reason,
            finished: self.finished,
        }
    }
}

/// Whether `v` holds `x`.
fn holds_id(v: &Vec<u32>, x: u32) -> (b: bool)
    ensures
        b == v@.contains(x),
{
    let mut i: usize = 0;
    while i < v.len()
        invariant
            i <= v@.len(),
            forall|j: int| 0 <= j < i ==> v@[j] != x,
        decreases v@.len() - i,
    {
        if v[i] == x {
            return true;
        }
        i = i + 1;
    }
    false
}

impl GenerationState {
    /// The controller's own bookkeeping holds.
    pub closed spec fn wf(&self) -> bool {
        &&& self.bookkept()
        &&& counters_ok(self@)
    }

    /// The streamed length and the counters agree with the state.
    pub closed spec fn bookkept(&self) -> bool {
        &&& self.emitted@.len() == self.emitted_len
        &&& 0 <= self.generated_tokens <= self.max_new_tokens
    }

    /// A controller for a generation of at most `max_new_tokens` tokens.
    pub fn new(
        max_new_tokens: usize,
        stop: Vec<String>,
        engine_eos: Vec<u32>,
        request_eos: Vec<u32>,
        stream: bool,
    ) -> (s: Self)
        ensures
            s.wf(),
            s@ == initial_model(
                max_new_tokens as int,
                stop_bytes(stop@),
                engine_eos@,
                request_eos@,
                stream,
            ),
    {
        GenerationState {
            stop,
            engine_eos,
            request_eos,
            stream,
            max_new_tokens,
            token_ids: Vec::new(),
            text: String::new(),
            emitted_len: 0,
            emitted: Ghost(Seq::empty()),
            generated_tokens: 0,
            stop_reason: StopReason::MaxTokens,
            finished: max_new_tokens == 0,
        }
    }

    /// Whether `token` ends the generation (an end-of-sequence id of the model or
    /// of the request).
    pub fn is_eos(&self, token: u32) -> (b: bool)
        ensures
            b == is_eos(self@, token),
    {
        holds_id(&self.engine_eos, token) || holds_id(&self.request_eos, token)
    }

    /// Whether the generation is over.
    pub fn is_finished(&self) -> (b: bool)
        ensures
            b == self@.finished,
    {
        self.finished
    }

    /// How many tokens were sampled, end-of-sequence tokens included.
    pub fn generated_tokens(&self) -> (n: usize)
        ensures
            n == self@.generated_tokens,
    {
        self.generated_tokens
    }

    /// Why the generation stopped (`MaxTokens` until something else stops it).
    pub fn stop_reason(&self) -> (r: StopReason)
        ensures
            r == self@.stop_reason,
    {
        self.stop_reason
    }

    /// The text generated so far.
    pub fn text(&self) -> (t: String)
        ensures
            encode_utf8(t@) == self@.text,
    {
        self.text.clone()
    }

    /// Records the text the generated ids decode to: cuts it at the earliest stop
    /// sequence, decides what may be streamed, and whether the generation is over.
    /// Returns the text to hand to the stream, if any.
    pub fn observe_text(&mut self, decoded: &str) -> (r: Result<Option<String>, WaxError>)
        requires
            old(self).wf(),
            !old(self)@.finished,
        ensures
            text_step(old(self)@, encode_utf8(decoded@), final(self)@, r),
            r is Ok ==> final(self).wf(),
    {
        self.record_text(decoded)
    }

    /// [`GenerationState::observe_text`] for a state whose count may just have
    /// reached the budget.
    fn record_text(&mut self, decoded: &str) -> (r: Result<Option<String>, WaxError>)
        requires
            old(self).bookkept(),
            !old(self)@.finished,
        ensures
            text_step(old(self)@, encode_utf8(decoded@), final(self)@, r),
            r is Ok ==> final(self).wf(),
    {
        let ghost m = self@;
        let ghost d = encode_utf8(decoded@);
        let (next_text, hit_stop) = apply_stop_sequences(decoded, self.stop.as_slice());
        assert(encode_utf8(next_text@) == cut_text(m, d));
        let target = if hit_stop {
            byte_len(next_text.as_str())
        } else {
            streamable_len(next_text.as_str(), self.stop.as_slice())
        };
        assert(hit_stop == hits_stop(m, d));
        assert(m.stop == stop_bytes(self.stop@));
        if hit_stop {
            assert(target == cut_text(m, d).len());
        } else {
            assert(target == cut_text(m, d).len() - hold_len(cut_text(m, d), m.stop));
        }
        assert(target == stream_target(m, d));
        let mut delta: Option<String> = None;
        if self.stream && target > self.emitted_len {
            proof {
                law_held_tail(next_text@, self.stop@);
                is_char_boundary_start_end_of_seq(encode_utf8(next_text@));
            }
            if !next_text.as_str().is_char_boundary(self.emitted_len) {
                return Err(invalid_request("invalid UTF-8 stream boundary"));
            }
            let piece = substring_bytes(next_text.as_str(), self.emitted_len, target);
            proof {
                self.emitted@ = self.emitted@ + encode_utf8(piece@);
            }
            self.emitted_len = target;
            delta = Some(piece);
        }
        self.text = next_text;
        if hit_stop {
            self.finished = true;
            self.stop_reason = StopReason::StopSequence;
        } else if self.generated_tokens >= self.max_new_tokens {
            self.finished = true;
        }
        assert(self@ == after_text(m, d));
        Ok(delta)
    }

    /// Takes the next sampled token: counts it, stops on an end-of-sequence id,
    /// and otherwise decodes all generated ids and records the text
    /// (see [`GenerationState::observe_text`]).
    pub fn accept_token(&mut self, tokenizer: &Tokenizer, token: u32) -> (r: Result<
        Option<String>,
        WaxError,
    >)
        requires
            old(self).wf(),
            !old(self)@.finished,
        ensures
            is_eos(old(self)@, token) ==> (r matches Ok(None) && final(self)@ == after_sample(
                old(self)@,
                token,
            ) && final(self).wf()),
            !is_eos(old(self)@, token) ==> match decoded_text(
                *tokenizer,
                after_sample(old(self)@, token).token_ids,
            ) {
                Ok(t) => text_step(after_sample(old(self)@, token), encode_utf8(t), final(self)@, r),
                Err(m) => r matches Err(WaxError::Tokenizer(e)) && e@ == m,
            },
            r is Ok ==> final(self).wf(),
    {
        self.generated_tokens = self.generated_tokens + 1;
        if self.is_eos(token) {
            self.stop_reason = StopReason::Eos;
            self.finished = true;
            return Ok(None);
        }
        self.token_ids.push(token);
        let decoded = match decode_ids(tokenizer, self.token_ids.as_slice()) {
            Ok(text) => text,
            Err(msg) => {
                return Err(WaxError::Tokenizer(msg));
            },
        };
        self.record_text(decoded.as_str())
    }

    /// Hands the rest of the text to the stream once the generation is over,
    /// unless it stopped at a stop sequence (then everything was streamed already).
    pub fn finish(&mut self) -> (r: Result<Option<String>, WaxError>)
        requires
            old(self).wf(),
        ensures
            flush_error(old(self)@) ==> (r matches Err(e) && is_boundary_error_value(e)),
            !flush_error(old(self)@) ==> {
                &&& final(self)@ == after_flush(old(self)@)
                &&& final(self).wf()
                &&& match r {
                    Ok(Some(delta)) => flush_emits(old(self)@) && encode_utf8(delta@)
                        == old(self)@.text.subrange(
                        old(self)@.emitted.len() as int,
                        old(self)@.text.len() as int,
                    ),
                    Ok(None) => !flush_emits(old(self)@),
                    Err(_) => false,
                }
            },
    {
        let len = byte_len(self.text.as_str());
        assert(len == self@.text.len());
        assert(self.emitted_len == self@.emitted.len());
        assert((self.stop_reason != StopReason::StopSequence) == (self@.stop_reason != StopReason::StopSequence));
        if self.stream && self.stop_reason != StopReason::StopSequence && len > self.emitted_len {
            if !self.text.as_str().is_char_boundary(self.emitted_len) {
                return Err(invalid_request("invalid UTF-8 stream boundary"));
            }
            proof {
                is_char_boundary_start_end_of_seq(encode_utf8(self.text@));
            }
            let piece = substring_bytes(self.text.as_str(), self.emitted_len, len);
            proof {
                self.emitted@ = self.emitted@ + encode_utf8(piece@);
            }
            self.emitted_len = len;
            return Ok(Some(piece));
        }
        Ok(None)
    }
}

/// `r` is what checking the encoder's answer `encoded` gives: its ids when there
/// are some, the refusal of a prompt without tokens, or the encoder's error.
pub open spec fn prompt_ids_result(
    encoded: Result<Seq<u32>, Seq<char>>,
    r: Result<Vec<u32>, WaxError>,
) -> bool {
    match encoded {
        Ok(ids) => if ids.len() > 0 {
            r matches Ok(v) && v@ == ids
        } else {
            r matches Err(WaxError::InvalidRequest(msg)) && msg@ == "prompt produced no tokens"@
        },
        Err(m) => r matches Err(WaxError::Tokenizer(e)) && e@ == m,
    }
}

/// The prompt's ids from what the encoder answered: an empty encoding is
/// refused, an encoder error is reported as a tokenizer error.
pub fn checked_prompt_ids(encoded: Result<Vec<u32>, String>) -> (r: Result<Vec<u32>, WaxError>)
    ensures
        prompt_ids_result(
            match encoded {
                Ok(v) => Ok(v@),
                Err(m) => Err(m@),
            },
            r,
        ),
{
    match encoded {
        Ok(ids) => {
            if ids.len() == 0 {
                Err(invalid_request("prompt produced no tokens"))
            } else {
                Ok(ids)
            }
        },
        Err(msg) => Err(WaxError::Tokenizer(msg)),
    }
}

/// Encodes the prompt with the tokenizer; a prompt that yields no tokens is
/// refused. The result is what [`checked_prompt_ids`] gives of the encoder's
/// answer (which ids the encoder gives is its own affair).
pub fn encode_prompt(tokenizer: &Tokenizer, prompt: &str, add_special_tokens: bool) -> (r: Result<
    Vec<u32>,
    WaxError,
>)
    ensures
        exists|encoded: Result<Seq<u32>, Seq<char>>| prompt_ids_result(encoded, r),
        r matches Ok(ids) ==> may_encode(*tokenizer, prompt@, add_special_tokens, ids@),
{
    let encoded = encode_ids(tokenizer, prompt, add_special_tokens);
    let ghost e = match &encoded {
        Ok(v) => Ok::<Seq<u32>, Seq<char>>(v@),
        Err(m) => Err(m@),
    };
    let r = checked_prompt_ids(encoded);
    assert(prompt_ids_result(e, r));
    r
}

/// Law: a generation starts with nothing streamed and nothing generated.
pub proof fn law_initial_stream_consistent(
    max_new_tokens: int,
    stop: Seq<Seq<u8>>,
    engine_eos: Seq<u32>,
    request_eos: Seq<u32>,
    stream: bool,
)
    ensures
        stream_consistent(initial_model(max_new_tokens, stop, engine_eos, request_eos, stream)),
{
    let m = initial_model(max_new_tokens, stop, engine_eos, request_eos, stream);
    assert(m.text.subrange(0, 0) =~= m.emitted);
}

/// Law: sampling a token leaves the text and the stream as they were; an
/// end-of-sequence token only ends the generation.
pub proof fn law_sample_keeps_stream(m: GenerationModel, token: u32)
    requires
        stream_consistent(m),
        !m.finished,
    ensures
        stream_consistent(after_sample(m, token)),
        after_sample(m, token).text == m.text,
        after_sample(m, token).emitted == m.emitted,
{
}

/// Law: when the newly decoded text (cut at its stop sequence) still begins with
/// what was already streamed, a step streams exactly the new bytes and the stream
/// stays a prefix of the text; once a stop sequence is hit the stream holds the
/// whole text.
pub proof fn law_step_keeps_stream(m: GenerationModel, decoded: Seq<u8>)
    requires
        stream_consistent(m),
        !m.finished,
        has_prefix(cut_text(m, decoded), m.emitted),
        !boundary_error(m, decoded),
    ensures
        stream_consistent(after_text(m, decoded)),
        after_text(m, decoded).emitted == if emits(m, decoded) {
            m.emitted + step_delta(m, decoded)
        } else {
            m.emitted
        },
{
    let c = cut_text(m, decoded);
    let e = m.emitted;
    let t = stream_target(m, decoded);
    lemma_hold_len_witness(c, m.stop);
    let n = after_text(m, decoded);
    assert(0 <= t <= c.len());
    if emits(m, decoded) {
        assert(e + c.subrange(e.len() as int, t) =~= c.subrange(0, t));
        assert(n.emitted.len() == t);
        assert(n.text.subrange(0, t) =~= n.emitted);
        if hits_stop(m, decoded) {
            assert(n.emitted =~= c);
        }
    } else {
        if hits_stop(m, decoded) && m.stream {
            assert(e =~= c);
        }
    }
}

/// Law: after the final flush a streamed generation has handed exactly its text
/// to the stream, so the concatenation of all streamed pieces is the returned
/// text (as long as every step kept the stream a prefix of the text).
pub proof fn law_flush_completes_stream(m: GenerationModel)
    requires
        stream_consistent(m),
        m.stream,
        !flush_error(m),
    ensures
        after_flush(m).emitted == m.text,
{
    if flush_emits(m) {
        assert(m.emitted + m.text.subrange(m.emitted.len() as int, m.text.len() as int) =~= m.text);
    } else if m.stop_reason != StopReason::StopSequence {
        assert(m.emitted =~= m.text);
    }
}

/// Law: with non-empty stop strings, neither the generated text nor anything
/// streamed from it ever contains a stop sequence.
pub proof fn law_stop_never_reaches_output(m: GenerationModel, decoded: Seq<u8>)
    requires
        forall|k: int| 0 <= k < m.stop.len() ==> (#[trigger] m.stop[k]).len() > 0,
        stream_consistent(m),
        !m.finished,
        has_prefix(cut_text(m, decoded), m.emitted),
        !boundary_error(m, decoded),
    ensures
        earliest_stop(after_text(m, decoded).text, m.stop) is None,
        earliest_stop(after_text(m, decoded).emitted, m.stop) is None,
{
    let n = after_text(m, decoded);
    lemma_truncation_stop_free(decoded, m.stop);
    law_step_keeps_stream(m, decoded);
    lemma_prefix_stop_free(n.text, n.emitted, m.stop);
}

/// Law: no generation samples more than `max_new_tokens` tokens. A token taken
/// while the generation is unfinished keeps the count within the budget, and the
/// token that uses up the budget finishes the generation, whether it is an
/// end-of-sequence token or its text is recorded.
pub proof fn law_token_budget(m: GenerationModel, token: u32, decoded: Seq<u8>)
    requires
        counters_ok(m),
        !m.finished,
    ensures
        after_sample(m, token).generated_tokens == m.generated_tokens + 1,
        after_sample(m, token).generated_tokens <= m.max_new_tokens,
        is_eos(m, token) ==> after_sample(m, token).finished && counters_ok(after_sample(m, token)),
        !is_eos(m, token) ==> counters_ok(after_text(after_sample(m, token), decoded)),
        !is_eos(m, token) && after_sample(m, token).generated_tokens == m.max_new_tokens
            ==> after_text(after_sample(m, token), decoded).finished,
{
}

/// Law: when each decoding extends the one before it, the premise of
/// [`law_step_keeps_stream`] carries over from step to step. After a step whose
/// decoded text `prev` held no stop sequence (and that streamed no further than
/// allowed), the next decoding `prev + added` cut at its stop sequence still
/// begins with everything streamed, and the streamable length has not shrunk
/// below it. A generation starts with nothing streamed, so by induction a partial
/// stop sequence is never streamed before it is known whether it completes.
pub proof fn law_extending_decode_keeps_stream(m: GenerationModel, prev: Seq<u8>, added: Seq<u8>)
    requires
        all_valid_utf8(m.stop),
        valid_utf8(added),
        !hits_stop(m, prev),
        has_prefix(cut_text(m, prev), m.emitted),
        m.emitted.len() <= stream_target(m, prev),
        !boundary_error(m, prev),
    ensures
        has_prefix(cut_text(after_text(m, prev), prev + added), after_text(m, prev).emitted),
        after_text(m, prev).emitted.len() <= stream_target(after_text(m, prev), prev + added),
{
    let n = after_text(m, prev);
    let t = stream_target(m, prev);
    lemma_hold_len_witness(prev, m.stop);
    assert(cut_text(m, prev) == prev);
    if emits(m, prev) {
        assert(n.emitted =~= prev.subrange(0, t)) by {
            assert(m.emitted + prev.subrange(m.emitted.len() as int, t) =~= prev.subrange(0, t));
        }
        assert(prev.subrange(0, t).subrange(0, t) =~= prev.subrange(0, t));
    }
    assert(has_prefix(prev, n.emitted)) by {
        if emits(m, prev) {
            assert(prev.subrange(0, n.emitted.len() as int) =~= n.emitted);
        }
    }
    lemma_extension_keeps_prefix(prev, added, m.stop, n.emitted);
    lemma_hold_len_after_append(prev, added, m.stop);
    lemma_hold_len_witness(prev + added, m.stop);
}

} // verus!
