//! The decisions about sampling settings: which settings are refused, in which
//! order, and which kind of sampling the accepted ones ask for.
//!
//! The settings' floating-point values stay with the caller, which hands over
//! the outcome of each comparison (a temperature that is finite and not
//! negative, a top-p between 0 and 1, a positive repetition penalty).
use vstd::prelude::*;
use vstd::string::*;

use crate::error::WaxError;

verus! {

/// Why sampling settings are refused: the first failing check, in the order
/// temperature, top-k, top-p, repetition penalty.
pub open spec fn sampling_problem(
    temperature_ok: bool,
    top_k: Option<usize>,
    top_p_ok: bool,
    repetition_penalty_ok: bool,
) -> Option<Seq<char>> {
    if !temperature_ok {
        Some("temperature must be finite and >= 0"@)
    } else if top_k == Some(0usize) {
        Some("top-k must be > 0"@)
    } else if !top_p_ok {
        Some("top-p must be finite and between 0 and 1"@)
    } else if !repetition_penalty_ok {
        Some("repetition penalty must be finite and > 0"@)
    } else {
        None
    }
}

/// Checks sampling settings: `temperature_ok` says the temperature is finite and
/// at least 0, `top_p_ok` that top-p is absent or finite and between 0 and 1,
/// `repetition_penalty_ok` that the penalty is finite and above 0.
pub fn validate_sampling(
    temperature_ok: bool,
    top_k: Option<usize>,
    top_p_ok: bool,
    repetition_penalty_ok: bool,
) -> (r: Result<(), WaxError>)
    ensures
        match sampling_problem(temperature_ok, top_k, top_p_ok, repetition_penalty_ok) {
            Some(msg) => r matches Err(WaxError::InvalidRequest(m)) && m@ == msg,
            None => r is Ok,
        },
{
    if !temperature_ok {
        return Err(WaxError::InvalidRequest(String::from_str("temperature must be finite and >= 0")));
    }
    match top_k {
        Some(k) => {
            if k == 0 {
                return Err(WaxError::InvalidRequest(String::from_str("top-k must be > 0")));
            }
        },
        None => {},
    }
    if !top_p_ok {
        return Err(
            WaxError::InvalidRequest(String::from_str("top-p must be finite and between 0 and 1")),
        );
    }
    if !repetition_penalty_ok {
        return Err(
            WaxError::InvalidRequest(String::from_str("repetition penalty must be finite and > 0")),
        );
    }
    Ok(())
}

/// The kind of sampling to run.
#[derive(Debug, Clone, Copy, PartialEq, Eq, Structural)]
pub enum SamplingMode {
    /// Always the most likely token.
    ArgMax,
    /// From the whole distribution.
    All,
    /// From the `k` most likely tokens.
    TopK { k: usize },
    /// From the smallest set of tokens reaching probability top-p.
    TopP,
    /// From the `k` most likely tokens, then cut at top-p.
    TopKThenTopP { k: usize },
}

/// The kind of sampling for the settings: greedy when the temperature is not
/// above 0, otherwise by which of top-k and top-p are set.
pub open spec fn mode_for(greedy: bool, top_k: Option<usize>, has_top_p: bool) -> SamplingMode {
    if greedy {
        SamplingMode::ArgMax
    } else {
        match top_k {
            None => if has_top_p {
                SamplingMode::TopP
            } else {
                SamplingMode::All
            },
            Some(k) => if has_top_p {
                SamplingMode::TopKThenTopP { k }
            } else {
                SamplingMode::TopK { k }
            },
        }
    }
}

/// Chooses the kind of sampling: `greedy` says the temperature is not above 0,
/// `has_top_p` that top-p is set.
pub fn sampling_mode(greedy: bool, top_k: Option<usize>, has_top_p: bool) -> (m: SamplingMode)
    ensures
        m == mode_for(greedy, top_k, has_top_p),
{
    if greedy {
        return SamplingMode::ArgMax;
    }
    match top_k {
        None => if has_top_p {
            SamplingMode::TopP
        } else {
            SamplingMode::All
        },
        Some(k) => if has_top_p {
            SamplingMode::TopKThenTopP { k }
        } else {
            SamplingMode::TopK { k }
        },
    }
}

/// Law: sampling settings are accepted exactly when the temperature, top-p and
/// repetition penalty pass their checks and top-k, when set, is positive; a
/// refusal is an invalid-request error.
pub proof fn law_sampling_check(
    temperature_ok: bool,
    top_k: Option<usize>,
    top_p_ok: bool,
    repetition_penalty_ok: bool,
    r: Result<(), WaxError>,
)
    requires
        match sampling_problem(temperature_ok, top_k, top_p_ok, repetition_penalty_ok) {
            Some(msg) => r matches Err(WaxError::InvalidRequest(m)) && m@ == msg,
            None => r is Ok,
        },
    ensures
        r is Ok <==> (temperature_ok && top_p_ok && repetition_penalty_ok && !(top_k matches Some(
            k,
        ) && k == 0)),
        r is Err ==> r matches Err(WaxError::InvalidRequest(_)),
{
}

/// Law: a temperature that is not above 0 always samples greedily; otherwise
/// top-k is used exactly when it is set (with its value) and top-p exactly when
/// it is set.
pub proof fn law_sampling_mode(greedy: bool, top_k: Option<usize>, has_top_p: bool)
    ensures
        greedy ==> mode_for(greedy, top_k, has_top_p) == SamplingMode::ArgMax,
        !greedy ==> (mode_for(greedy, top_k, has_top_p) is TopK || mode_for(
            greedy,
            top_k,
            has_top_p,
        ) is TopKThenTopP) == top_k is Some,
        !greedy ==> (mode_for(greedy, top_k, has_top_p) is TopP || mode_for(
            greedy,
            top_k,
            has_top_p,
        ) is TopKThenTopP) == has_top_p,
        forall|k: usize|
            !greedy && top_k == Some(k) ==> #[trigger] mode_for(greedy, Some(k), has_top_p) == (
            if has_top_p {
                SamplingMode::TopKThenTopP { k }
            } else {
                SamplingMode::TopK { k }
            }),
{
}

} // verus!
