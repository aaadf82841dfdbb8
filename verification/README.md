# wax_core

The core of `wax`, a small local LLM inference engine built on Candle, written
in Verus: every decision the engine takes is a verified function with a
contract.

- `src/` is the verified library: model-folder resolution (`loader`,
  `backend`), device and element-type choice (`device`), request checks and
  end-of-sequence ids (`engine`), sampling-setting checks (`sampling`), stop
  sequences and hold-back streaming (`stopping`, `text`), the token-by-token
  generation state (`generation`), incremental detokenization
  (`token_stream`), chat templates (`chat`) and the command line's decisions
  (`cli`). Calls into `tokenizers`, `minijinja`, `serde_json`, `candle-core`
  and `std::path` go through small trusted wrappers. Where a call's result is a
  function of its arguments (decoding, vocabulary lookup, rendering, JSON
  parsing, path splitting) the wrapper's contract names that result; encoding,
  which a tokenizer with dropout does at random, and the build's GPU support
  are left open, and the functions that use them say what holds whatever came
  back.
- `app/` is the `wax` program: argument parsing, file-system reads, the Candle
  forward pass and sampler, timings and JSON output. It hands the library plain
  values and follows its decisions.
- `tests/` exercises the library on concrete values.
