//! Building an inference request, and planning which models a run targets.

use vstd::prelude::*;
use vstd::string::StringExecFns;
use crate::catalog::placeholder;
use crate::text::{replace_all, replace_text, decimal, decimal_text, json_string, json_string_text};

verus! {

/// The model used where none is named and none is configured.
pub open spec fn fallback_model() -> Seq<char> {
    "togethercomputer/llama-2-70b-chat"@
}

/// The prompt that a template gives for the user's text: every placeholder
/// replaced by the text.
pub open spec fn compiled_prompt(template: Seq<char>, user_text: Seq<char>) -> Seq<char> {
    replace_all(template, placeholder(), user_text)
}

/// Substitutes the user's text for every placeholder of a template.
pub fn compile_prompt(template: &str, user_text: &str) -> (r: String)
    ensures
        r@ == compiled_prompt(template@, user_text@),
{
    let pat = crate::catalog::placeholder_text();
    proof {
        reveal_strlit("{prompt}");
    }
    replace_text(template, pat.as_str(), user_text)
}

/// The generation parameters that the caller gave. The real-valued ones are
/// held as the decimal text that goes into the request.
pub struct GenerationParams {
    pub max_tokens: Option<usize>,
    pub temperature: Option<String>,
    pub top_p: Option<String>,
    pub top_k: Option<u32>,
    pub repetition_penalty: Option<String>,
}

/// A given text, or the default.
pub open spec fn text_or(t: Option<String>, default: Seq<char>) -> Seq<char> {
    match t {
        Some(s) => s@,
        None => default,
    }
}

/// The body of an inference request: a JSON object whose model and prompt
/// are JSON strings, with the defaults for what was not given: 512 tokens, temperature 0, top-p 0.7, top-k 50, repetition
/// penalty 1.
pub open spec fn request_body(model: Seq<char>, prompt: Seq<char>, p: GenerationParams) -> Seq<
    char,
> {
    "{\"model\": "@ + json_string(model) + ",\"prompt\": "@ + json_string(prompt) + ",\"max_tokens\": "@
        + decimal(
        match p.max_tokens {
            Some(n) => n as nat,
            None => 512,
        },
    ) + ",\"temperature\": "@ + text_or(p.temperature, "0"@) + ",\"top_p\": "@ + text_or(
        p.top_p,
        "0.7"@,
    ) + ",\"top_k\": "@ + decimal(
        match p.top_k {
            Some(n) => n as nat,
            None => 50,
        },
    ) + ",\"repetition_penalty\": "@ + text_or(p.repetition_penalty, "1"@)
        + ",\"stream_tokens\": true}"@
}

fn given_or(t: &Option<String>, default: &str) -> (r: String)
    ensures
        r@ == text_or(*t, default@),
{
    match t {
        Some(s) => s.clone(),
        None => String::from_str(default),
    }
}

/// The body of the inference request for `model` and a compiled prompt.
pub fn build_request_body(model: &str, prompt: &str, params: &GenerationParams) -> (r: String)
    ensures
        r@ == request_body(model@, prompt@, *params),
{
    let max_tokens: u64 = match params.max_tokens {
        Some(n) => n as u64,
        None => 512,
    };
    let top_k: u64 = match params.top_k {
        Some(n) => n as u64,
        None => 50,
    };
    let mut b = String::from_str("{\"model\": ");
    b.append(json_string_text(model).as_str());
    b.append(",\"prompt\": ");
    b.append(json_string_text(prompt).as_str());
    b.append(",\"max_tokens\": ");
    b.append(decimal_text(max_tokens).as_str());
    b.append(",\"temperature\": ");
    b.append(given_or(&params.temperature, "0").as_str());
    b.append(",\"top_p\": ");
    b.append(given_or(&params.top_p, "0.7").as_str());
    b.append(",\"top_k\": ");
    b.append(decimal_text(top_k).as_str());
    b.append(",\"repetition_penalty\": ");
    b.append(given_or(&params.repetition_penalty, "1").as_str());
    b.append(",\"stream_tokens\": true}");
    b
}

/// The models a run targets: the listed chat models in all-models mode
/// where there are any; else the models named, where a list was given;
/// else the one default model.
pub open spec fn targets(listed: Option<Seq<Seq<char>>>, named: Option<Seq<Seq<char>>>, default: Seq<
    char,
>) -> Seq<Seq<char>> {
    match listed {
        Some(l) if l.len() > 0 => l,
        _ => match named {
            Some(n) => n,
            None => seq![default],
        },
    }
}

pub open spec fn texts_opt(v: Option<Vec<String>>) -> Option<Seq<Seq<char>>> {
    match v {
        Some(v) => Some(crate::catalog::texts_view(v@)),
        None => None,
    }
}

/// The model of the run where none is named: the configured one, else the
/// fallback.
pub fn default_model(configured: Option<String>) -> (r: String)
    ensures
        r@ == text_or(configured, fallback_model()),
{
    match configured {
        Some(m) => m,
        None => String::from_str("togethercomputer/llama-2-70b-chat"),
    }
}

/// The models a run targets, in order. `listed` is the chat-model list in
/// all-models mode, `named` the models given by name.
pub fn target_models(listed: Option<Vec<String>>, named: Option<Vec<String>>, default: String) -> (r:
    Vec<String>)
    ensures
        crate::catalog::texts_view(r@) == targets(texts_opt(listed), texts_opt(named), default@),
{
    match listed {
        Some(l) if l.len() > 0 => l,
        _ => match named {
            Some(n) => n,
            None => {
                let v = vec![default];
                assert(crate::catalog::texts_view(v@) =~= seq![default@]);
                v
            },
        },
    }
}

/// Whether each model's output is headed by its name: where a run targets
/// more than one model.
pub fn shows_headers(targets: &Vec<String>) -> (r: bool)
    ensures
        r == (targets@.len() > 1),
{
    targets.len() > 1
}

/// The line that heads a model's output.
pub fn model_header(model: &str) -> (r: String)
    ensures
        r@ == "# Model: "@ + model@,
{
    let mut h = String::from_str("# Model: ");
    h.append(model);
    h
}

} // verus!
