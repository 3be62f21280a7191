//! Embedding requests: their body, the models they go to, and the name of
//! the file that keeps a response.

use vstd::prelude::*;
use vstd::string::StringExecFns;
use crate::json::{Json, field, parsed_json, parse_json, get_field};
use crate::text::{replace_all, replace_text, decimal, decimal_text, json_string, json_string_text};

verus! {

/// The embedding model used where none is named.
pub open spec fn default_embedding_model() -> Seq<char> {
    "togethercomputer/m2-bert-80M-2k-retrieval"@
}

/// The body of an embedding request: a JSON object of two strings.
pub open spec fn embedding_body(input: Seq<char>, model: Seq<char>) -> Seq<char> {
    "{\"input\": "@ + json_string(input) + ", \"model\": "@ + json_string(model) + "}"@
}

/// The body of an embedding request for `input` and `model`.
pub fn embedding_request_body(input: &str, model: &str) -> (r: String)
    ensures
        r@ == embedding_body(input@, model@),
{
    let mut b = String::from_str("{\"input\": ");
    b.append(json_string_text(input).as_str());
    b.append(", \"model\": ");
    b.append(json_string_text(model).as_str());
    b.append("}");
    b
}

/// The models to ask: those named, else the default one.
pub fn embedding_models(named: Option<Vec<String>>) -> (r: Vec<String>)
    ensures
        match named {
            Some(v) => r@ == v@,
            None => r@.len() == 1 && r@[0]@ == default_embedding_model(),
        },
{
    match named {
        Some(v) => v,
        None => vec![String::from_str("togethercomputer/m2-bert-80M-2k-retrieval")],
    }
}

/// Why a response is not kept.
#[derive(PartialEq, Eq, Structural, Debug, Clone, Copy)]
pub enum EmbeddingError {
    /// The response is not JSON.
    NotJson,
    /// It has no `data` array.
    NoData,
    /// Its `data` array is empty.
    NoEmbeddings,
    /// The first embedding has no integer `index`.
    NoIndex,
}

/// What a diagnostic says of an error, before the response itself.
pub open spec fn error_description(e: EmbeddingError) -> Seq<char> {
    match e {
        EmbeddingError::NotJson => "Could not parse JSON"@,
        EmbeddingError::NoData => "No data found in JSON"@,
        EmbeddingError::NoEmbeddings => "No embeddings found in JSON"@,
        EmbeddingError::NoIndex => "Could not find index in JSON"@,
    }
}

impl EmbeddingError {
    /// What a diagnostic says of this error, before the response itself.
    pub fn describe(&self) -> (r: String)
        ensures
            r@ == error_description(*self),
    {
        match self {
            EmbeddingError::NotJson => String::from_str("Could not parse JSON"),
            EmbeddingError::NoData => String::from_str("No data found in JSON"),
            EmbeddingError::NoEmbeddings => String::from_str("No embeddings found in JSON"),
            EmbeddingError::NoIndex => String::from_str("Could not find index in JSON"),
        }
    }
}

/// The index of the first embedding of a response, or why there is none. An
/// index of -1 counts as missing.
pub open spec fn first_index(j: Json) -> Result<i64, EmbeddingError> {
    match field(j, "data"@) {
        Some(Json::Array(items)) => if items@.len() == 0 {
            Err(EmbeddingError::NoEmbeddings)
        } else {
            match field(items@[0], "index"@) {
                Some(Json::Number(Some(i))) => if i == -1 {
                    Err(EmbeddingError::NoIndex)
                } else {
                    Ok(i)
                },
                _ => Err(EmbeddingError::NoIndex),
            }
        },
        _ => Err(EmbeddingError::NoData),
    }
}

/// The decimal numeral of an integer, with a minus sign where it is negative.
pub open spec fn signed_decimal(i: int) -> Seq<char> {
    if i < 0 {
        "-"@ + decimal((-i) as nat)
    } else {
        decimal(i as nat)
    }
}

/// The file that keeps a response: in `folder`, named by the model, with
/// each `/` made `_`, and the index of the first embedding.
pub open spec fn embedding_file(folder: Seq<char>, model: Seq<char>, index: int) -> Seq<char> {
    folder + "/"@ + replace_all(model, "/"@, "_"@) + "_"@ + signed_decimal(index) + ".json"@
}

fn signed_decimal_text(i: i64) -> (r: String)
    ensures
        r@ == signed_decimal(i as int),
{
    if i < 0 {
        let mut r = String::from_str("-");
        let magnitude: u64 = (-(i as i128)) as u64;
        r.append(decimal_text(magnitude).as_str());
        r
    } else {
        decimal_text(i as u64)
    }
}

/// The index of the first embedding of a parsed response.
pub fn first_embedding_index(j: &Json) -> (r: Result<i64, EmbeddingError>)
    ensures
        r == first_index(*j),
{
    match get_field(j, "data") {
        Some(Json::Array(items)) => {
            if items.len() == 0 {
                Err(EmbeddingError::NoEmbeddings)
            } else {
                match get_field(&items[0], "index") {
                    Some(Json::Number(Some(i))) => if *i == -1 {
                        Err(EmbeddingError::NoIndex)
                    } else {
                        Ok(*i)
                    },
                    _ => Err(EmbeddingError::NoIndex),
                }
            }
        },
        _ => Err(EmbeddingError::NoData),
    }
}

/// The path of the file that keeps the response `text` of `model`.
pub fn embedding_file_name(folder: &str, model: &str, text: &str) -> (r: Result<
    String,
    EmbeddingError,
>)
    ensures
        match parsed_json(text@) {
            None => r == Err::<String, EmbeddingError>(EmbeddingError::NotJson),
            Some(j) => match first_index(j) {
                Ok(i) => r matches Ok(p) && p@ == embedding_file(folder@, model@, i as int),
                Err(e) => r == Err::<String, EmbeddingError>(e),
            },
        },
{
    let j = match parse_json(text) {
        Some(j) => j,
        None => {
            return Err(EmbeddingError::NotJson);
        },
    };
    match first_embedding_index(&j) {
        Ok(i) => Ok(embedding_path(folder, model, i)),
        Err(e) => Err(e),
    }
}

/// The path of the file that keeps the embeddings of `model` whose first
/// index is `index`.
pub fn embedding_path(folder: &str, model: &str, index: i64) -> (r: String)
    ensures
        r@ == embedding_file(folder@, model@, index as int),
{
    proof {
        reveal_strlit("/");
    }
    let mut p = String::from_str(folder);
    p.append("/");
    p.append(replace_text(model, "/", "_").as_str());
    p.append("_");
    p.append(signed_decimal_text(index).as_str());
    p.append(".json");
    p
}

} // verus!
