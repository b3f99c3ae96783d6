//! Where and how the language model is asked.
use crate::domain::{AppError, ErrorKind};
use crate::json::{as_str, get, json_of, parse_json, spec_get, Json, JsonV};
use crate::text::{chars_of, string_of};
use vstd::prelude::*;

verus! {

/// The text without its trailing slashes.
pub open spec fn trim_slashes(s: Seq<char>) -> Seq<char>
    decreases s.len(),
{
    if s.len() > 0 && s.last() == '/' {
        trim_slashes(s.drop_last())
    } else {
        s
    }
}

/// `str::trim_end_matches('/')`.
pub fn trim_end_slashes(s: &str) -> (r: String)
    ensures
        r@ == trim_slashes(s@),
{
    let cs = chars_of(s);
    let mut n = cs.len();
    assert(cs@.take(cs@.len() as int) =~= cs@);
    while n > 0 && cs[n - 1] == '/'
        invariant
            n <= cs@.len(),
            cs@ == s@,
            trim_slashes(s@) == trim_slashes(cs@.take(n as int)),
        decreases n,
    {
        assert(cs@.take(n as int).drop_last() =~= cs@.take(n - 1));
        n -= 1;
    }
    assert(cs@.take(cs@.len() as int) =~= cs@);
    let head = vstd::slice::slice_subrange(cs.as_slice(), 0, n);
    string_of(head)
}

/// The chat endpoint and model for the configured settings: an error
/// without a key or without a base URL (the key is checked first), the
/// model "gpt-4o-mini" when none is set.
pub open spec fn spec_chat_target(base_url: Seq<char>, api_key: Seq<char>, model: Seq<char>) -> Result<(Seq<char>, Seq<char>), (ErrorKind, Seq<char>)> {
    if api_key.len() == 0 {
        Err((ErrorKind::Llm, "no LLM API key set — configure it in Settings"@))
    } else if base_url.len() == 0 {
        Err((ErrorKind::Llm, "no LLM base URL set — configure it in Settings"@))
    } else {
        Ok(
            (
                trim_slashes(base_url) + "/chat/completions"@,
                if model.len() == 0 {
                    "gpt-4o-mini"@
                } else {
                    model
                },
            ),
        )
    }
}

pub fn chat_target(base_url: &str, api_key: &str, model: &str) -> (r: Result<(String, String), AppError>)
    ensures
        match r {
            Ok((u, m)) => spec_chat_target(base_url@, api_key@, model@) == Ok::<(Seq<char>, Seq<char>), (ErrorKind, Seq<char>)>((u@, m@)),
            Err(e) => spec_chat_target(base_url@, api_key@, model@) == Err::<(Seq<char>, Seq<char>), (ErrorKind, Seq<char>)>(e.view_err()),
        },
{
    if api_key.unicode_len() == 0 {
        return Err(AppError::Llm(String::from_str("no LLM API key set — configure it in Settings")));
    }
    if base_url.unicode_len() == 0 {
        return Err(AppError::Llm(String::from_str("no LLM base URL set — configure it in Settings")));
    }
    let mut url = trim_end_slashes(base_url);
    url.append("/chat/completions");
    let m = if model.unicode_len() == 0 {
        String::from_str("gpt-4o-mini")
    } else {
        String::from_str(model)
    };
    Ok((url, m))
}

/// The content of the first reply choice, or the `Llm` error for a reply
/// without choices.
pub fn first_choice(choices: Vec<String>) -> (r: Result<String, AppError>)
    ensures
        choices@.len() > 0 ==> (r matches Ok(c) && c@ == choices@[0]@),
        choices@.len() == 0 ==> (r matches Err(e) && e.view_err() == (ErrorKind::Llm, "no choices in LLM response"@)),
{
    let mut choices = choices;
    if choices.len() == 0 {
        return Err(AppError::Llm(String::from_str("no choices in LLM response")));
    }
    Ok(choices.swap_remove(0))
}

/// What the model's reply text is read as: its JSON value, or the `Llm`
/// error "invalid JSON from LLM: " with the parser's message.
pub open spec fn spec_reply_json(content: Seq<char>) -> Result<JsonV, (ErrorKind, Seq<char>)> {
    match json_of(content) {
        Ok(v) => Ok(v),
        Err(m) => Err((ErrorKind::Llm, "invalid JSON from LLM: "@ + m)),
    }
}

pub fn reply_json(content: &str) -> (r: Result<Json, AppError>)
    ensures
        match r {
            Ok(j) => spec_reply_json(content@) == Ok::<JsonV, (ErrorKind, Seq<char>)>(j@),
            Err(e) => spec_reply_json(content@) == Err::<JsonV, (ErrorKind, Seq<char>)>(e.view_err()),
        },
{
    match parse_json(content) {
        Ok(j) => Ok(j),
        Err(m) => {
            let mut t = String::from_str("invalid JSON from LLM: ");
            t.append(m.as_str());
            Err(AppError::Llm(t))
        },
    }
}

/// The `insight` member of a reply, when it is a string.
pub open spec fn spec_insight(v: JsonV) -> Option<Seq<char>> {
    match spec_get(v, "insight"@) {
        Some(JsonV::Str(t)) => Some(t),
        _ => None,
    }
}

pub fn insight_of(v: &Json) -> (r: Option<String>)
    ensures
        match r {
            Some(t) => spec_insight(v@) == Some(t@),
            None => spec_insight(v@) is None,
        },
{
    match get(v, "insight") {
        Some(x) => match as_str(x) {
            Some(t) => Some(String::from_str(t)),
            None => None,
        },
        None => None,
    }
}

} // verus!
