//! Text handling of the auxiliary vision bridge: pulling the JSON analysis out of a vision
//! model's reply and writing the notes handed to a text-only model.

use vstd::prelude::*;

use crate::engine::Backend;
use crate::json::{
    json_get_pointer_bool, json_get_pointer_str, json_get_str, json_object, json_pointer_bool, json_pointer_str, json_str_field,
    parses_as_json_object,
};
use crate::model_choice::{find_model_in_settings, settings_model_spec, ProviderModel};
use crate::text::{
    append_str, chars_of, decimal, decimal_string, find_chars, find_spec, find_str, has_prefix, lead_ws_count,
    lemma_find_from_bounds, lemma_lead_ws_bound, rfind_chars, rfind_spec, slice_chars, starts_with, string_of,
    take_chars, take_chars_spec, trim_chars, trim_spec, trim_start_spec, rfind_from, occurs_at, replace_all, replace_from,
};

verus! {

/// The text inside the first ``` fence (after an optional `json` tag), trimmed; none when
/// there is no closed fence or it holds only whitespace.
pub open spec fn fenced_json_spec(text: Seq<char>) -> Option<Seq<char>> {
    let t = trim_spec(text);
    match find_spec(t, "```"@) {
        None => None,
        Some(fs) => {
            let after = t.skip(fs + 3);
            let c0 = if has_prefix(after, "json"@) { after.skip(4) } else { after };
            let c = trim_start_spec(c0);
            match find_spec(c, "```"@) {
                None => None,
                Some(fe) => {
                    let inner = trim_spec(c.take(fe));
                    if inner.len() == 0 { None } else { Some(inner) }
                },
            }
        },
    }
}

pub fn extract_fenced_json(text: &str) -> (r: Option<String>)
    ensures
        match r {
            Some(s) => fenced_json_spec(text@) == Some(s@),
            None => fenced_json_spec(text@) is None,
        },
{
    let v = chars_of(text);
    let t = trim_chars(&v);
    proof { reveal_strlit("```"); reveal_strlit("json"); }
    let fs = match find_str(&t, "```") {
        Some(i) => i,
        None => return None,
    };
    proof { lemma_find_from_bounds(t@, "```"@, 0); }
    let tl = t.len();
    assert(fs + 3 <= tl);
    let after = slice_chars(&t, fs + 3, tl);
    assert(after@ =~= t@.skip(fs + 3));
    let c0 = if starts_with(&after, "json") {
        let x = slice_chars(&after, 4, after.len());
        assert(x@ =~= after@.skip(4));
        x
    } else {
        after
    };
    let k = lead_ws_count(&c0);
    proof { lemma_lead_ws_bound(c0@); }
    let c = slice_chars(&c0, k, c0.len());
    assert(c@ =~= trim_start_spec(c0@));
    let fe = match find_str(&c, "```") {
        Some(i) => i,
        None => return None,
    };
    proof { lemma_find_from_bounds(c@, "```"@, 0); }
    let body = slice_chars(&c, 0, fe);
    assert(body@ =~= c@.take(fe as int));
    let inner = trim_chars(&body);
    if inner.len() == 0 {
        return None;
    }
    Some(string_of(&inner))
}

/// The text of the JSON object in a vision model's reply: the fenced block if it is an object,
/// else the whole trimmed reply if it is one, else the span from the first `{` to the last `}`
/// if that is one.
pub open spec fn json_object_text_spec(text: Seq<char>) -> Option<Seq<char>> {
    let t = trim_spec(text);
    let fenced = fenced_json_spec(text);
    if fenced is Some && json_object(fenced->0) {
        fenced
    } else if json_object(t) {
        Some(t)
    } else {
        match (find_spec(t, "{"@), rfind_spec(t, "}"@)) {
            (Some(s), Some(e)) => if e > s && json_object(t.subrange(s, e + 1)) {
                Some(t.subrange(s, e + 1))
            } else {
                None
            },
            _ => None,
        }
    }
}

pub fn extract_json_object(text: &str) -> (r: Option<String>)
    ensures
        match r {
            Some(s) => json_object_text_spec(text@) == Some(s@),
            None => json_object_text_spec(text@) is None,
        },
{
    if let Some(inner) = extract_fenced_json(text) {
        if parses_as_json_object(inner.as_str()) {
            return Some(inner);
        }
    }
    let v = chars_of(text);
    let t = trim_chars(&v);
    let ts = string_of(&t);
    if parses_as_json_object(ts.as_str()) {
        return Some(ts);
    }
    let mut open: Vec<char> = Vec::new();
    open.push('{');
    let mut close: Vec<char> = Vec::new();
    close.push('}');
    proof { reveal_strlit("{"); reveal_strlit("}"); }
    assert(open@ =~= "{"@);
    assert(close@ =~= "}"@);
    let s = match find_chars(&t, &open) {
        Some(i) => i,
        None => return None,
    };
    let e = match rfind_chars(&t, &close) {
        Some(i) => i,
        None => return None,
    };
    proof { lemma_find_from_bounds(t@, open@, 0); lemma_rfind_bounds(t@, close@, t@.len() - close@.len()); }
    let tl2 = t.len();
    if e > s {
        assert(e + 1 <= tl2);
        let slice = slice_chars(&t, s, e + 1);
        let st = string_of(&slice);
        if parses_as_json_object(st.as_str()) {
            return Some(st);
        }
    }
    None
}

pub proof fn lemma_rfind_bounds(s: Seq<char>, p: Seq<char>, k: int)
    ensures
        rfind_from(s, p, k) matches Some(i) ==> 0 <= i <= k && i + p.len() <= s.len(),
    decreases k + 1,
{
    if k >= 0 && !occurs_at(s, p, k) {
        lemma_rfind_bounds(s, p, k - 1);
    }
}

/// The string under `key` in the analysis, or `none` when it is missing or empty.
pub open spec fn field_or_none(analysis: Seq<char>, key: Seq<char>) -> Seq<char> {
    match json_str_field(analysis, key) {
        Some(s) => if s.len() > 0 { s } else { "none"@ },
        None => "none"@,
    }
}

fn str_or_none(analysis: &str, key: &str) -> (r: String)
    ensures
        r@ == field_or_none(analysis@, key@),
{
    match json_get_str(analysis, key) {
        Some(s) => if s.as_str().is_empty() { String::from_str("none") } else { s },
        None => String::from_str("none"),
    }
}

/// The vision note for image `index` made from the JSON analysis text.
pub open spec fn vision_note_spec(index: nat, a: Seq<char>) -> Seq<char> {
    "image_"@ + decimal(index) + ":\n  image_overview: "@ + field_or_none(a, "image_overview"@)
        + "\n  visible_text: "@ + field_or_none(a, "visible_text"@)
        + "\n  objects_and_layout: "@ + field_or_none(a, "objects_and_layout"@)
        + "\n  charts_or_data: "@ + field_or_none(a, "charts_or_data"@)
        + "\n  user_request: "@ + field_or_none(a, "user_request"@)
        + "\n  user_request_answer: "@ + field_or_none(a, "user_request_answer"@)
        + "\n  evidence: "@ + field_or_none(a, "evidence"@)
        + "\n  uncertainty: "@ + field_or_none(a, "uncertainty"@)
}

/// Format a parsed JSON analysis into a note block.
pub fn format_vision_note(index: usize, analysis: &str) -> (r: String)
    ensures
        r@ == vision_note_spec(index as nat, analysis@),
{
    let mut s = String::from_str("image_");
    let n = decimal_string(index as u64);
    append_str(&mut s, n.as_str());
    append_str(&mut s, ":\n  image_overview: ");
    append_str(&mut s, str_or_none(analysis, "image_overview").as_str());
    append_str(&mut s, "\n  visible_text: ");
    append_str(&mut s, str_or_none(analysis, "visible_text").as_str());
    append_str(&mut s, "\n  objects_and_layout: ");
    append_str(&mut s, str_or_none(analysis, "objects_and_layout").as_str());
    append_str(&mut s, "\n  charts_or_data: ");
    append_str(&mut s, str_or_none(analysis, "charts_or_data").as_str());
    append_str(&mut s, "\n  user_request: ");
    append_str(&mut s, str_or_none(analysis, "user_request").as_str());
    append_str(&mut s, "\n  user_request_answer: ");
    append_str(&mut s, str_or_none(analysis, "user_request_answer").as_str());
    append_str(&mut s, "\n  evidence: ");
    append_str(&mut s, str_or_none(analysis, "evidence").as_str());
    append_str(&mut s, "\n  uncertainty: ");
    append_str(&mut s, str_or_none(analysis, "uncertainty").as_str());
    s
}

/// The note for image `index` when no JSON could be read: the first 800 characters of the
/// raw reply, marked as truncated when there were more.
pub open spec fn fallback_note_spec(index: nat, raw: Seq<char>) -> Seq<char> {
    let excerpt = take_chars_spec(raw, 800);
    let shown = if raw.len() > 800 { excerpt + "...[truncated]"@ } else { excerpt };
    "image_"@ + decimal(index) + ":\n  [structured analysis unavailable \u{2014} raw response excerpt]\n  raw_excerpt: "@ + shown
}

/// Format a fallback note when JSON parsing fails.
pub fn format_fallback_vision_note(index: usize, raw_response: &str) -> (r: String)
    ensures
        r@ == fallback_note_spec(index as nat, raw_response@),
{
    let mut excerpt = take_chars(raw_response, 800);
    let count = chars_of(raw_response).len();
    if count > 800 {
        append_str(&mut excerpt, "...[truncated]");
    }
    let mut s = String::from_str("image_");
    let n = decimal_string(index as u64);
    append_str(&mut s, n.as_str());
    append_str(&mut s, ":\n  [structured analysis unavailable \u{2014} raw response excerpt]\n  raw_excerpt: ");
    append_str(&mut s, excerpt.as_str());
    s
}

// ── when and how images go through the vision model ──

/// An image attached to a message: its base64 data and MIME type.
pub struct ImagePart {
    pub data: String,
    pub mime_type: String,
}

/// The backends that run a local model (LM Studio, Ollama), which take no images themselves.
pub open spec fn is_local_inference(b: Backend) -> bool {
    b == Backend::LmStudio || b == Backend::Ollama
}

pub open spec fn names_something(o: Option<Seq<char>>) -> bool {
    o matches Some(s) && s.len() > 0
}

/// Images go to the auxiliary vision model when there are some, the target is a local model,
/// `models.models.vision_enabled` is `true`, and `models.models.vision` names a model id and a
/// provider.
pub open spec fn uses_auxiliary_vision(settings: Seq<char>, backend: Backend, image_count: nat) -> bool {
    &&& image_count > 0
    &&& is_local_inference(backend)
    &&& json_pointer_bool(settings, "/models/models/vision_enabled"@) == Some(true)
    &&& names_something(json_pointer_str(settings, "/models/models/vision/id"@))
    &&& names_something(json_pointer_str(settings, "/models/models/vision/provider"@))
}

/// Decide whether to intercept images and use auxiliary vision (settings as JSON text).
pub fn should_use_auxiliary_vision(settings: &str, target_backend: Backend, images: &[ImagePart]) -> (b: bool)
    ensures
        b == uses_auxiliary_vision(settings@, target_backend, images@.len()),
{
    if images.len() == 0 {
        return false;
    }
    if !(target_backend == Backend::LmStudio || target_backend == Backend::Ollama) {
        return false;
    }
    let enabled = match json_get_pointer_bool(settings, "/models/models/vision_enabled") {
        Some(b) => b,
        None => false,
    };
    if !enabled {
        return false;
    }
    let has_id = match json_get_pointer_str(settings, "/models/models/vision/id") {
        Some(s) => !s.as_str().is_empty(),
        None => false,
    };
    let has_provider = match json_get_pointer_str(settings, "/models/models/vision/provider") {
        Some(s) => !s.as_str().is_empty(),
        None => false,
    };
    has_id && has_provider
}

/// The vision model the settings name (`models.models.vision`, provider `openai` when none is
/// given), found among the providers; none when no id, or an empty one, is given.
pub fn resolve_vision_model_config(settings: &str) -> (r: Option<ProviderModel>)
    ensures
        match json_pointer_str(settings@, "/models/models/vision/id"@) {
            None => r is None,
            Some(id) => if id.len() == 0 {
                r is None
            } else {
                settings_model_spec(
                    settings@,
                    id,
                    match json_pointer_str(settings@, "/models/models/vision/provider"@) {
                        Some(p) => p,
                        None => "openai"@,
                    },
                    r,
                )
            },
        },
{
    let id = match json_get_pointer_str(settings, "/models/models/vision/id") {
        Some(id) => id,
        None => return None,
    };
    let provider = match json_get_pointer_str(settings, "/models/models/vision/provider") {
        Some(p) => p,
        None => String::from_str("openai"),
    };
    if id.as_str().is_empty() {
        return None;
    }
    find_model_in_settings(settings, id.as_str(), provider.as_str())
}

/// What the vision model is asked about each image; `{prompt}` stands for the user's request.
pub const VISION_PROMPT_TEMPLATE: &'static str = "Analyze this image for another text-only model.
Return a concise note with these exact sections in JSON format.
Output only the JSON object, no markdown wrapping:

{
  \"image_overview\": \"fixed basic description of what the image is\",
  \"visible_text\": \"important OCR or readable text\",
  \"objects_and_layout\": \"important objects, positions, counts, and relationships\",
  \"charts_or_data\": \"chart/table/data details if present; otherwise 'none'\",
  \"user_request\": \"restate the user's request in one short sentence\",
  \"user_request_answer\": \"answer the user's request using the image when possible\",
  \"evidence\": \"the visual evidence supporting that answer\",
  \"uncertainty\": \"anything unclear, hidden, or guessed\"
}

Do not mention that you are a tool or a separate model.
Do not wrap the JSON in ``` fences.

User request:
{prompt}";

/// The question put to the vision model: the template with every `{prompt}` replaced by the
/// user's request.
pub fn vision_prompt(prompt: &str) -> (r: String)
    ensures
        r@ == replace_from(VISION_PROMPT_TEMPLATE@, "{prompt}"@, prompt@, 0),
{
    proof { reveal_strlit("{prompt}"); }
    replace_all(VISION_PROMPT_TEMPLATE, "{prompt}", prompt)
}

/// The note on image `index` (counted from 1) from the vision model's reply: the structured
/// note when the reply holds a JSON object, the raw excerpt otherwise, and a line saying the
/// analysis is unavailable when the call failed.
pub open spec fn image_note_spec(index: nat, reply: Result<Seq<char>, Seq<char>>) -> Seq<char> {
    match reply {
        Ok(text) => match json_object_text_spec(text) {
            Some(json) => vision_note_spec(index, json),
            None => fallback_note_spec(index, text),
        },
        Err(e) => "image_"@ + decimal(index) + ": [analysis unavailable: "@ + e + "]"@,
    }
}

pub open spec fn reply_view(r: Result<String, String>) -> Result<Seq<char>, Seq<char>> {
    match r {
        Ok(t) => Ok(t@),
        Err(e) => Err(e@),
    }
}

pub fn image_note(index: usize, reply: &Result<String, String>) -> (r: String)
    ensures
        r@ == image_note_spec(index as nat, reply_view(*reply)),
{
    match reply {
        Ok(text) => match extract_json_object(text.as_str()) {
            Some(json) => format_vision_note(index, json.as_str()),
            None => format_fallback_vision_note(index, text.as_str()),
        },
        Err(e) => {
            let mut s = String::from_str("image_");
            let n = decimal_string(index as u64);
            append_str(&mut s, n.as_str());
            append_str(&mut s, ": [analysis unavailable: ");
            append_str(&mut s, e.as_str());
            append_str(&mut s, "]");
            s
        },
    }
}

/// The notes, separated by blank lines.
pub open spec fn notes_joined(notes: Seq<Seq<char>>) -> Seq<char>
    decreases notes.len(),
{
    if notes.len() == 0 {
        seq![]
    } else if notes.len() == 1 {
        notes[0]
    } else {
        notes_joined(notes.drop_last()) + "\n\n"@ + notes.last()
    }
}

/// The text put before the request: the notes inside a `<vision-context>` block; none when
/// there are no notes.
pub open spec fn vision_context_spec(notes: Seq<Seq<char>>) -> Option<Seq<char>> {
    if notes.len() == 0 {
        None
    } else {
        Some("<vision-context>\n"@ + notes_joined(notes) + "\n</vision-context>"@)
    }
}

pub fn vision_context(notes: &Vec<String>) -> (r: Option<String>)
    ensures
        match r {
            Some(s) => vision_context_spec(Seq::new(notes@.len(), |i: int| notes@[i]@)) == Some(s@),
            None => vision_context_spec(Seq::new(notes@.len(), |i: int| notes@[i]@)) is None,
        },
{
    let ghost nv = Seq::new(notes@.len(), |i: int| notes@[i]@);
    if notes.len() == 0 {
        return None;
    }
    let mut joined = notes[0].clone();
    let mut i: usize = 1;
    assert(nv.take(1).drop_last() =~= Seq::<Seq<char>>::empty());
    while i < notes.len()
        invariant
            1 <= i <= notes@.len(),
            nv == Seq::new(notes@.len(), |i: int| notes@[i]@),
            joined@ == notes_joined(nv.take(i as int)),
        decreases notes@.len() - i,
    {
        append_str(&mut joined, "\n\n");
        append_str(&mut joined, notes[i].as_str());
        assert(nv.take(i + 1).drop_last() =~= nv.take(i as int));
        i = i + 1;
    }
    assert(nv.take(notes@.len() as int) =~= nv);
    let mut s = String::from_str("<vision-context>\n");
    append_str(&mut s, joined.as_str());
    append_str(&mut s, "\n</vision-context>");
    Some(s)
}

} // verus!
