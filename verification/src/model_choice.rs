//! Finding models in the settings (the providers the user configured), choosing the model for
//! translations and for reading facts out of notes, and reading the facts a model reports.

use vstd::prelude::*;

use crate::engine::{backend_for_provider, backend_named, Backend};
use crate::json::{
    json_array_items, json_as_string, json_get_array_items, json_get_object_entries, json_get_pointer_str,
    json_get_pointer_text, json_get_str, json_object_entries, json_pointer_str, json_pointer_text, json_str_field,
    json_string_value, parses_as_json, json_valid,
};
use crate::text::{
    append_str, chars_of, eq_ignore_ascii_case, eq_ignore_ascii_case_spec, find_str, find_spec, has_prefix,
    has_suffix, lemma_find_from_bounds, find_from, occurs_at, lemma_trail_run_bound, lowercase, replace_all, replace_from, slice_chars,
    split_once, split_once_spec, starts_with, str_eq, string_of, to_lowercase, trail_run, trail_run_count, trim,
    trim_chars, trim_spec, ends_with,
};

verus! {

// ── models in the settings ──

/// A model found among the providers of the settings.
pub struct ProviderModel {
    /// The provider's key in the settings.
    pub name: String,
    pub model: String,
    pub backend: Backend,
    pub api_key_env: Option<String>,
    pub base_url: Option<String>,
    pub context_size: usize,
}

pub open spec fn opt_chars(o: Option<String>) -> Option<Seq<char>> {
    match o {
        Some(s) => Some(s@),
        None => None,
    }
}

/// A base address without trailing `/`, with `/v1` added for the OpenAI-compatible backends
/// (LM Studio, Ollama, OpenAI) when it does not end so already.
pub open spec fn normalized_base_url(url: Seq<char>, backend: Backend) -> Seq<char> {
    let t = url.take(url.len() - trail_run(url, '/'));
    if (backend == Backend::LmStudio || backend == Backend::Ollama || backend == Backend::OpenAI) && !has_suffix(
        t,
        "/v1"@,
    ) && t.len() > 0 {
        t + "/v1"@
    } else {
        t
    }
}

pub fn normalize_base_url(url: &str, backend: Backend) -> (r: String)
    ensures
        r@ == normalized_base_url(url@, backend),
{
    let v = chars_of(url);
    let k = trail_run_count(&v, '/');
    proof {
        lemma_trail_run_bound(v@, '/');
    }
    let t = slice_chars(&v, 0, v.len() - k);
    assert(t@ =~= url@.take(url@.len() - trail_run(url@, '/')));
    let mut r = string_of(&t);
    if (backend == Backend::LmStudio || backend == Backend::Ollama || backend == Backend::OpenAI) && !ends_with(&t, "/v1")
        && t.len() > 0 {
        append_str(&mut r, "/v1");
    }
    r
}

/// The providers of the settings: under `providers`, else under `general.providers`.
pub open spec fn providers_text(settings: Seq<char>) -> Option<Seq<char>> {
    match json_pointer_text(settings, "/providers"@) {
        Some(p) => Some(p),
        None => json_pointer_text(settings, "/general/providers"@),
    }
}

/// Whether a provider's key names the provider, in any ASCII letter case.
pub open spec fn provider_key_matches(key: Seq<char>, provider: Seq<char>) -> bool {
    eq_ignore_ascii_case_spec(key, lowercase(provider)) || eq_ignore_ascii_case_spec(key, provider)
}

/// The first entry from position `k` on whose key names the provider.
pub open spec fn first_provider_from(es: Seq<(Seq<char>, Seq<char>)>, provider: Seq<char>, k: int) -> Option<int>
    decreases es.len() - k,
{
    if k < 0 || k >= es.len() {
        None
    } else if provider_key_matches(es[k].0, provider) {
        Some(k)
    } else {
        first_provider_from(es, provider, k + 1)
    }
}

/// Whether a listed model (JSON text) is the model: a string equal to its id, or an object
/// whose `id` is.
pub open spec fn lists_model(item: Seq<char>, model_id: Seq<char>) -> bool {
    json_string_value(item) == Some(model_id) || json_str_field(item, "id"@) == Some(model_id)
}

/// The provider (key and JSON text) that lists the model: the first provider whose key names
/// the provider and whose `models` list holds the model.
pub open spec fn provider_listing(settings: Seq<char>, model_id: Seq<char>, provider: Seq<char>) -> Option<(Seq<char>, Seq<char>)> {
    match providers_text(settings) {
        None => None,
        Some(p) => match json_object_entries(p) {
            None => None,
            Some(es) => match first_provider_from(es, provider, 0) {
                None => None,
                Some(i) => match json_array_items(es[i].1, "models"@) {
                    None => None,
                    Some(items) => if exists|j: int| 0 <= j < items.len() && lists_model(#[trigger] items[j], model_id) {
                        Some(es[i])
                    } else {
                        None
                    },
                },
            },
        },
    }
}

/// The model as the settings describe it, when a provider lists it: named after the provider's
/// key, with the provider's API key variable and normalized base address, and a context of
/// 128000.
pub open spec fn settings_model_spec(settings: Seq<char>, model_id: Seq<char>, provider: Seq<char>, r: Option<ProviderModel>) -> bool {
    match provider_listing(settings, model_id, provider) {
        None => r is None,
        Some((key, value)) => {
            let backend = backend_named(lowercase(provider));
            r matches Some(m) && {
                &&& m.name@ == key
                &&& m.model@ == model_id
                &&& m.backend == backend
                &&& opt_chars(m.api_key_env) == json_str_field(value, "api_key_env"@)
                &&& opt_chars(m.base_url) == match json_str_field(value, "base_url"@) {
                    Some(u) => Some(normalized_base_url(u, backend)),
                    None => None,
                }
                &&& m.context_size == 128000
            }
        },
    }
}

fn lists_model_exec(item: &str, model_id: &str) -> (b: bool)
    ensures
        b == lists_model(item@, model_id@),
{
    let as_string = match json_as_string(item) {
        Some(s) => str_eq(s.as_str(), model_id),
        None => false,
    };
    if as_string {
        return true;
    }
    match json_get_str(item, "id") {
        Some(s) => str_eq(s.as_str(), model_id),
        None => false,
    }
}

fn find_provider(entries: &Vec<(String, String)>, provider: &str) -> (r: Option<usize>)
    ensures
        ({
            let es = Seq::new(entries@.len(), |i: int| (entries@[i].0@, entries@[i].1@));
            match r {
                Some(f) => f < entries@.len() && first_provider_from(es, provider@, 0) == Some(f as int),
                None => first_provider_from(es, provider@, 0) is None,
            }
        }),
{
    let ghost es = Seq::new(entries@.len(), |i: int| (entries@[i].0@, entries@[i].1@));
    let lower = to_lowercase(provider);
    let lower_v = chars_of(lower.as_str());
    let prov_v = chars_of(provider);
    let mut i: usize = 0;
    while i < entries.len()
        invariant
            i <= entries@.len(),
            es == Seq::new(entries@.len(), |i: int| (entries@[i].0@, entries@[i].1@)),
            lower_v@ == lowercase(provider@),
            prov_v@ == provider@,
            first_provider_from(es, provider@, 0) == first_provider_from(es, provider@, i as int),
        decreases entries@.len() - i,
    {
        let key = chars_of(entries[i].0.as_str());
        assert(key@ == es[i as int].0);
        if eq_ignore_ascii_case(&key, &lower_v) || eq_ignore_ascii_case(&key, &prov_v) {
            return Some(i);
        }
        i = i + 1;
    }
    None
}

fn any_lists_model(items: &Vec<String>, model_id: &str) -> (b: bool)
    ensures
        ({
            let its = Seq::new(items@.len(), |j: int| items@[j]@);
            b == exists|j: int| 0 <= j < its.len() && lists_model(#[trigger] its[j], model_id@)
        }),
{
    let ghost its = Seq::new(items@.len(), |j: int| items@[j]@);
    let mut j: usize = 0;
    while j < items.len()
        invariant
            j <= items@.len(),
            its == Seq::new(items@.len(), |j: int| items@[j]@),
            forall|t: int| 0 <= t < j ==> !lists_model(#[trigger] its[t], model_id@),
        decreases items@.len() - j,
    {
        if lists_model_exec(items[j].as_str(), model_id) {
            assert(lists_model(its[j as int], model_id@));
            return true;
        }
        j = j + 1;
    }
    false
}

/// Finds a model among the providers of the settings (JSON text); see `settings_model_spec`.
pub fn find_model_in_settings(settings: &str, model_id: &str, provider: &str) -> (r: Option<ProviderModel>)
    ensures
        settings_model_spec(settings@, model_id@, provider@, r),
{
    let providers = match json_get_pointer_text(settings, "/providers") {
        Some(p) => p,
        None => match json_get_pointer_text(settings, "/general/providers") {
            Some(p) => p,
            None => return None,
        },
    };
    let entries = match json_get_object_entries(providers.as_str()) {
        Some(e) => e,
        None => return None,
    };
    let ghost es = Seq::new(entries@.len(), |i: int| (entries@[i].0@, entries@[i].1@));
    let f = match find_provider(&entries, provider) {
        Some(f) => f,
        None => return None,
    };
    let value = entries[f].1.as_str();
    assert(value@ == es[f as int].1);
    let items = match json_get_array_items(value, "models") {
        Some(v) => v,
        None => return None,
    };
    if !any_lists_model(&items, model_id) {
        return None;
    }
    let backend = backend_for_provider(provider);
    let api_key_env = json_get_str(value, "api_key_env");
    let base_url = match json_get_str(value, "base_url") {
        Some(u) => Some(normalize_base_url(u.as_str(), backend)),
        None => None,
    };
    Some(ProviderModel {
        name: entries[f].0.clone(),
        model: String::from_str(model_id),
        backend,
        api_key_env,
        base_url,
        context_size: 128000,
    })
}

// ── the model for side jobs ──

/// The model the settings name as the utility model (`models.models.utility`), found among
/// the providers; its provider defaults to `lmstudio`.
pub fn utility_model(settings: &str) -> (r: Option<ProviderModel>)
    ensures
        match json_pointer_str(settings@, "/models/models/utility/id"@) {
            None => r is None,
            Some(id) => settings_model_spec(
                settings@,
                id,
                match json_pointer_str(settings@, "/models/models/utility/provider"@) {
                    Some(p) => p,
                    None => "lmstudio"@,
                },
                r,
            ),
        },
{
    let id = match json_get_pointer_str(settings, "/models/models/utility/id") {
        Some(id) => id,
        None => return None,
    };
    let provider = match json_get_pointer_str(settings, "/models/models/utility/provider") {
        Some(p) => p,
        None => String::from_str("lmstudio"),
    };
    find_model_in_settings(settings, id.as_str(), provider.as_str())
}

/// A configured model as the choice of a translation model reads it: its model id (if any),
/// its name, and its backend's name.
pub struct ListedModel {
    pub model: Option<String>,
    pub name: String,
    pub backend_name: String,
}

/// The id a configured model goes by: its model id, else its name.
pub open spec fn listed_id(m: ListedModel) -> Seq<char> {
    match m.model {
        Some(x) => x@,
        None => m.name@,
    }
}

/// The first configured model with a non-empty id, from position `k` on.
pub open spec fn first_usable_from(ms: Seq<ListedModel>, k: int) -> Option<int>
    decreases ms.len() - k,
{
    if k < 0 || k >= ms.len() {
        None
    } else if listed_id(ms[k]).len() > 0 {
        Some(k)
    } else {
        first_usable_from(ms, k + 1)
    }
}

/// The first model a provider lists: a string, or the `id` of an object.
pub open spec fn provider_first_model(value: Seq<char>) -> Option<Seq<char>> {
    match json_array_items(value, "models"@) {
        Some(items) => if items.len() > 0 {
            match json_string_value(items[0]) {
                Some(s) => Some(s),
                None => json_str_field(items[0], "id"@),
            }
        } else {
            None
        },
        None => None,
    }
}

/// The first provider, from position `k` on, that lists a first model.
pub open spec fn first_listing_from(es: Seq<(Seq<char>, Seq<char>)>, k: int) -> Option<int>
    decreases es.len() - k,
{
    if k < 0 || k >= es.len() {
        None
    } else if provider_first_model(es[k].1) is Some {
        Some(k)
    } else {
        first_listing_from(es, k + 1)
    }
}

/// The active model of the settings, when both its id and its provider are given and not empty.
pub open spec fn active_pair(settings: Seq<char>) -> Option<(Seq<char>, Seq<char>)> {
    match (json_pointer_str(settings, "/active_model/id"@), json_pointer_str(settings, "/active_model/provider"@)) {
        (Some(i), Some(p)) => if i.len() > 0 && p.len() > 0 {
            Some((i, p))
        } else {
            None
        },
        _ => None,
    }
}

/// The model for a translation, as (model id, provider): the active model of the settings
/// when both are given; else the first configured model with an id; else the first model
/// listed by a provider under `providers`; else none.
pub open spec fn translation_model_spec(settings: Seq<char>, ms: Seq<ListedModel>) -> Option<(Seq<char>, Seq<char>)> {
    if active_pair(settings) is Some {
        active_pair(settings)
    } else {
        match first_usable_from(ms, 0) {
            Some(k) => Some((listed_id(ms[k]), ms[k].backend_name@)),
            None => match json_pointer_text(settings, "/providers"@) {
                None => None,
                Some(p) => match json_object_entries(p) {
                    None => None,
                    Some(es) => match first_listing_from(es, 0) {
                        None => None,
                        Some(k) => Some((provider_first_model(es[k].1)->0, es[k].0)),
                    },
                },
            },
        }
    }
}

fn first_model_of(value: &str) -> (r: Option<String>)
    ensures
        opt_chars(r) == provider_first_model(value@),
{
    let items = match json_get_array_items(value, "models") {
        Some(v) => v,
        None => return None,
    };
    if items.len() == 0 {
        return None;
    }
    match json_as_string(items[0].as_str()) {
        Some(s) => Some(s),
        None => json_get_str(items[0].as_str(), "id"),
    }
}

fn providers_first_model(settings: &str) -> (r: Option<(String, String)>)
    ensures
        match json_pointer_text(settings@, "/providers"@) {
            None => r is None,
            Some(p) => match json_object_entries(p) {
                None => r is None,
                Some(es) => match first_listing_from(es, 0) {
                    None => r is None,
                    Some(k) => r matches Some((id, key)) && id@ == provider_first_model(es[k].1)->0 && key@ == es[k].0,
                },
            },
        },
{
    let providers = match json_get_pointer_text(settings, "/providers") {
        Some(p) => p,
        None => return None,
    };
    let entries = match json_get_object_entries(providers.as_str()) {
        Some(e) => e,
        None => return None,
    };
    let ghost es = Seq::new(entries@.len(), |i: int| (entries@[i].0@, entries@[i].1@));
    let mut i: usize = 0;
    while i < entries.len()
        invariant
            i <= entries@.len(),
            es == Seq::new(entries@.len(), |i: int| (entries@[i].0@, entries@[i].1@)),
            json_pointer_text(settings@, "/providers"@) == Some(providers@),
            json_object_entries(providers@) == Some(es),
            first_listing_from(es, 0) == first_listing_from(es, i as int),
        decreases entries@.len() - i,
    {
        assert(es[i as int].1 == entries@[i as int].1@);
        assert(es[i as int].0 == entries@[i as int].0@);
        match first_model_of(entries[i].1.as_str()) {
            Some(id) => {
                return Some((id, entries[i].0.clone()));
            },
            None => {},
        }
        i = i + 1;
    }
    None
}

/// The model for a translation; see `translation_model_spec`. Without one the answer is the
/// error that asks the user to add a model.
pub fn translation_model(settings: &str, models: &Vec<ListedModel>) -> (r: Result<(String, String), String>)
    ensures
        match translation_model_spec(settings@, models@) {
            Some((id, p)) => r matches Ok((i, q)) && i@ == id && q@ == p,
            None => r matches Err(e) && e@
                == "No model configured. Please add a model in Settings \u{2192} Providers first."@,
        },
{
    let id = json_get_pointer_str(settings, "/active_model/id");
    let prov = json_get_pointer_str(settings, "/active_model/provider");
    match (id, prov) {
        (Some(i), Some(p)) => {
            if !i.as_str().is_empty() && !p.as_str().is_empty() {
                return Ok((i, p));
            }
        },
        _ => {},
    }
    assert(active_pair(settings@) is None);
    let mut k: usize = 0;
    while k < models.len()
        invariant
            k <= models@.len(),
            active_pair(settings@) is None,
            first_usable_from(models@, 0) == first_usable_from(models@, k as int),
        decreases models@.len() - k,
    {
        let m = &models[k];
        let id = match &m.model {
            Some(x) => x.clone(),
            None => m.name.clone(),
        };
        if !id.as_str().is_empty() {
            return Ok((id, m.backend_name.clone()));
        }
        k = k + 1;
    }
    match providers_first_model(settings) {
        Some(found) => Ok(found),
        None => Err(String::from_str("No model configured. Please add a model in Settings \u{2192} Providers first.")),
    }
}

/// The request to translate a text, keeping its formatting and adding nothing.
pub fn translation_prompt(text: &str, target: &str) -> (r: String)
    ensures
        r@ == "Translate the following text to "@ + target@
            + ". IMPORTANT: output ONLY the translated text, preserve all markdown formatting (headings, lists, code blocks, links), do NOT add any explanations or notes.\n\n"@
            + text@,
{
    let mut r = String::from_str("Translate the following text to ");
    append_str(&mut r, target);
    append_str(
        &mut r,
        ". IMPORTANT: output ONLY the translated text, preserve all markdown formatting (headings, lists, code blocks, links), do NOT add any explanations or notes.\n\n",
    );
    append_str(&mut r, text);
    r
}

// ── facts read out of notes ──

/// The request to read facts about the user out of a text, one `trait: value (confidence)`
/// line each.
pub fn cognition_prompt(text: &str) -> (r: String)
    ensures
        r@ == "Extract key facts about the user from this text. For each fact, output one line:\ntrait: value (confidence: 0.0 to 1.0)\n\nExample:\nprofession: backend engineer (confidence: 0.95)\npreference: likes Rust (confidence: 0.8)\ntech_stack: Rust, Python (confidence: 0.9)\n\nText:\n"@
            + text@ + "\n\nOutput one line per fact. If nothing to extract, output NONE."@,
{
    let mut r = String::from_str(
        "Extract key facts about the user from this text. For each fact, output one line:\ntrait: value (confidence: 0.0 to 1.0)\n\nExample:\nprofession: backend engineer (confidence: 0.95)\npreference: likes Rust (confidence: 0.8)\ntech_stack: Rust, Python (confidence: 0.9)\n\nText:\n",
    );
    append_str(&mut r, text);
    append_str(&mut r, "\n\nOutput one line per fact. If nothing to extract, output NONE.");
    r
}

/// What one line of a model's fact report holds.
pub enum CognitionLine {
    /// Nothing to keep.
    Skip,
    /// `trait: value`, with the text of its confidence when the line gives one (the caller
    /// reads it as a number, 0.7 when it is none).
    Fact { trait_name: String, value: String, confidence: Option<String> },
    /// A line that is a JSON object without `:` outside it; its `trait` (else `general`) and
    /// `value` (else the line itself); the caller reads its `confidence`.
    Json { trait_name: String, value: String },
}

/// `s` without the copies of `c` at its end.
pub open spec fn trim_end_char(s: Seq<char>, c: char) -> Seq<char> {
    s.take(s.len() - trail_run(s, c))
}

pub open spec fn trait_key(name: Seq<char>) -> Seq<char> {
    replace_from(lowercase(trim_spec(name)), " "@, "_"@, 0)
}

/// How a line reads; see `CognitionLine`.
pub open spec fn cognition_line_spec(line: Seq<char>, r: CognitionLine) -> bool {
    let t = trim_spec(line);
    if t.len() == 0 || t == "NONE"@ {
        r is Skip
    } else {
        match split_once_spec(t, ':') {
            (a, Some(rest)) => {
                let name = trait_key(a);
                if name.len() == 0 {
                    r is Skip
                } else {
                    let (value, conf) = match find_spec(rest, "(confidence:"@) {
                        Some(k) => (trim_spec(rest.take(k)), Some(trim_spec(trim_end_char(rest.skip(k + 12), ')')))),
                        None => (trim_spec(rest), None::<Seq<char>>),
                    };
                    if value.len() == 0 {
                        r is Skip
                    } else {
                        r matches CognitionLine::Fact { trait_name, value: v, confidence } && trait_name@ == name
                            && v@ == value && opt_chars(confidence) == conf
                    }
                }
            },
            (_, None) => if has_prefix(t, "{"@) && json_valid(t) {
                r matches CognitionLine::Json { trait_name, value } && trait_name@ == match json_str_field(t, "trait"@) {
                    Some(x) => x,
                    None => "general"@,
                } && value@ == match json_str_field(t, "value"@) {
                    Some(x) => x,
                    None => t,
                }
            } else {
                r is Skip
            },
        }
    }
}

pub fn parse_cognition_line(line: &str) -> (r: CognitionLine)
    ensures
        cognition_line_spec(line@, r),
{
    let t = trim(line);
    if t.as_str().is_empty() || str_eq(t.as_str(), "NONE") {
        return CognitionLine::Skip;
    }
    let tv = chars_of(t.as_str());
    let (a, rest) = split_once(&tv, ':');
    match rest {
        Some(rest) => {
            let name_trim = trim_chars(&a);
            let lower = to_lowercase(string_of(&name_trim).as_str());
            proof {
                reveal_strlit(" ");
            }
            let name = replace_all(lower.as_str(), " ", "_");
            if name.as_str().is_empty() {
                return CognitionLine::Skip;
            }
            let (value, conf) = match find_str(&rest, "(confidence:") {
                Some(k) => {
                    proof {
                        reveal_strlit("(confidence:");
                        lemma_find_from_bounds(rest@, "(confidence:"@, 0);
                        assert("(confidence:"@.len() == 12);
                        assert(find_from(rest@, "(confidence:"@, 0) == Some(k as int));
                        assert(occurs_at(rest@, "(confidence:"@, k as int));
                        assert(k + 12 <= rest@.len());
                    }
                    let before = slice_chars(&rest, 0, k);
                    assert(before@ =~= rest@.take(k as int));
                    let after = slice_chars(&rest, k + 12, rest.len());
                    assert(after@ =~= rest@.skip(k + 12));
                    let n = trail_run_count(&after, ')');
                    proof {
                        lemma_trail_run_bound(after@, ')');
                    }
                    let core = slice_chars(&after, 0, after.len() - n);
                    assert(core@ =~= trim_end_char(rest@.skip(k + 12), ')'));
                    (trim_chars(&before), Some(string_of(&trim_chars(&core))))
                },
                None => (trim_chars(&rest), None),
            };
            if value.len() == 0 {
                return CognitionLine::Skip;
            }
            CognitionLine::Fact { trait_name: name, value: string_of(&value), confidence: conf }
        },
        None => {
            if starts_with(&tv, "{") && parses_as_json(t.as_str()) {
                let trait_name = match json_get_str(t.as_str(), "trait") {
                    Some(x) => x,
                    None => String::from_str("general"),
                };
                let value = match json_get_str(t.as_str(), "value") {
                    Some(x) => x,
                    None => t.clone(),
                };
                CognitionLine::Json { trait_name, value }
            } else {
                CognitionLine::Skip
            }
        },
    }
}

} // verus!
