//! The tools offered to a model: their names as the model APIs accept them and the shape of
//! their input.

use vstd::prelude::*;

use crate::text::{str_eq, string_of, chars_of};

verus! {

/// One input field of a tool.
#[derive(Debug, Clone, Copy)]
pub struct SchemaField {
    pub name: &'static str,
    /// `string`, `integer` or `boolean`.
    pub kind: &'static str,
    pub description: Option<&'static str>,
    /// The values allowed, when the field is one of a few (empty otherwise).
    pub allowed: &'static [&'static str],
}

/// The input of a tool: a JSON object with these fields, of which `required` must be given;
/// `open` objects accept any further field.
pub struct ToolSchema {
    pub fields: Vec<SchemaField>,
    pub required: Vec<&'static str>,
    pub open: bool,
}

/// A tool as offered to the model.
pub struct ToolSpec {
    pub name: String,
    pub description: String,
    pub input_schema: ToolSchema,
}

/// `c` is kept in a tool name: ASCII letters and digits, `_` and `-`.
pub open spec fn tool_name_char(c: char) -> char {
    if ('a' <= c <= 'z') || ('A' <= c <= 'Z') || ('0' <= c <= '9') || c == '_' || c == '-' {
        c
    } else {
        '_'
    }
}

/// A skill name made acceptable as a tool name: every other character becomes `_`.
pub open spec fn sanitize_tool_name_spec(name: Seq<char>) -> Seq<char> {
    Seq::new(name.len(), |i: int| tool_name_char(name[i]))
}

pub fn sanitize_tool_name(name: &str) -> (r: String)
    ensures
        r@ == sanitize_tool_name_spec(name@),
{
    let cs = chars_of(name);
    let mut out: Vec<char> = Vec::new();
    let mut i: usize = 0;
    while i < cs.len()
        invariant
            i <= cs.len(),
            out@ =~= sanitize_tool_name_spec(cs@.take(i as int)),
        decreases cs.len() - i,
    {
        let c = cs[i];
        let keep = ('a' <= c && c <= 'z') || ('A' <= c && c <= 'Z') || ('0' <= c && c <= '9') || c == '_' || c == '-';
        out.push(if keep { c } else { '_' });
        assert(sanitize_tool_name_spec(cs@.take(i + 1)) =~= sanitize_tool_name_spec(cs@.take(i as int)).push(
            tool_name_char(c),
        ));
        i = i + 1;
    }
    assert(cs@.take(cs.len() as int) =~= cs@);
    string_of(&out)
}

/// The field names of each known tool, in order, with the required ones; unknown tools take
/// an open object without fields.
pub open spec fn schema_shape(name: Seq<char>) -> (Seq<Seq<char>>, Seq<Seq<char>>, bool) {
    if name == "file_read"@ {
        (seq!["path"@, "offset"@, "limit"@], seq!["path"@], false)
    } else if name == "file_write"@ {
        (seq!["path"@, "content"@], seq!["path"@], false)
    } else if name == "file_edit"@ {
        (seq!["path"@, "old_string"@, "new_string"@, "replace_all"@], seq!["path"@, "old_string"@], false)
    } else if name == "file_search"@ {
        (seq!["pattern"@, "path"@], seq!["pattern"@], false)
    } else if name == "content_search"@ {
        (seq!["pattern"@, "path"@, "glob"@, "max_results"@], seq!["pattern"@], false)
    } else if name == "shell"@ {
        (seq!["command"@, "cwd"@, "timeout_ms"@], seq!["command"@], false)
    } else if name == "web-browser"@ {
        (seq!["url"@], seq!["url"@], false)
    } else if name == "schedule-reminder"@ {
        (seq!["action"@, "title"@, "time"@], seq!["action"@], false)
    } else {
        (Seq::empty(), Seq::empty(), true)
    }
}

pub open spec fn field_names(v: Seq<SchemaField>) -> Seq<Seq<char>> {
    Seq::new(v.len(), |i: int| v[i].name@)
}

pub open spec fn str_views(v: Seq<&'static str>) -> Seq<Seq<char>> {
    Seq::new(v.len(), |i: int| v[i]@)
}

fn field(name: &'static str, kind: &'static str, description: &'static str) -> (f: SchemaField)
    ensures
        f.name == name && f.kind == kind && f.description == Some(description) && f.allowed@.len() == 0,
{
    SchemaField { name, kind, description: Some(description), allowed: &[] }
}

/// The input schema of the tool behind a skill (see `schema_shape`; the kinds and
/// descriptions of the fields are those the model is told).
pub fn input_schema_for_skill(name: &str) -> (r: ToolSchema)
    ensures
        (field_names(r.fields@), str_views(r.required@), r.open) == schema_shape(name@),
{
    let mut fields: Vec<SchemaField> = Vec::new();
    let mut required: Vec<&'static str> = Vec::new();
    let mut open = false;
    if str_eq(name, "file_read") {
        fields.push(field("path", "string", "File path to read"));
        fields.push(field("offset", "integer", "Line to start from (0-indexed, default 0)"));
        fields.push(field("limit", "integer", "Max lines to return (default 2000)"));
        required.push("path");
    } else if str_eq(name, "file_write") {
        fields.push(field("path", "string", "File path to write to"));
        fields.push(field("content", "string", "Content to write"));
        required.push("path");
    } else if str_eq(name, "file_edit") {
        fields.push(field("path", "string", "File path to edit"));
        fields.push(field("old_string", "string", "Exact string to replace"));
        fields.push(field("new_string", "string", "Replacement string"));
        fields.push(field("replace_all", "boolean", "Replace all occurrences (default false)"));
        required.push("path");
        required.push("old_string");
    } else if str_eq(name, "file_search") {
        fields.push(field("pattern", "string", "Glob pattern, e.g. '**/*.rs'"));
        fields.push(field("path", "string", "Base directory (default current dir)"));
        required.push("pattern");
    } else if str_eq(name, "content_search") {
        fields.push(field("pattern", "string", "Regex pattern to search for"));
        fields.push(field("path", "string", "Base directory (default current dir)"));
        fields.push(field("glob", "string", "File glob filter, e.g. '**/*.html' (default '**/*')"));
        fields.push(field("max_results", "integer", "Max results (default 50)"));
        required.push("pattern");
    } else if str_eq(name, "shell") {
        fields.push(field("command", "string", "Shell command to execute"));
        fields.push(field("cwd", "string", "Working directory for command"));
        fields.push(field("timeout_ms", "integer", "Timeout in ms (default 120000)"));
        required.push("command");
    } else if str_eq(name, "web-browser") {
        fields.push(field("url", "string", "URL to fetch via HTTP GET"));
        required.push("url");
    } else if str_eq(name, "schedule-reminder") {
        fields.push(SchemaField { name: "action", kind: "string", description: None, allowed: &["add", "list"] });
        fields.push(field("title", "string", "Reminder title"));
        fields.push(field("time", "string", "Reminder time"));
        required.push("action");
    } else {
        open = true;
    }
    let r = ToolSchema { fields, required, open };
    assert((field_names(r.fields@), str_views(r.required@), r.open) =~~= schema_shape(name@));
    r
}

/// The tools offered for the skills (name, description), in order: each under its sanitized
/// name, the first skill of a sanitized name winning; the schema is that of the skill's name,
/// or of its sanitized name when the former has no fields.
pub open spec fn tool_names_spec(skills: Seq<(Seq<char>, Seq<char>)>, k: int) -> Seq<Seq<char>>
    decreases k,
{
    if k <= 0 || k > skills.len() {
        Seq::empty()
    } else {
        let rest = tool_names_spec(skills, k - 1);
        let n = sanitize_tool_name_spec(skills[k - 1].0);
        if rest.contains(n) {
            rest
        } else {
            rest.push(n)
        }
    }
}

pub open spec fn pairs_view(v: Seq<(String, String)>) -> Seq<(Seq<char>, Seq<char>)> {
    Seq::new(v.len(), |i: int| (v[i].0@, v[i].1@))
}

pub fn build_tool_definitions(skills: &Vec<(String, String)>) -> (r: Vec<ToolSpec>)
    ensures
        r@.len() == tool_names_spec(pairs_view(skills@), skills@.len() as int).len(),
        forall|i: int| 0 <= i < r@.len() ==> (#[trigger] r@[i]).name@ == tool_names_spec(pairs_view(skills@), skills@.len() as int)[i],
        forall|i: int|
            #![trigger r@[i]]
            0 <= i < r@.len() ==> exists|j: int|
                0 <= j < skills@.len() && #[trigger] sanitize_tool_name_spec(skills@[j].0@) == r@[i].name@
                    && r@[i].description@ == skills@[j].1@ && (forall|t: int|
                    0 <= t < j ==> sanitize_tool_name_spec(#[trigger] skills@[t].0@) != r@[i].name@) && (
                field_names(r@[i].input_schema.fields@),
                str_views(r@[i].input_schema.required@),
                r@[i].input_schema.open,
            ) == (if schema_shape(skills@[j].0@).0.len() == 0 {
                schema_shape(r@[i].name@)
            } else {
                schema_shape(skills@[j].0@)
            }),
{
    let ghost sv = pairs_view(skills@);
    let mut out: Vec<ToolSpec> = Vec::new();
    let mut seen: Vec<String> = Vec::new();
    let mut i: usize = 0;
    while i < skills.len()
        invariant
            i <= skills@.len(),
            sv == pairs_view(skills@),
            seen@.len() == out@.len(),
            forall|k: int| 0 <= k < seen@.len() ==> (#[trigger] seen@[k])@ == out@[k].name@,
            out@.len() == tool_names_spec(sv, i as int).len(),
            forall|k: int| 0 <= k < out@.len() ==> (#[trigger] out@[k]).name@ == tool_names_spec(sv, i as int)[k],
            forall|k: int|
                #![trigger out@[k]]
                0 <= k < out@.len() ==> exists|j: int|
                    0 <= j < i && #[trigger] sanitize_tool_name_spec(skills@[j].0@) == out@[k].name@
                        && out@[k].description@ == skills@[j].1@ && (forall|t: int|
                        0 <= t < j ==> sanitize_tool_name_spec(#[trigger] skills@[t].0@) != out@[k].name@) && (
                    field_names(out@[k].input_schema.fields@),
                    str_views(out@[k].input_schema.required@),
                    out@[k].input_schema.open,
                ) == (if schema_shape(skills@[j].0@).0.len() == 0 {
                    schema_shape(out@[k].name@)
                } else {
                    schema_shape(skills@[j].0@)
                }),
            forall|j: int|
                0 <= j < i ==> tool_names_spec(sv, i as int).contains(sanitize_tool_name_spec(#[trigger] skills@[j].0@)),
        decreases skills@.len() - i,
    {
        let safe = sanitize_tool_name(skills[i].0.as_str());
        let mut dup = false;
        let mut k: usize = 0;
        while k < seen.len()
            invariant
                k <= seen@.len(),
                forall|t: int| 0 <= t < seen@.len() ==> (#[trigger] seen@[t])@ == out@[t].name@,
                dup == (exists|t: int| 0 <= t < k && (#[trigger] seen@[t])@ == safe@),
            decreases seen@.len() - k,
        {
            if seen[k] == safe {
                dup = true;
            }
            k = k + 1;
        }
        let ghost names = tool_names_spec(sv, i as int);
        assert(sv[i as int].0 == skills@[i as int].0@);
        assert(dup == names.contains(safe@)) by {
            if dup {
                let t = choose|t: int| 0 <= t < seen@.len() && (#[trigger] seen@[t])@ == safe@;
                assert(names[t] == safe@);
            }
            if names.contains(safe@) {
                let t = choose|t: int| 0 <= t < names.len() && names[t] == safe@;
                assert(seen@[t]@ == safe@);
            }
        }
        if !dup {
            let schema0 = input_schema_for_skill(skills[i].0.as_str());
            let schema = if schema0.fields.len() == 0 {
                input_schema_for_skill(safe.as_str())
            } else {
                schema0
            };
            seen.push(safe.clone());
            let ghost before = out@;
            out.push(ToolSpec { name: safe, description: skills[i].1.clone(), input_schema: schema });
            proof {
                assert forall|k: int|
                    #![trigger out@[k]]
                    0 <= k < out@.len() implies exists|j: int|
                        0 <= j < i + 1 && #[trigger] sanitize_tool_name_spec(skills@[j].0@) == out@[k].name@
                            && out@[k].description@ == skills@[j].1@ && (forall|t: int|
                            0 <= t < j ==> sanitize_tool_name_spec(#[trigger] skills@[t].0@) != out@[k].name@) && (
                        field_names(out@[k].input_schema.fields@),
                        str_views(out@[k].input_schema.required@),
                        out@[k].input_schema.open,
                    ) == (if schema_shape(skills@[j].0@).0.len() == 0 {
                        schema_shape(out@[k].name@)
                    } else {
                        schema_shape(skills@[j].0@)
                    }) by {
                    if k < before.len() {
                        assert(out@[k] == before[k]);
                    } else {
                        assert forall|t: int| 0 <= t < i implies sanitize_tool_name_spec(#[trigger] skills@[t].0@) != out@[k].name@ by {
                            assert(names.contains(sanitize_tool_name_spec(skills@[t].0@)));
                        }
                        assert(sanitize_tool_name_spec(skills@[i as int].0@) == out@[k].name@);
                    }
                }
                assert forall|j: int|
                    0 <= j < i + 1 implies tool_names_spec(sv, i + 1).contains(sanitize_tool_name_spec(#[trigger] skills@[j].0@)) by {
                    if j < i {
                        let t = choose|t: int| 0 <= t < names.len() && names[t] == sanitize_tool_name_spec(skills@[j].0@);
                        assert(tool_names_spec(sv, i + 1)[t] == names[t]);
                    } else {
                        assert(tool_names_spec(sv, i + 1)[names.len() as int] == safe@);
                    }
                }
            }
        } else {
            proof {
                assert forall|j: int|
                    0 <= j < i + 1 implies tool_names_spec(sv, i + 1).contains(sanitize_tool_name_spec(#[trigger] skills@[j].0@)) by {
                }
            }
        }
        i = i + 1;
    }
    out
}

} // verus!
