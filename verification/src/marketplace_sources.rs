//! The configured marketplace sources: how each is read from the settings, which sources are
//! cloned repositories, and the list of sources after one is added or removed. The caller runs
//! git and writes the settings.

use vstd::prelude::*;

use crate::json::{json_get_str, json_quote, json_quoted, json_str_field};
use crate::plugin_fs::{MarketplacePlugin, MarketplaceSource};
use crate::render_text::lemma_filter_step;
use crate::text::{append_str, chars_of, has_prefix, starts_with};

verus! {

/// Whether a source is cloned with git: an `http://`, `https://` or `git@` address.
pub open spec fn clones_spec(url: Seq<char>) -> bool {
    has_prefix(url, "http://"@) || has_prefix(url, "https://"@) || has_prefix(url, "git@"@)
}

pub fn clones_repository(url: &str) -> (b: bool)
    ensures
        b == clones_spec(url@),
{
    let v = chars_of(url);
    starts_with(&v, "http://") || starts_with(&v, "https://") || starts_with(&v, "git@")
}

/// Whether a source is recorded as a git source: an address that starts with `http` or `git@`.
pub open spec fn git_kind_spec(url: Seq<char>) -> bool {
    has_prefix(url, "http"@) || has_prefix(url, "git@"@)
}

pub fn is_git_kind(url: &str) -> (b: bool)
    ensures
        b == git_kind_spec(url@),
{
    let v = chars_of(url);
    starts_with(&v, "http") || starts_with(&v, "git@")
}

pub open spec fn str_or(o: Option<Seq<char>>, d: Seq<char>) -> Seq<char> {
    match o {
        Some(s) => s,
        None => d,
    }
}

pub open spec fn opt_chars(o: Option<String>) -> Option<Seq<char>> {
    match o {
        Some(s) => Some(s@),
        None => None,
    }
}

/// A configured source (JSON text): its kind (`local` when not given), address, folder and
/// name (`Marketplace` when not given).
pub fn source_from_settings(item: &str) -> (r: MarketplaceSource)
    ensures
        r.kind@ == str_or(json_str_field(item@, "kind"@), "local"@),
        opt_chars(r.url) == json_str_field(item@, "url"@),
        opt_chars(r.path) == json_str_field(item@, "path"@),
        r.configured,
        r.name@ == str_or(json_str_field(item@, "name"@), "Marketplace"@),
{
    let kind = match json_get_str(item, "kind") {
        Some(k) => k,
        None => String::from_str("local"),
    };
    let name = match json_get_str(item, "name") {
        Some(n) => n,
        None => String::from_str("Marketplace"),
    };
    MarketplaceSource {
        kind,
        url: json_get_str(item, "url"),
        path: json_get_str(item, "path"),
        configured: true,
        name,
    }
}

/// The source that stands for the marketplace folder itself, when no source is configured and
/// the folder holds something.
pub fn local_marketplace_source(path: &str) -> (r: MarketplaceSource)
    ensures
        r.kind@ == "local"@,
        r.url is None,
        opt_chars(r.path) == Some(path@),
        r.configured,
        r.name@ == "Local Marketplace"@,
{
    MarketplaceSource {
        kind: String::from_str("local"),
        url: None,
        path: Some(String::from_str(path)),
        configured: true,
        name: String::from_str("Local Marketplace"),
    }
}

pub open spec fn texts_view(v: Seq<String>) -> Seq<Seq<char>> {
    Seq::new(v.len(), |i: int| v[i]@)
}

/// The sources (JSON texts) not named `name`.
pub open spec fn not_named(name: Seq<char>) -> spec_fn(Seq<char>) -> bool {
    |s: Seq<char>| json_str_field(s, "name"@) != Some(name)
}

/// The configured sources without the one named `name`.
pub fn sources_without(items: &Vec<String>, name: &str) -> (r: Vec<String>)
    ensures
        texts_view(r@) == texts_view(items@).filter(not_named(name@)),
{
    let ghost iv = texts_view(items@);
    let ghost f = not_named(name@);
    let mut r: Vec<String> = Vec::new();
    let mut i: usize = 0;
    while i < items.len()
        invariant
            i <= items@.len(),
            iv == texts_view(items@),
            f == not_named(name@),
            texts_view(r@) == iv.take(i as int).filter(f),
        decreases items@.len() - i,
    {
        proof {
            lemma_filter_step(iv, i as int, f);
        }
        let keep = match json_get_str(items[i].as_str(), "name") {
            Some(n) => !crate::text::str_eq(n.as_str(), name),
            None => true,
        };
        assert(keep == f(iv[i as int]));
        if keep {
            let ghost before = texts_view(r@);
            r.push(items[i].clone());
            assert(texts_view(r@) =~= before.push(iv[i as int]));
        }
        i = i + 1;
    }
    assert(iv.take(items@.len() as int) =~= iv);
    r
}

/// The settings entry (JSON text) of a source added from an address or folder: git sources
/// keep their address, local ones record none.
pub open spec fn source_entry_spec(url: Seq<char>, name: Seq<char>, path: Seq<char>) -> Seq<char> {
    if git_kind_spec(url) {
        "{\"kind\":\"git\",\"name\":"@ + json_quoted(name) + ",\"path\":"@ + json_quoted(path) + ",\"url\":"@ + json_quoted(url)
            + "}"@
    } else {
        "{\"kind\":\"local\",\"name\":"@ + json_quoted(name) + ",\"path\":"@ + json_quoted(path) + ",\"url\":null}"@
    }
}

pub fn source_entry(url: &str, name: &str, path: &str) -> (r: String)
    ensures
        r@ == source_entry_spec(url@, name@, path@),
{
    let git = is_git_kind(url);
    let mut r = if git {
        String::from_str("{\"kind\":\"git\",\"name\":")
    } else {
        String::from_str("{\"kind\":\"local\",\"name\":")
    };
    append_str(&mut r, json_quote(name).as_str());
    append_str(&mut r, ",\"path\":");
    append_str(&mut r, json_quote(path).as_str());
    if git {
        append_str(&mut r, ",\"url\":");
        append_str(&mut r, json_quote(url).as_str());
        append_str(&mut r, "}");
    } else {
        append_str(&mut r, ",\"url\":null}");
    }
    r
}

/// The configured sources after adding one: any source of the same name is replaced, and the
/// new one comes last.
pub fn sources_after_add(items: &Vec<String>, url: &str, name: &str, path: &str) -> (r: Vec<String>)
    ensures
        texts_view(r@) == texts_view(items@).filter(not_named(name@)).push(source_entry_spec(url@, name@, path@)),
{
    let mut r = sources_without(items, name);
    let ghost before = texts_view(r@);
    r.push(source_entry(url, name, path));
    assert(texts_view(r@) =~= before.push(source_entry_spec(url@, name@, path@)));
    r
}

/// Once a source is added, exactly one configured source has its name.
pub proof fn law_added_source_is_unique(items: Seq<Seq<char>>, entry: Seq<char>, name: Seq<char>)
    requires
        json_str_field(entry, "name"@) == Some(name),
    ensures
        forall|i: int|
            0 <= i < items.filter(not_named(name)).push(entry).len() ==> (json_str_field(
                #[trigger] items.filter(not_named(name)).push(entry)[i],
                "name"@,
            ) == Some(name) <==> i == items.filter(not_named(name)).len()),
{
    let kept = items.filter(not_named(name));
    assert forall|i: int| 0 <= i < kept.push(entry).len() implies (json_str_field(
        #[trigger] kept.push(entry)[i],
        "name"@,
    ) == Some(name) <==> i == kept.len()) by {
        if i < kept.len() {
            items.lemma_filter_pred(not_named(name), i);
            assert(kept.push(entry)[i] == kept[i]);
        }
    }
}

/// The first offered plugin with this id, from position `k` on.
pub open spec fn first_with_id(v: Seq<MarketplacePlugin>, id: Seq<char>, k: int) -> Option<int>
    decreases v.len() - k,
{
    if k < 0 || k >= v.len() {
        None
    } else if v[k].id@ == id {
        Some(k)
    } else {
        first_with_id(v, id, k + 1)
    }
}

/// The folder a plugin is installed from: that of the first offered plugin with the id; an
/// error when there is none or it names no folder.
pub fn find_distribution(plugins: &Vec<MarketplacePlugin>, id: &str) -> (r: Result<String, String>)
    ensures
        match first_with_id(plugins@, id@, 0) {
            Some(i) => match plugins@[i].distribution {
                Some(d) => r matches Ok(p) && p@ == d.path@,
                None => r matches Err(e) && e@ == "marketplace plugin not found: "@ + id@,
            },
            None => r matches Err(e) && e@ == "marketplace plugin not found: "@ + id@,
        },
{
    let mut i: usize = 0;
    while i < plugins.len()
        invariant
            i <= plugins@.len(),
            first_with_id(plugins@, id@, 0) == first_with_id(plugins@, id@, i as int),
        decreases plugins@.len() - i,
    {
        if crate::text::str_eq(plugins[i].id.as_str(), id) {
            match &plugins[i].distribution {
                Some(d) => {
                    return Ok(d.path.clone());
                },
                None => {
                    let mut e = String::from_str("marketplace plugin not found: ");
                    append_str(&mut e, id);
                    return Err(e);
                },
            }
        }
        i = i + 1;
    }
    let mut e = String::from_str("marketplace plugin not found: ");
    append_str(&mut e, id);
    Err(e)
}

} // verus!
