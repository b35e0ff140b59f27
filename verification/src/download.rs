//! Downloading model files from ModelScope: the addresses asked, the reading of a repository's
//! file list, and when progress is reported. The caller does the network and file work.

use std::path::PathBuf;
use vstd::prelude::*;

use crate::json::{json_array_items, json_get_array_items, json_get_pointer_text, json_get_str, json_get_u64,
    json_pointer_text, json_str_field, json_u64_field};
use crate::models::{files_view, order_models, sort_by_size_spec};
use crate::render_text::lemma_filter_step;
use crate::text::append_str;

verus! {

/// The address that lists the files of a repository.
pub fn listing_url(repo: &str) -> (r: String)
    ensures
        r@ == "https://www.modelscope.cn/api/v1/models/"@ + repo@ + "/repo/files?Revision=master&Recursive=True"@,
{
    let mut r = String::from_str("https://www.modelscope.cn/api/v1/models/");
    append_str(&mut r, repo);
    append_str(&mut r, "/repo/files?Revision=master&Recursive=True");
    r
}

/// The address of one file of a repository.
pub fn download_url(repo: &str, file: &str) -> (r: String)
    ensures
        r@ == "https://www.modelscope.cn/api/v1/models/"@ + repo@ + "/repo?Revision=master&FilePath="@ + file@,
{
    let mut r = String::from_str("https://www.modelscope.cn/api/v1/models/");
    append_str(&mut r, repo);
    append_str(&mut r, "/repo?Revision=master&FilePath=");
    append_str(&mut r, file);
    r
}

/// A file of a repository.
pub struct FileEntry {
    pub name: String,
    pub size: u64,
}

/// The options of a download: the repository and file, the folder to put it in (the models
/// folder when none is given), whether only to list the repository's files, and whether to
/// fetch a file that is already there.
pub struct DownloadOpts {
    pub repo: String,
    pub file: String,
    pub output: Option<PathBuf>,
    pub list: bool,
    pub force: bool,
}

/// What an item of the file list gives: its name and size, when it has both.
pub open spec fn listed_file(item: Seq<char>) -> Option<(Seq<char>, u64)> {
    match (json_str_field(item, "Name"@), json_u64_field(item, "Size"@)) {
        (Some(n), Some(s)) => Some((n, s)),
        _ => None,
    }
}

/// The files of the list that have a name and a size, in the order listed.
pub open spec fn listed_files(items: Seq<Seq<char>>) -> Seq<(Seq<char>, u64)>
    decreases items.len(),
{
    if items.len() == 0 {
        Seq::empty()
    } else {
        match listed_file(items.last()) {
            Some(f) => listed_files(items.drop_last()).push(f),
            None => listed_files(items.drop_last()),
        }
    }
}

pub open spec fn entries_view(v: Seq<FileEntry>) -> Seq<(Seq<char>, u64)> {
    Seq::new(v.len(), |i: int| (v[i].name@, v[i].size))
}

/// The files a listing reply (JSON text) holds under `Data.Files`, smallest first (files of
/// equal size in the order listed); an error when the reply has no such list or it names no
/// file.
pub open spec fn listing_spec(body: Seq<char>, repo: Seq<char>, r: Result<Vec<FileEntry>, String>) -> bool {
    let items = match json_pointer_text(body, "/Data"@) {
        Some(d) => json_array_items(d, "Files"@),
        None => None,
    };
    match items {
        None => r matches Err(e) && e@ == "Unexpected API response: missing Data.Files array"@,
        Some(its) => if listed_files(its).len() == 0 {
            r matches Err(e) && e@ == "No files found in repo '"@ + repo + "'"@
        } else {
            r matches Ok(v) && entries_view(v@) == sort_by_size_spec(listed_files(its))
        },
    }
}

pub fn files_from_listing(body: &str, repo: &str) -> (r: Result<Vec<FileEntry>, String>)
    ensures
        listing_spec(body@, repo@, r),
{
    let data = match json_get_pointer_text(body, "/Data") {
        Some(d) => d,
        None => return Err(String::from_str("Unexpected API response: missing Data.Files array")),
    };
    let items = match json_get_array_items(data.as_str(), "Files") {
        Some(v) => v,
        None => return Err(String::from_str("Unexpected API response: missing Data.Files array")),
    };
    let ghost its = Seq::new(items@.len(), |j: int| items@[j]@);
    let mut found: Vec<(String, u64)> = Vec::new();
    let mut i: usize = 0;
    while i < items.len()
        invariant
            i <= items@.len(),
            its == Seq::new(items@.len(), |j: int| items@[j]@),
            files_view(found@) == listed_files(its.take(i as int)),
        decreases items@.len() - i,
    {
        assert(its.take(i + 1).drop_last() =~= its.take(i as int));
        assert(its.take(i + 1).last() == its[i as int]);
        let item = items[i].as_str();
        let name = json_get_str(item, "Name");
        let size = json_get_u64(item, "Size");
        match (name, size) {
            (Some(n), Some(s)) => {
                let ghost before = found@;
                let ghost nv = n@;
                assert(listed_file(its[i as int]) == Some((nv, s)));
                found.push((n, s));
                assert(files_view(found@) =~= files_view(before).push((nv, s)));
            },
            _ => {},
        }
        i = i + 1;
    }
    assert(its.take(items@.len() as int) =~= its);
    if found.len() == 0 {
        let mut e = String::from_str("No files found in repo '");
        append_str(&mut e, repo);
        append_str(&mut e, "'");
        return Err(e);
    }
    let ordered = order_models(found);
    let mut out: Vec<FileEntry> = Vec::new();
    let mut rest = ordered;
    let ghost ov = files_view(rest@);
    let n0 = rest.len();
    let mut k: usize = 0;
    while rest.len() > 0
        invariant
            k + rest@.len() == ov.len(),
            ov.len() == n0,
            files_view(rest@) == ov.skip(k as int),
            entries_view(out@) == ov.take(k as int),
        decreases rest@.len(),
    {
        let (name, size) = rest.remove(0);
        assert(files_view(rest@) =~= ov.skip(k + 1)) by {
            assert(ov.skip(k as int).drop_first() =~= ov.skip(k + 1));
        }
        assert((name@, size) == ov[k as int]) by {
            assert(ov.skip(k as int)[0] == ov[k as int]);
        }
        let ghost before = out@;
        out.push(FileEntry { name, size });
        assert(entries_view(out@) =~= ov.take(k + 1)) by {
            assert(entries_view(before) == ov.take(k as int));
            assert(ov.take(k + 1) =~= ov.take(k as int).push(ov[k as int]));
            assert(entries_view(out@) =~= entries_view(before).push((name@, size)));
        }
        k = k + 1;
    }
    assert(ov.take(ov.len() as int) =~= ov);
    Ok(out)
}

/// Progress is reported after every 10 MiB downloaded.
pub fn should_report_progress(downloaded: u64, last_report: u64) -> (b: bool)
    requires
        last_report <= downloaded,
    ensures
        b == (downloaded - last_report >= 10 * 1024 * 1024),
{
    downloaded - last_report >= 10 * 1024 * 1024
}

/// A file is fetched unless it is there already and the user did not ask to fetch it again.
pub fn should_download(already_there: bool, force: bool) -> (b: bool)
    ensures
        b == (!already_there || force),
{
    !already_there || force
}

} // verus!
