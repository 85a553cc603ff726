//! Which file format an export writes, chosen by the file name's extension.
use vstd::prelude::*;

use std::path::Path;

use crate::error::Error;
use crate::text::str_eq;

verus! {

/// The formats a dataset can be written in.
#[derive(Debug, Clone, Copy, PartialEq, Eq, Structural)]
pub enum ExportFormat {
    Csv,
    /// Arrow IPC, under the extension `arrow` or `ipc`.
    Arrow,
    Parquet,
}

/// What `Path::extension` gives for a path with these characters, as text:
/// the part of the file name after its last dot, if there is one.
pub uninterp spec fn path_extension(path: Seq<char>) -> Option<Seq<char>>;

/// Calls `Path::extension` on the file name and keeps the extension when it
/// is valid text. The contract claims only that the result is the named
/// extension of the name; the path grammar behind it is left unsaid.
#[verifier::external_body]
fn file_extension(file_name: &str) -> (r: Option<String>)
    ensures
        match path_extension(file_name@) {
            Some(e) => r matches Some(s) && s@ == e,
            None => r is None,
        },
{
    Path::new(file_name).extension().and_then(|e| e.to_str()).map(|e| e.to_owned())
}

/// The format an extension selects; Parquet only where `allow_parquet`.
pub open spec fn format_of(ext: Option<Seq<char>>, allow_parquet: bool) -> Option<ExportFormat> {
    match ext {
        Some(e) => if e == "csv"@ {
            Some(ExportFormat::Csv)
        } else if e == "arrow"@ || e == "ipc"@ {
            Some(ExportFormat::Arrow)
        } else if allow_parquet && e == "parquet"@ {
            Some(ExportFormat::Parquet)
        } else {
            None
        },
        None => None,
    }
}

/// The format selected by the extension `ext`, if any.
pub fn format_of_extension(ext: &Option<String>, allow_parquet: bool) -> (r: Option<ExportFormat>)
    ensures r == format_of(ext.deep_view(), allow_parquet),
{
    match ext {
        Some(e) => {
            if str_eq(e.as_str(), "csv") {
                Some(ExportFormat::Csv)
            } else if str_eq(e.as_str(), "arrow") || str_eq(e.as_str(), "ipc") {
                Some(ExportFormat::Arrow)
            } else if allow_parquet && str_eq(e.as_str(), "parquet") {
                Some(ExportFormat::Parquet)
            } else {
                None
            }
        },
        None => None,
    }
}

/// The format to export `file_name` in, by its extension: `csv`, `arrow` or
/// `ipc`, and `parquet` where `allow_parquet`; any other name is refused
/// with `InvalidExtension` and the name.
pub fn export_format(file_name: &str, allow_parquet: bool) -> (r: Result<ExportFormat, Error>)
    ensures
        match format_of(path_extension(file_name@), allow_parquet) {
            Some(f) => r == Ok::<ExportFormat, Error>(f),
            None => r matches Err(Error::InvalidExtension(n)) && n@ == file_name@,
        },
{
    let ext = file_extension(file_name);
    match format_of_extension(&ext, allow_parquet) {
        Some(f) => Ok(f),
        None => Err(Error::InvalidExtension(file_name.to_owned())),
    }
}

/// The header row of a CSV export: the pass-through headers when there are
/// any, otherwise `x_1`, `x_2` and `label`; then one column per algorithm.
pub open spec fn header_spec(passthrough_headers: Seq<Seq<char>>, algorithm_names: Seq<Seq<char>>) -> Seq<Seq<char>> {
    if passthrough_headers.len() > 0 {
        passthrough_headers + algorithm_names
    } else {
        seq!["x_1"@, "x_2"@, "label"@] + algorithm_names
    }
}

fn append_all(out: &mut Vec<String>, items: &Vec<String>)
    ensures final(out).deep_view() == old(out).deep_view() + items.deep_view(),
{
    let ghost start = out.deep_view();
    let mut k: usize = 0;
    while k < items.len()
        invariant
            k <= items.len(),
            out.deep_view() == start + items.deep_view().take(k as int),
        decreases items.len() - k,
    {
        let ghost before = out.deep_view();
        out.push(items[k].clone());
        assert(out.deep_view() =~= before.push(items.deep_view()[k as int]));
        assert(items.deep_view().take(k as int + 1) =~= items.deep_view().take(k as int).push(items.deep_view()[k as int]));
        assert(out.deep_view() =~= start + items.deep_view().take(k as int + 1));
        k += 1;
    }
    assert(items.deep_view().take(items.len() as int) =~= items.deep_view());
}

/// The header row of a CSV export of a score matrix.
pub fn export_header(passthrough_headers: &Vec<String>, algorithm_names: &Vec<String>) -> (r: Vec<String>)
    ensures r.deep_view() == header_spec(passthrough_headers.deep_view(), algorithm_names.deep_view()),
{
    let mut out: Vec<String> = Vec::new();
    if passthrough_headers.len() > 0 {
        append_all(&mut out, passthrough_headers);
    } else {
        out.push("x_1".to_owned());
        out.push("x_2".to_owned());
        out.push("label".to_owned());
    }
    append_all(&mut out, algorithm_names);
    proof {
        if passthrough_headers.len() == 0 {
            assert(passthrough_headers.deep_view().len() == 0);
        }
    }
    out
}

} // verus!
