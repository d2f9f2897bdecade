//! Package search: the results handed to the search callback and the
//! statuses of the search calls.

use vstd::prelude::*;

use crate::text::{decode_text_or_empty, lossy_text, opt_bytes, strict_text};

verus! {

/// Search result containing package information.
///
/// All fields are owned strings extracted during the search callback.
#[derive(Debug, Clone)]
pub struct SearchResult {
    /// Full attribute path, e.g. "legacyPackages.x86_64-linux.hello"
    pub attr_path: String,
    /// Package name, e.g. "hello"
    pub name: String,
    /// Package version, e.g. "2.10" (may be empty)
    pub version: String,
    /// Package description (may be empty)
    pub description: String,
}

impl SearchResult {
    /// Builds a result from the four C strings of a raw search result: a
    /// null string becomes empty, and invalid UTF-8 is replaced.
    pub fn from_raw(
        attr_path: &Option<Vec<u8>>,
        name: &Option<Vec<u8>>,
        version: &Option<Vec<u8>>,
        description: &Option<Vec<u8>>,
    ) -> (r: Self)
        ensures
            r.attr_path@ == lossy_text(opt_bytes(*attr_path)),
            r.name@ == lossy_text(opt_bytes(*name)),
            r.version@ == lossy_text(opt_bytes(*version)),
            r.description@ == lossy_text(opt_bytes(*description)),
            strict_text(opt_bytes(*attr_path)) matches Some(t) ==> r.attr_path@ == t,
            strict_text(opt_bytes(*name)) matches Some(t) ==> r.name@ == t,
            strict_text(opt_bytes(*version)) matches Some(t) ==> r.version@ == t,
            strict_text(opt_bytes(*description)) matches Some(t) ==> r.description@ == t,
    {
        SearchResult {
            attr_path: decode_text_or_empty(attr_path),
            name: decode_text_or_empty(name),
            version: decode_text_or_empty(version),
            description: decode_text_or_empty(description),
        }
    }
}

/// Why a search operation failed.
#[derive(Debug, Clone, PartialEq, Eq)]
pub enum SearchError {
    /// The search parameters could not be created.
    CreateParams,
    /// An include pattern was refused.
    AddRegex(String),
    /// An exclude pattern was refused.
    AddExclude(String),
    /// The search itself failed.
    Search,
}

/// The outcome of adding an include (`exclude == false`) or exclude
/// pattern, from the status the C API returned.
pub fn pattern_status(err: i32, pattern: String, exclude: bool) -> (r: Result<(), SearchError>)
    ensures
        err == 0 ==> r is Ok,
        err != 0 && !exclude ==> r == Err::<(), SearchError>(SearchError::AddRegex(pattern)),
        err != 0 && exclude ==> r == Err::<(), SearchError>(SearchError::AddExclude(pattern)),
{
    if err != 0 {
        if exclude {
            Err(SearchError::AddExclude(pattern))
        } else {
            Err(SearchError::AddRegex(pattern))
        }
    } else {
        Ok(())
    }
}

/// The outcome of a search, from the status the C API returned.
pub fn search_status(err: i32) -> (r: Result<(), SearchError>)
    ensures
        err == 0 ==> r is Ok,
        err != 0 ==> r == Err::<(), SearchError>(SearchError::Search),
{
    if err != 0 {
        Err(SearchError::Search)
    } else {
        Ok(())
    }
}

} // verus!
