//! File-browser integration: decides how the host's file browser is invoked
//! for a path. Only the Windows family has a native integration — there the
//! browser can select an existing file, or just open a directory — and every
//! other platform is a documented no-op.

use vstd::prelude::*;
use vstd::string::StringExecFns;
use crate::paths::Platform;

verus! {

/// The argument list of one file-browser invocation: an existing file is
/// selected in its directory; anything else is opened as a location.
pub open spec fn explorer_args_model(path: Seq<char>, exists: bool, is_file: bool) -> Seq<
    Seq<char>,
> {
    if exists && is_file {
        seq!["/select,"@, path]
    } else {
        seq![path]
    }
}

/// The file-browser invocation for `path`, given what the filesystem said
/// about it: the browser executable and its arguments on Windows, and no
/// invocation at all elsewhere.
pub fn file_browser_invocation(platform: Platform, path: &String, exists: bool, is_file: bool) -> (
    r: Option<(String, Vec<String>)>)
    ensures
        platform == Platform::Windows ==> r is Some && (r->0).0@ == "explorer"@ && (
        r->0).1.deep_view() == explorer_args_model(path@, exists, is_file),
        platform == Platform::Unix ==> r is None,
{
    match platform {
        Platform::Unix => None,
        Platform::Windows => {
            let mut browser_args: Vec<String> = Vec::new();
            if exists && is_file {
                browser_args.push(String::from_str("/select,"));
                browser_args.push(path.clone());
            } else {
                browser_args.push(path.clone());
            }
            proof {
                assert(browser_args.deep_view() =~= explorer_args_model(path@, exists, is_file));
            }
            Some((String::from_str("explorer"), browser_args))
        },
    }
}

} // verus!
