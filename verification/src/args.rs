//! Argument building: turns a launch request into the worker's command line.
//! The worker is always invoked unbuffered, then given the entry script, the
//! mode, the data, and — only when the caller supplied one — the page limit.

use vstd::prelude::*;
use vstd::string::StringExecFns;
use crate::numeral::{decimal_digits, u32_to_string};

verus! {

/// A caller's request to start one worker invocation. Immutable once
/// constructed; consumed by one launch.
pub struct LaunchRequest {
    /// Which collection mode the worker runs in.
    pub mode: String,
    /// The mode's payload (for instance a query or an identifier).
    pub data: String,
    /// Upper bound on pages to collect; absence means no limit and adds no
    /// argument.
    pub page_limit: Option<u32>,
}

/// The argument list for one launch: the unbuffered flag, the entry script,
/// the mode, the data, and, only when a page limit was supplied, its decimal
/// numeral.
pub open spec fn built_args(
    mode: Seq<char>,
    data: Seq<char>,
    page_limit: Option<u32>,
    script: Seq<char>,
) -> Seq<Seq<char>> {
    let base = seq!["-u"@, script, mode, data];
    match page_limit {
        None => base,
        Some(pages) => base.push(decimal_digits(pages as nat)),
    }
}

/// Builds the worker's argument list for `request` with `script_path` as the
/// entry script. Pure; has no failure modes.
pub fn build_args(request: &LaunchRequest, script_path: &String) -> (r: Vec<String>)
    ensures
        r.deep_view() == built_args(request.mode@, request.data@, request.page_limit, script_path@),
        request.page_limit is None ==> r.deep_view().len() == 4,
        request.page_limit is Some ==> r.deep_view().len() == 5,
{
    let mut args: Vec<String> = Vec::new();
    args.push(String::from_str("-u"));
    args.push(script_path.clone());
    args.push(request.mode.clone());
    args.push(request.data.clone());
    if let Some(pages) = request.page_limit {
        args.push(u32_to_string(pages));
    }
    proof {
        assert(args.deep_view() =~= built_args(
            request.mode@,
            request.data@,
            request.page_limit,
            script_path@,
        ));
    }
    args
}

/// Law: omitting the page limit yields exactly the unbuffered flag plus the
/// three worker-facing arguments (script, mode, data); supplying one appends
/// exactly one more argument, its decimal numeral, and changes nothing else.
pub proof fn lemma_page_limit_arity(
    mode: Seq<char>,
    data: Seq<char>,
    script: Seq<char>,
    pages: u32,
)
    ensures
        built_args(mode, data, None, script).len() == 4,
        built_args(mode, data, Some(pages), script).len() == 5,
        built_args(mode, data, Some(pages), script) == built_args(mode, data, None, script).push(
            decimal_digits(pages as nat),
        ),
        built_args(mode, data, None, script)[0] == "-u"@,
        built_args(mode, data, None, script)[1] == script,
        built_args(mode, data, None, script)[2] == mode,
        built_args(mode, data, None, script)[3] == data,
{
}

} // verus!
