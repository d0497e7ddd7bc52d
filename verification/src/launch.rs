//! Launch preparation: combines path resolution and argument building into
//! the full specification of one child-process launch — executable, argument
//! list, working directory, and the environment override that forces
//! deterministic text encoding of the worker's output.

use vstd::prelude::*;
use vstd::string::StringExecFns;
use crate::args::{build_args, built_args, LaunchRequest};
use crate::paths::{
    dev_interpreter, entry_script, packaged_interpreter, resolve, BuildMode, Platform,
    ResolveError, ResolverConfig,
};

verus! {

/// Everything the operating system needs to spawn one worker: derived
/// deterministically from a request and a resolution mode, never mutated
/// afterwards.
pub struct LaunchSpec {
    /// Absolute path of the interpreter executable.
    pub interpreter: String,
    /// Arguments handed to the interpreter, in order.
    pub args: Vec<String>,
    /// Working directory of the child.
    pub workdir: String,
    /// Environment overrides applied to the child, as key–value pairs.
    pub env: Vec<(String, String)>,
}

/// The one environment override every launch carries: it forces the worker's
/// text output to a fixed encoding, so lines decode the same way on every
/// platform.
pub open spec fn encoding_override() -> (Seq<char>, Seq<char>) {
    ("PYTHONIOENCODING"@, "utf-8"@)
}

/// What a launch specification must hold for a request resolved against
/// `root` on `platform` with the given interpreter.
pub open spec fn launch_spec_for(
    spec: LaunchSpec,
    interpreter: Seq<char>,
    root: Seq<char>,
    platform: Platform,
    request: LaunchRequest,
) -> bool {
    &&& spec.interpreter@ == interpreter
    &&& spec.args.deep_view() == built_args(
        request.mode@,
        request.data@,
        request.page_limit,
        entry_script(root, platform),
    )
    &&& spec.workdir@ == root
    &&& spec.env.deep_view() == seq![encoding_override()]
}

/// Prepares the launch of one worker: resolves the interpreter, the entry
/// script, and the working directory under `mode`, builds the argument list
/// for `request`, and attaches the encoding override. Fails exactly when
/// path resolution fails: in packaged mode without a resource directory.
pub fn prepare_launch(
    config: &ResolverConfig,
    mode: BuildMode,
    resource_dir: Option<String>,
    request: &LaunchRequest,
) -> (r: Result<LaunchSpec, ResolveError>)
    ensures
        mode == BuildMode::Development ==> r is Ok && launch_spec_for(
            r->Ok_0,
            dev_interpreter(config.dev_root@, config.platform),
            config.dev_root@,
            config.platform,
            *request,
        ),
        mode == BuildMode::Packaged && resource_dir is Some ==> r is Ok && launch_spec_for(
            r->Ok_0,
            packaged_interpreter(resource_dir->0@, config.platform),
            resource_dir->0@,
            config.platform,
            *request,
        ),
        mode == BuildMode::Packaged && resource_dir is None ==> r == Err::<LaunchSpec,
            ResolveError,
        >(ResolveError::ResourceResolution),
{
    let paths = match resolve(config, mode, resource_dir) {
        Ok(paths) => paths,
        Err(e) => {
            return Err(e);
        },
    };
    let args = build_args(request, &paths.script);
    let mut env: Vec<(String, String)> = Vec::new();
    env.push((String::from_str("PYTHONIOENCODING"), String::from_str("utf-8")));
    proof {
        assert(env.deep_view() =~= seq![encoding_override()]);
    }
    Ok(LaunchSpec { interpreter: paths.interpreter, args, workdir: paths.workdir, env })
}

} // verus!
