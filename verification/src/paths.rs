//! Path resolution: locates the worker interpreter, the entry script, and the
//! working directory for a launch, under either of two strategies. In
//! development mode the paths hang off a configured project root; in packaged
//! mode they hang off the platform-supplied resource directory, whose absence
//! is the one failure of this component.

use vstd::prelude::*;
use vstd::string::StringExecFns;

verus! {

/// Which resolution strategy is in force.
#[derive(Clone, Copy, PartialEq, Eq, Structural, Debug)]
pub enum BuildMode {
    Development,
    Packaged,
}

/// The path conventions of the host operating system: the separator and the
/// name of the interpreter executable differ between the two families.
#[derive(Clone, Copy, PartialEq, Eq, Structural, Debug)]
pub enum Platform {
    Windows,
    Unix,
}

/// Resolution failures.
#[derive(Clone, Copy, PartialEq, Eq, Structural, Debug)]
pub enum ResolveError {
    /// Packaged mode was requested but the host platform supplied no
    /// resource directory.
    ResourceResolution,
}

/// Everything environment-dependent that a launch needs: injected once at
/// startup instead of being scattered through the pipeline.
pub struct ResolverConfig {
    /// Root of the project tree that development mode resolves against.
    pub dev_root: String,
    /// Path conventions of the host operating system.
    pub platform: Platform,
}

/// The resolved filesystem locations for one launch.
pub struct ResolvedPaths {
    pub interpreter: String,
    pub script: String,
    pub workdir: String,
}

/// The path separator of the platform.
pub open spec fn sep_char(p: Platform) -> char {
    if p == Platform::Windows {
        '\\'
    } else {
        '/'
    }
}

/// `base` extended by one path component.
pub open spec fn joined(base: Seq<char>, p: Platform, comp: Seq<char>) -> Seq<char> {
    base + seq![sep_char(p)] + comp
}

/// The interpreter's file name on the platform.
pub open spec fn interpreter_file(p: Platform) -> Seq<char> {
    if p == Platform::Windows {
        "python.exe"@
    } else {
        "python"@
    }
}

/// Development mode keeps the interpreter in the project's local virtual
/// environment.
pub open spec fn dev_interpreter(root: Seq<char>, p: Platform) -> Seq<char> {
    if p == Platform::Windows {
        joined(joined(joined(root, p, ".venv"@), p, "Scripts"@), p, interpreter_file(p))
    } else {
        joined(joined(joined(root, p, ".venv"@), p, "bin"@), p, interpreter_file(p))
    }
}

/// Packaged mode keeps an embedded interpreter under the resource directory.
pub open spec fn packaged_interpreter(resource: Seq<char>, p: Platform) -> Seq<char> {
    joined(joined(resource, p, "python-embed"@), p, interpreter_file(p))
}

/// The entry script sits under `python/main.py` below either root.
pub open spec fn entry_script(root: Seq<char>, p: Platform) -> Seq<char> {
    joined(joined(root, p, "python"@), p, "main.py"@)
}

/// The platform's separator as a one-character string.
fn sep_str(p: Platform) -> (r: &'static str)
    ensures
        r@ == seq![sep_char(p)],
{
    proof {
        reveal_strlit("\\");
        reveal_strlit("/");
    }
    let r: &'static str = match p {
        Platform::Windows => "\\",
        Platform::Unix => "/",
    };
    proof {
        assert(r@ =~= seq![sep_char(p)]);
    }
    r
}

/// Appends one component to `base` with the platform's separator.
fn join_path(base: String, p: Platform, comp: &str) -> (r: String)
    ensures
        r@ == joined(base@, p, comp@),
{
    base.concat(sep_str(p)).concat(comp)
}

/// The interpreter's file name on the platform.
fn interpreter_file_str(p: Platform) -> (r: &'static str)
    ensures
        r@ == interpreter_file(p),
{
    match p {
        Platform::Windows => "python.exe",
        Platform::Unix => "python",
    }
}

/// Resolves the interpreter, entry script, and working directory for one
/// launch. Development mode derives all three from the configured project
/// root; packaged mode derives them from the platform's resource directory
/// and fails when the platform supplied none.
pub fn resolve(config: &ResolverConfig, mode: BuildMode, resource_dir: Option<String>) -> (r:
    Result<ResolvedPaths, ResolveError>)
    ensures
        mode == BuildMode::Development ==> r is Ok && {
            let paths = r->Ok_0;
            &&& paths.interpreter@ == dev_interpreter(config.dev_root@, config.platform)
            &&& paths.script@ == entry_script(config.dev_root@, config.platform)
            &&& paths.workdir@ == config.dev_root@
        },
        mode == BuildMode::Packaged && resource_dir is Some ==> r is Ok && {
            let paths = r->Ok_0;
            &&& paths.interpreter@ == packaged_interpreter(resource_dir->0@, config.platform)
            &&& paths.script@ == entry_script(resource_dir->0@, config.platform)
            &&& paths.workdir@ == resource_dir->0@
        },
        mode == BuildMode::Packaged && resource_dir is None ==> r == Err::<ResolvedPaths,
            ResolveError,
        >(ResolveError::ResourceResolution),
{
    match mode {
        BuildMode::Development => {
            let p = config.platform;
            let venv = join_path(config.dev_root.clone(), p, ".venv");
            let bin_dir = match p {
                Platform::Windows => join_path(venv, p, "Scripts"),
                Platform::Unix => join_path(venv, p, "bin"),
            };
            let interpreter = join_path(bin_dir, p, interpreter_file_str(p));
            let script = join_path(join_path(config.dev_root.clone(), p, "python"), p, "main.py");
            Ok(ResolvedPaths { interpreter, script, workdir: config.dev_root.clone() })
        },
        BuildMode::Packaged => {
            match resource_dir {
                None => Err(ResolveError::ResourceResolution),
                Some(resource) => {
                    let p = config.platform;
                    let embed = join_path(resource.clone(), p, "python-embed");
                    let interpreter = join_path(embed, p, interpreter_file_str(p));
                    let script = join_path(
                        join_path(resource.clone(), p, "python"),
                        p,
                        "main.py",
                    );
                    Ok(ResolvedPaths { interpreter, script, workdir: resource })
                },
            }
        },
    }
}

} // verus!
