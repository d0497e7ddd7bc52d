use worker_bridge::args::{build_args, LaunchRequest};
use worker_bridge::launch::prepare_launch;
use worker_bridge::numeral::u32_to_string;
use worker_bridge::paths::{resolve, BuildMode, Platform, ResolveError, ResolverConfig};

fn request(page_limit: Option<u32>) -> LaunchRequest {
    LaunchRequest { mode: "board".to_string(), data: "query".to_string(), page_limit }
}

#[test]
fn numeral_single_digit() {
    assert_eq!(u32_to_string(0), "0");
    assert_eq!(u32_to_string(7), "7");
}

#[test]
fn numeral_multi_digit() {
    assert_eq!(u32_to_string(42), "42");
    assert_eq!(u32_to_string(100), "100");
    assert_eq!(u32_to_string(u32::MAX), "4294967295");
}

#[test]
fn resolve_development_windows() {
    let config = ResolverConfig {
        dev_root: "C:\\proj".to_string(),
        platform: Platform::Windows,
    };
    let paths = resolve(&config, BuildMode::Development, None).unwrap();
    assert_eq!(paths.interpreter, "C:\\proj\\.venv\\Scripts\\python.exe");
    assert_eq!(paths.script, "C:\\proj\\python\\main.py");
    assert_eq!(paths.workdir, "C:\\proj");
}

#[test]
fn resolve_development_unix() {
    let config = ResolverConfig {
        dev_root: "/home/dev/proj".to_string(),
        platform: Platform::Unix,
    };
    let paths = resolve(&config, BuildMode::Development, None).unwrap();
    assert_eq!(paths.interpreter, "/home/dev/proj/.venv/bin/python");
    assert_eq!(paths.script, "/home/dev/proj/python/main.py");
    assert_eq!(paths.workdir, "/home/dev/proj");
}

#[test]
fn resolve_packaged_uses_resource_dir() {
    let config = ResolverConfig {
        dev_root: "/unused".to_string(),
        platform: Platform::Unix,
    };
    let paths = resolve(&config, BuildMode::Packaged, Some("/res".to_string())).unwrap();
    assert_eq!(paths.interpreter, "/res/python-embed/python");
    assert_eq!(paths.script, "/res/python/main.py");
    assert_eq!(paths.workdir, "/res");
}

#[test]
fn resolve_packaged_windows_interpreter_name() {
    let config = ResolverConfig {
        dev_root: "C:\\unused".to_string(),
        platform: Platform::Windows,
    };
    let paths = resolve(&config, BuildMode::Packaged, Some("D:\\res".to_string())).unwrap();
    assert_eq!(paths.interpreter, "D:\\res\\python-embed\\python.exe");
}

#[test]
fn resolve_packaged_without_resource_dir_fails() {
    let config = ResolverConfig {
        dev_root: "/unused".to_string(),
        platform: Platform::Unix,
    };
    match resolve(&config, BuildMode::Packaged, None) {
        Err(e) => assert_eq!(e, ResolveError::ResourceResolution),
        Ok(_) => panic!("packaged resolution without a resource directory must fail"),
    }
}

#[test]
fn args_without_page_limit() {
    let args = build_args(&request(None), &"/proj/python/main.py".to_string());
    assert_eq!(args, vec!["-u", "/proj/python/main.py", "board", "query"]);
    assert_eq!(args.len(), 4);
}

#[test]
fn args_with_page_limit() {
    let args = build_args(&request(Some(12)), &"/proj/python/main.py".to_string());
    assert_eq!(args, vec!["-u", "/proj/python/main.py", "board", "query", "12"]);
    assert_eq!(args.len(), 5);
}

#[test]
fn prepare_launch_development() {
    let config = ResolverConfig {
        dev_root: "/home/dev/proj".to_string(),
        platform: Platform::Unix,
    };
    let spec = prepare_launch(&config, BuildMode::Development, None, &request(Some(3))).unwrap();
    assert_eq!(spec.interpreter, "/home/dev/proj/.venv/bin/python");
    assert_eq!(
        spec.args,
        vec!["-u", "/home/dev/proj/python/main.py", "board", "query", "3"]
    );
    assert_eq!(spec.workdir, "/home/dev/proj");
    assert_eq!(
        spec.env,
        vec![("PYTHONIOENCODING".to_string(), "utf-8".to_string())]
    );
}

#[test]
fn prepare_launch_succeeds_for_valid_requests() {
    // The caller-facing command owes success to every valid (mode, data)
    // pair: preparation itself never blocks on the worker and only fails
    // when packaged resolution lacks a resource directory.
    let config = ResolverConfig {
        dev_root: "/home/dev/proj".to_string(),
        platform: Platform::Unix,
    };
    for (mode, data) in [("board", "a"), ("search", "keyword"), ("", "")] {
        let req = LaunchRequest {
            mode: mode.to_string(),
            data: data.to_string(),
            page_limit: None,
        };
        assert!(prepare_launch(&config, BuildMode::Development, None, &req).is_ok());
        assert!(
            prepare_launch(&config, BuildMode::Packaged, Some("/res".to_string()), &req).is_ok()
        );
    }
}

#[test]
fn prepare_launch_packaged_without_resource_dir_fails() {
    let config = ResolverConfig {
        dev_root: "/unused".to_string(),
        platform: Platform::Unix,
    };
    match prepare_launch(&config, BuildMode::Packaged, None, &request(None)) {
        Err(e) => assert_eq!(e, ResolveError::ResourceResolution),
        Ok(_) => panic!("packaged preparation without a resource directory must fail"),
    }
}
