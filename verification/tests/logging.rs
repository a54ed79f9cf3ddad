use std::collections::hash_map::DefaultHasher;
use std::hash::{Hash, Hasher};

use mcp_wrapper_rs::logging::{
    cmd_hash, infer_mcp_name, level_for, log_dir, log_file_name, log_level, runtime_subdir,
    sanitize_name, stem_of_path, tracing_plan,
};

fn strings(words: &[&str]) -> Vec<String> {
    words.iter().map(|w| w.to_string()).collect()
}

fn expected_hash(cmd: &str, args: &[String]) -> String {
    let mut h = DefaultHasher::new();
    cmd.hash(&mut h);
    args.hash(&mut h);
    format!("{:016x}", h.finish())[..8].to_string()
}

#[test]
fn the_identity_of_a_command_is_the_hash_of_its_words() {
    for (cmd, args) in [
        ("python3", strings(&["server.py"])),
        ("npx", strings(&["-y", "@scope/server@1.2.3"])),
        ("", strings(&[])),
        ("ключ", strings(&["火", ""])),
    ] {
        assert_eq!(cmd_hash(cmd, &args), expected_hash(cmd, &args));
    }
    for (cmd, args) in [("python3", strings(&["a.py"])), ("x", strings(&[]))] {
        let hash = cmd_hash(cmd, &args);
        assert_eq!(hash.len(), 8);
        assert!(hash.chars().all(|c| matches!(c, '0'..='9' | 'a'..='f')));
    }
    assert_ne!(
        cmd_hash("python3", &strings(&["a.py"])),
        cmd_hash("python3", &strings(&["b.py"]))
    );
    assert_ne!(
        cmd_hash("a", &strings(&["b", "c"])),
        cmd_hash("a", &strings(&["bc"]))
    );
}

#[test]
fn names_are_made_fit_for_files() {
    assert_eq!(sanitize_name("my-server_2"), "my-server_2");
    assert_eq!(sanitize_name("a/b c.d"), "a_b_c_d");
    assert_eq!(sanitize_name("火星"), "火星");
    assert_eq!(sanitize_name("../x"), "___x");
    assert_eq!(sanitize_name(""), "");
    assert_eq!(sanitize_name(&sanitize_name("é!")), sanitize_name("é!"));
}

#[test]
fn stems_of_paths() {
    assert_eq!(stem_of_path("/a/b/server.py"), Some("server".to_string()));
    assert_eq!(stem_of_path("server"), Some("server".to_string()));
    assert_eq!(stem_of_path(".hidden"), Some(".hidden".to_string()));
    assert_eq!(stem_of_path("a.tar.gz"), Some("a.tar".to_string()));
    assert_eq!(stem_of_path("dir/"), Some("dir".to_string()));
    assert_eq!(stem_of_path("dir/."), Some("dir".to_string()));
    assert_eq!(stem_of_path(".."), None);
    assert_eq!(stem_of_path("a/.."), None);
    assert_eq!(stem_of_path("/"), None);
    assert_eq!(stem_of_path(""), None);
    for path in [
        "/a/b/server.py", "x", ".x", "x.", "..x", "...", "a//b.c//", "./", "./..", "a.b/c", "..",
        "a/./", "/.", "x.y.",
    ] {
        let std_stem = std::path::Path::new(path)
            .file_stem()
            .map(|s| s.to_string_lossy().to_string());
        assert_eq!(stem_of_path(path), std_stem, "{path}");
    }
}

#[test]
fn servers_are_named_after_what_is_run() {
    assert_eq!(infer_mcp_name(Some("given name"), "npx", &strings(&["x"])), "given_name");
    assert_eq!(
        infer_mcp_name(None, "npx", &strings(&["-y", "@anthropics/mcp-searxng@1.0"])),
        "mcp-searxng"
    );
    assert_eq!(infer_mcp_name(None, "npx", &strings(&["@scope"])), "");
    assert_eq!(infer_mcp_name(None, "npx", &strings(&["-y"])), "npx");
    assert_eq!(
        infer_mcp_name(None, "python3", &strings(&["/srv/my.server.py", "x"])),
        "my_server"
    );
    assert_eq!(infer_mcp_name(None, "python", &strings(&["tool.py"])), "tool");
    assert_eq!(infer_mcp_name(None, "python3", &strings(&[])), "python3");
    assert_eq!(infer_mcp_name(None, "python3", &strings(&[".."])), "python3");
    assert_eq!(infer_mcp_name(None, "/opt/run.sh", &strings(&[])), "run");
    assert_eq!(infer_mcp_name(None, "/bin/x y", &strings(&[])), "_bin_x_y");
}

#[test]
fn levels_are_read_in_any_case() {
    assert_eq!(log_level("1"), "info");
    assert_eq!(log_level("INFO"), "info");
    assert_eq!(log_level("2"), "warn");
    assert_eq!(log_level("Warn"), "warn");
    assert_eq!(log_level("3"), "debug");
    assert_eq!(log_level("DeBuG"), "debug");
    assert_eq!(log_level("verbose"), "info");
    assert_eq!(log_level(""), "info");
    assert_eq!(level_for("WARN"), "info");
}

#[test]
fn log_files_are_named_after_the_server() {
    let args = strings(&["server.py"]);
    assert_eq!(
        log_file_name(Some("my server"), "python3", &args),
        "my_server.log"
    );
    assert_eq!(
        log_file_name(None, "python3", &args),
        "server.log"
    );
}

#[test]
fn log_directories_are_tried_in_order() {
    assert_eq!(runtime_subdir("/run/user/1"), "/run/user/1/mcp-wrapper");
    assert_eq!(
        log_dir(Some("/run/x".to_string()), Some("/var/tmp".to_string())),
        "/run/x"
    );
    assert_eq!(log_dir(None, Some("/var/tmp".to_string())), "/var/tmp");
    assert_eq!(log_dir(None, None), "/tmp");
}

#[test]
fn nothing_is_logged_without_a_setting() {
    let args = strings(&["server.py"]);
    assert!(tracing_plan(None, None, "python3", &args).is_none());
    let plan = tracing_plan(Some("3"), Some("x"), "python3", &args).unwrap();
    assert_eq!(plan.filter, "mcp_wrapper_rs=debug");
    assert_eq!(plan.file_name, "x.log");
    let searxng = strings(&["-y", "mcp-searxng"]);
    let plan = tracing_plan(Some("1"), None, "npx", &searxng).unwrap();
    assert_eq!(plan.file_name, "mcp-searxng.log");
    let plan = tracing_plan(Some("1"), Some("my-custom-name"), "python3", &args).unwrap();
    assert_eq!(plan.file_name, "my-custom-name.log");
}
