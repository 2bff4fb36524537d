use jail::config::Config;
use jail::image::{DOCKERFILE, IMAGE_NAME};
use jail::names::{derive_name, hex_encode, sanitize_container_name};
use jail::runtime::Runtime;

#[test]
fn test_default_config() {
    let config = Config::default();
    assert!(config.runtime.is_none());
}

#[test]
fn test_image_name() {
    assert_eq!(IMAGE_NAME, "jail-dev:latest");
}

#[test]
fn test_dockerfile_not_empty() {
    assert!(!DOCKERFILE.is_empty());
    assert!(DOCKERFILE.contains("ubuntu:24.04"));
    assert!(DOCKERFILE.contains("dev"));
}

#[test]
fn test_derive_name_github_https() {
    assert_eq!(
        derive_name("https://github.com/owner/repo.git"),
        "owner/repo"
    );
    assert_eq!(derive_name("https://github.com/owner/repo"), "owner/repo");
}

#[test]
fn test_derive_name_github_ssh() {
    assert_eq!(derive_name("git@github.com:owner/repo.git"), "owner/repo");
}

#[test]
fn test_derive_name_local_path() {
    assert_eq!(derive_name("/home/user/projects/myproject"), "myproject");
    assert_eq!(derive_name("./myproject"), "myproject");
}

#[test]
fn test_sanitize_container_name() {
    assert_eq!(sanitize_container_name("owner/repo"), "owner-repo");
    assert_eq!(sanitize_container_name("my project"), "my_project");
}

#[test]
fn test_hex_encode() {
    assert_eq!(hex_encode("abc"), "616263");
}

#[test]
fn test_runtime_command() {
    assert_eq!(Runtime::Docker.command(), "docker");
    assert_eq!(Runtime::Podman.command(), "podman");
}
