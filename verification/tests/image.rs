use shrike::docker::image::{build_args, image_name, local_tag, pull_args};

#[test]
fn build_args_no_platform() {
    let args = build_args("shrike-abc", "/repo/Dockerfile", None, "/repo");
    assert_eq!(args, vec!["build", "-t", "shrike-abc", "-f", "/repo/Dockerfile", "/repo"]);
}

#[test]
fn build_args_with_platform() {
    let args = build_args(
        "shrike-abc--shrike-linux-arm64",
        "/repo/Dockerfile",
        Some("linux/arm64"),
        "/repo",
    );
    assert_eq!(
        args,
        vec![
            "build",
            "-t",
            "shrike-abc--shrike-linux-arm64",
            "--platform",
            "linux/arm64",
            "-f",
            "/repo/Dockerfile",
            "/repo",
        ]
    );
}

#[test]
fn pull_args_forms() {
    assert_eq!(pull_args("ubuntu:22.04", None), vec!["pull", "ubuntu:22.04"]);
    assert_eq!(
        pull_args("ubuntu:22.04", Some("linux/arm64")),
        vec!["pull", "--platform", "linux/arm64", "ubuntu:22.04"]
    );
}

#[test]
fn local_tag_adds_platform_slug() {
    assert_eq!(local_tag("shrike-abc", Some("linux/arm64")), "shrike-abc--shrike-linux-arm64");
    assert_eq!(local_tag("ubuntu:22.04", None), "ubuntu:22.04");
}

#[test]
fn image_name_from_dockerfile() {
    assert_eq!(image_name(Some("ubuntu:22.04"), Some("/r/Dockerfile")).as_deref(), Some("ubuntu:22.04"));
    assert_eq!(image_name(None, Some("/repo/Dockerfile")).as_deref(), Some("shrike-repo-dockerfile"));
    assert_eq!(image_name(None, None), None);
}

#[test]
fn platform_tags_stay_apart() {
    let arm = local_tag("img", Some("linux/arm64"));
    let amd = local_tag("img", Some("linux/amd64"));
    assert_ne!(arm, amd);
    assert_ne!(arm, local_tag("img", None));
}
