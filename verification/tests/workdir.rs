use shrike::workdir::resolve;

#[test]
fn explicit_workdir() {
    let root = "/repo";
    let cwd = "/repo/src";
    assert_eq!(
        resolve(Some("/workspace/build"), root, cwd),
        "/workspace/build"
    );
}

#[test]
fn mirror_cwd_subdir() {
    let root = "/repo";
    let cwd = "/repo/src/lib";
    assert_eq!(resolve(None, root, cwd), "/workspace/src/lib");
}

#[test]
fn mirror_cwd_at_root() {
    let root = "/repo";
    let cwd = "/repo";
    assert_eq!(resolve(None, root, cwd), "/workspace");
}

#[test]
fn mirror_cwd_outside_root() {
    let root = "/repo";
    let cwd = "/other";
    assert_eq!(resolve(None, root, cwd), "/workspace");
}

#[test]
fn sibling_with_common_prefix_is_outside() {
    assert_eq!(resolve(None, "/repo", "/repository/x"), "/workspace");
}
