use shrike::slug::{container_name, slug};

#[test]
fn slug_basic() {
    assert_eq!(
        slug("/home/user/projects/myapp"),
        "home-user-projects-myapp"
    );
}

#[test]
fn slug_consecutive_separators() {
    assert_eq!(slug("/foo//bar"), "foo-bar");
}

#[test]
fn slug_trailing() {
    assert_eq!(slug("/foo/bar/"), "foo-bar");
}

#[test]
fn container_name_format() {
    let root = "/home/user/projects/myapp";
    assert_eq!(
        container_name(root, "default", "main", None),
        "shrike--home-user-projects-myapp--default--main"
    );
}

#[test]
fn container_name_branch_slug() {
    let root = "/repo";
    assert_eq!(
        container_name(root, "dev", "feature/my-thing", None),
        "shrike--repo--dev--feature-my-thing"
    );
}

#[test]
fn container_name_with_platform() {
    let root = "/repo";
    assert_eq!(
        container_name(root, "dev", "main", Some("linux/arm64")),
        "shrike--repo--dev--main--linux-arm64"
    );
}

#[test]
fn slug_lowercases_and_keeps_digits() {
    assert_eq!(slug("My_App 2"), "my-app-2");
}

#[test]
fn slug_of_slug_is_unchanged() {
    let once = slug("/Home//User/x-y/");
    assert_eq!(slug(&once), once);
}

#[test]
fn slug_of_separators_only_is_empty() {
    assert_eq!(slug("/-_/"), "");
}

#[test]
fn branches_get_their_own_containers() {
    let main = container_name("/repo", "dev", "main", Some("linux/arm64"));
    let feature = container_name("/repo", "dev", "feature/x", Some("linux/arm64"));
    assert_ne!(main, feature);
    assert_eq!(feature, "shrike--repo--dev--feature-x--linux-arm64");
}

#[test]
fn slugging_a_slug_changes_nothing() {
    for s in ["/Home/User/My Project", "feature/ABC--x", "", "--a--"] {
        let once = slug(s);
        assert_eq!(slug(&once), once);
    }
}
