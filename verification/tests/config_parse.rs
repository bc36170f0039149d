use shrike::config::parse::parse_str;

const GLOBAL_EXAMPLE: &str = r#"
[default]
image = "ubuntu:22.04"
env   = ["CC", "CXX", "MAKEFLAGS"]

[default.configure]
cmd     = "cmake -S /workspace -B /workspace/build"
workdir = "/workspace"

[default.build]
cmd     = "cmake --build /workspace/build"
workdir = "/workspace/build"
env     = ["JOBS=4"]

[default.test]
cmd     = "ctest --test-dir /workspace/build --output-on-failure"
workdir = "/workspace/build"

[default.shell]
cmd         = "bash"
workdir     = "/workspace"
interactive = true

[default.ci]
pipeline = ["configure", "build", "test"]

[default.prepare]
cmd    = "cmake -S /workspace -B /workspace/build -DCMAKE_BUILD_TYPE=Release"
hidden = true

[clang]
image = "silkeh/clang:18"
env   = ["CC=clang", "CXX=clang++", "MAKEFLAGS"]

[clang.configure]
cmd     = "cmake -S /workspace -B /workspace/build -DCMAKE_BUILD_TYPE=Release"
workdir = "/workspace"

[clang.build]
cmd     = "cmake --build /workspace/build -- -j$(nproc)"
workdir = "/workspace/build"
"#;

const REPO_EXAMPLE: &str = r#"
[project]
profile = "default"

[default]
image = "my-org/my-project:latest"

[default.configure]
cmd = "cmake -S . -B build -DCMAKE_BUILD_TYPE=Release"

[default.build]
cmd = "cmake --build build"

[default.test]
cmd = "ctest --test-dir build --output-on-failure"

[default.shell]
cmd         = "bash"
interactive = true

[default.ci]
pipeline = ["configure", "build", "test"]
"#;

const PROJECT_EXAMPLE: &str = r#"
[project]
pattern = ".*/Github/myproject(/.*)?$"
profile = "default"

[default]
image = "myorg/custom-image:1.2.3"

[default.configure]
cmd     = "cmake -S /workspace -B /workspace/build -DMYPROJECT_ENABLE_TESTS=ON"
workdir = "/workspace"

[default.test]
cmd     = "ctest --test-dir /workspace/build --output-on-failure -j4"
workdir = "/workspace/build"
env     = ["CTEST_OUTPUT_ON_FAILURE=1", "BRANCH=$(git branch --show-current)"]

[default.lint]
cmd     = "clang-tidy -p /workspace/build $(find /workspace/src -name '*.cpp')"
workdir = "/workspace"
"#;

#[test]
fn parse_global() {
    let f = parse_str(GLOBAL_EXAMPLE).unwrap();
    assert!(f.project.is_none());
    let def = f.profiles.get("default").unwrap();
    assert_eq!(def.image.as_deref(), Some("ubuntu:22.04"));
    assert_eq!(
        def.env,
        Some(vec!["CC".into(), "CXX".into(), "MAKEFLAGS".into()])
    );
    assert_eq!(def.aliases.len(), 6);
    let build = def.aliases.get("build").unwrap();
    assert_eq!(build.cmd.as_deref(), Some("cmake --build /workspace/build"));
    assert_eq!(build.env, Some(vec!["JOBS=4".into()]));
    let ci = def.aliases.get("ci").unwrap();
    assert_eq!(
        ci.pipeline,
        Some(vec!["configure".into(), "build".into(), "test".into()])
    );
    let prepare = def.aliases.get("prepare").unwrap();
    assert_eq!(prepare.hidden, Some(true));
    let clang = f.profiles.get("clang").unwrap();
    assert_eq!(clang.image.as_deref(), Some("silkeh/clang:18"));
    assert_eq!(clang.aliases.len(), 2);
}

#[test]
fn parse_repo() {
    let f = parse_str(REPO_EXAMPLE).unwrap();
    let proj = f.project.as_ref().unwrap();
    assert_eq!(proj.profile.as_deref(), Some("default"));
    assert!(proj.pattern.is_none());
    let def = f.profiles.get("default").unwrap();
    assert_eq!(def.image.as_deref(), Some("my-org/my-project:latest"));
    assert_eq!(def.aliases.len(), 5);
    let shell = def.aliases.get("shell").unwrap();
    assert_eq!(shell.interactive, Some(true));
}

#[test]
fn parse_project() {
    let f = parse_str(PROJECT_EXAMPLE).unwrap();
    let proj = f.project.as_ref().unwrap();
    assert_eq!(proj.pattern.as_deref(), Some(".*/Github/myproject(/.*)?$"));
    let def = f.profiles.get("default").unwrap();
    assert_eq!(def.image.as_deref(), Some("myorg/custom-image:1.2.3"));
    let test = def.aliases.get("test").unwrap();
    assert_eq!(
        test.env,
        Some(vec![
            "CTEST_OUTPUT_ON_FAILURE=1".into(),
            "BRANCH=$(git branch --show-current)".into()
        ])
    );
}
