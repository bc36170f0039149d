use vstd::prelude::*;

use crate::text::{cat3, str_eq};

verus! {

/// The config file that `--new` writes by default: one profile with an
/// image and an interactive shell alias, and commented-out settings.
pub open spec fn default_template_text() -> Seq<char> {
    "[project]\nprofile = \"default\"\n\n[default]\nimage = \"ubuntu:22.04\"\n# env     = [\"CC\", \"CXX\", \"MAKEFLAGS\"]\n# ports   = [\"8080:8080\"]\n# volumes = [\"/host/path:/container/path\"]\n# user    = \"$(id -u):$(id -g)\"\n# setup   = \"sudo chown -R $(id -u):$(id -g) /workspace\"\n\n[default.shell]\ncmd         = \"bash\"\nworkdir     = \"/workspace\"\ninteractive = true\n"@
}

/// The config file of the `cmake` template: configure, build and test
/// aliases, a shell, and a `ci` pipeline of the first three.
pub open spec fn cmake_template_text() -> Seq<char> {
    "[project]\nprofile = \"default\"\n\n[default]\nimage = \"ubuntu:22.04\"\nenv   = [\"CC\", \"CXX\", \"MAKEFLAGS\"]\n\n[default.configure]\ncmd     = \"cmake -S /workspace -B /workspace/build\"\nworkdir = \"/workspace\"\n\n[default.build]\ncmd     = \"cmake --build /workspace/build\"\nworkdir = \"/workspace/build\"\nenv     = [\"JOBS=4\"]\n\n[default.test]\ncmd     = \"ctest --test-dir /workspace/build --output-on-failure\"\nworkdir = \"/workspace/build\"\n\n[default.shell]\ncmd         = \"bash\"\nworkdir     = \"/workspace\"\ninteractive = true\n\n[default.ci]\npipeline = [\"configure\", \"build\", \"test\"]\n"@
}

/// The template `name` (`default` when none is named), or the message for
/// an unknown one.
pub open spec fn template_of(name: Option<Seq<char>>) -> Result<Seq<char>, Seq<char>> {
    let n = match name {
        Some(x) => x,
        None => "default"@,
    };
    if n == "cmake"@ {
        Ok(cmake_template_text())
    } else if n == "default"@ {
        Ok(default_template_text())
    } else {
        Err("unknown template `"@ + n + "`; use `default` or `cmake`"@)
    }
}

/// See `template_of`.
pub fn template_text(name: Option<&str>) -> (r: Result<&'static str, String>)
    ensures
        match r {
            Ok(t) => template_of(name.deep_view()) == Ok::<Seq<char>, Seq<char>>(t@),
            Err(m) => template_of(name.deep_view()) == Err::<Seq<char>, Seq<char>>(m@),
        },
{
    let n = match name {
        Some(x) => x,
        None => "default",
    };
    if str_eq(n, "cmake") {
        Ok("[project]\nprofile = \"default\"\n\n[default]\nimage = \"ubuntu:22.04\"\nenv   = [\"CC\", \"CXX\", \"MAKEFLAGS\"]\n\n[default.configure]\ncmd     = \"cmake -S /workspace -B /workspace/build\"\nworkdir = \"/workspace\"\n\n[default.build]\ncmd     = \"cmake --build /workspace/build\"\nworkdir = \"/workspace/build\"\nenv     = [\"JOBS=4\"]\n\n[default.test]\ncmd     = \"ctest --test-dir /workspace/build --output-on-failure\"\nworkdir = \"/workspace/build\"\n\n[default.shell]\ncmd         = \"bash\"\nworkdir     = \"/workspace\"\ninteractive = true\n\n[default.ci]\npipeline = [\"configure\", \"build\", \"test\"]\n")
    } else if str_eq(n, "default") {
        Ok("[project]\nprofile = \"default\"\n\n[default]\nimage = \"ubuntu:22.04\"\n# env     = [\"CC\", \"CXX\", \"MAKEFLAGS\"]\n# ports   = [\"8080:8080\"]\n# volumes = [\"/host/path:/container/path\"]\n# user    = \"$(id -u):$(id -g)\"\n# setup   = \"sudo chown -R $(id -u):$(id -g) /workspace\"\n\n[default.shell]\ncmd         = \"bash\"\nworkdir     = \"/workspace\"\ninteractive = true\n")
    } else {
        Err(cat3("unknown template `", n, "`; use `default` or `cmake`"))
    }
}

} // verus!
