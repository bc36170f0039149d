use vstd::prelude::*;

use crate::slug::{lowercase_text, slug, slug_of};
use crate::text::{cat, str_eq};
use vstd::string::StringExecFns;

verus! {

/// The arguments of `docker build` for an image tagged `tag` from
/// `dockerfile` in `context_dir`, for `platform` when one is set.
pub open spec fn build_args_of(tag: Seq<char>, dockerfile: Seq<char>, platform: Option<Seq<char>>, context_dir: Seq<char>) -> Seq<Seq<char>> {
    seq!["build"@, "-t"@, tag] + match platform {
        Some(p) => seq!["--platform"@, p],
        None => Seq::empty(),
    } + seq!["-f"@, dockerfile, context_dir]
}

/// See `build_args_of`.
pub fn build_args(tag: &str, dockerfile: &str, platform: Option<&str>, context_dir: &str) -> (r: Vec<String>)
    ensures
        r.deep_view() == build_args_of(tag@, dockerfile@, platform.deep_view(), context_dir@),
{
    let mut args: Vec<String> = Vec::new();
    args.push(String::from_str("build"));
    args.push(String::from_str("-t"));
    args.push(String::from_str(tag));
    if let Some(p) = platform {
        args.push(String::from_str("--platform"));
        args.push(String::from_str(p));
    }
    args.push(String::from_str("-f"));
    args.push(String::from_str(dockerfile));
    args.push(String::from_str(context_dir));
    assert(args.deep_view() =~= build_args_of(tag@, dockerfile@, platform.deep_view(), context_dir@));
    args
}

/// The arguments of `docker pull` for `base_image`, for `platform` when one
/// is set.
pub open spec fn pull_args_of(base_image: Seq<char>, platform: Option<Seq<char>>) -> Seq<Seq<char>> {
    match platform {
        Some(p) => seq!["pull"@, "--platform"@, p, base_image],
        None => seq!["pull"@, base_image],
    }
}

/// See `pull_args_of`.
pub fn pull_args(base_image: &str, platform: Option<&str>) -> (r: Vec<String>)
    ensures
        r.deep_view() == pull_args_of(base_image@, platform.deep_view()),
{
    let mut args: Vec<String> = Vec::new();
    args.push(String::from_str("pull"));
    if let Some(p) = platform {
        args.push(String::from_str("--platform"));
        args.push(String::from_str(p));
    }
    args.push(String::from_str(base_image));
    assert(args.deep_view() =~= pull_args_of(base_image@, platform.deep_view()));
    args
}

/// The image reference containers run from: the pulled or built image, with
/// the platform's slug added when a platform is set, so that images for
/// different architectures are never mixed up.
pub open spec fn local_tag_of(base_image: Seq<char>, platform: Option<Seq<char>>) -> Seq<char> {
    match platform {
        Some(p) => base_image + "--shrike-"@ + slug_of(lowercase_text(p)),
        None => base_image,
    }
}

/// See `local_tag_of`.
pub fn local_tag(base_image: &str, platform: Option<&str>) -> (r: String)
    ensures
        r@ == local_tag_of(base_image@, platform.deep_view()),
{
    match platform {
        Some(p) => cat(&cat(base_image, "--shrike-"), slug(p).as_str()),
        None => String::from_str(base_image),
    }
}

/// The image a profile runs: its `image` when set, else the image built
/// from its dockerfile, named after the dockerfile's path; none when it has
/// neither.
pub open spec fn image_name_of(image: Option<Seq<char>>, dockerfile: Option<Seq<char>>) -> Option<Seq<char>> {
    match image {
        Some(i) => Some(i),
        None => match dockerfile {
            Some(d) => Some("shrike-"@ + slug_of(lowercase_text(d))),
            None => None,
        },
    }
}

/// See `image_name_of`.
pub fn image_name(image: Option<&str>, dockerfile: Option<&str>) -> (r: Option<String>)
    ensures
        r.deep_view() == image_name_of(image.deep_view(), dockerfile.deep_view()),
{
    match image {
        Some(i) => Some(String::from_str(i)),
        None => match dockerfile {
            Some(d) => Some(cat("shrike-", slug(d).as_str())),
            None => None,
        },
    }
}

/// How an image is made ready: already there, built from its dockerfile,
/// or pulled (and then tagged with its local name when that differs).
pub enum ImagePlan {
    Ready,
    Build,
    Pull { tag: bool },
}

/// The plan for an image: with a dockerfile it is built when a rebuild is
/// asked for or the local tag does not exist; without, it is pulled when the
/// local tag does not exist.
pub open spec fn image_plan_of(
    has_dockerfile: bool,
    rebuild: bool,
    exists: bool,
    base_image: Seq<char>,
    local: Seq<char>,
) -> ImagePlan {
    if has_dockerfile {
        if rebuild || !exists {
            ImagePlan::Build
        } else {
            ImagePlan::Ready
        }
    } else if exists {
        ImagePlan::Ready
    } else {
        ImagePlan::Pull { tag: base_image != local }
    }
}

/// See `image_plan_of`; `exists` tells whether an image `local_tag` exists.
pub fn image_plan(has_dockerfile: bool, rebuild: bool, exists: bool, base_image: &str, local_tag: &str) -> (r: ImagePlan)
    ensures
        r == image_plan_of(has_dockerfile, rebuild, exists, base_image@, local_tag@),
{
    if has_dockerfile {
        if rebuild || !exists {
            ImagePlan::Build
        } else {
            ImagePlan::Ready
        }
    } else if exists {
        ImagePlan::Ready
    } else {
        ImagePlan::Pull { tag: !str_eq(base_image, local_tag) }
    }
}

/// Images for different platforms never share a local tag: a platform's tag
/// differs from the image's own name, and the tags of two platforms differ
/// whenever their slugs do.
pub proof fn law_platform_tags_apart(base_image: Seq<char>, p1: Seq<char>, p2: Seq<char>)
    ensures
        local_tag_of(base_image, Some(p1)) != local_tag_of(base_image, None),
        slug_of(lowercase_text(p1)) != slug_of(lowercase_text(p2)) ==> local_tag_of(base_image, Some(p1))
            != local_tag_of(base_image, Some(p2)),
{
    let head = base_image + "--shrike-"@;
    let t1 = head + slug_of(lowercase_text(p1));
    let t2 = head + slug_of(lowercase_text(p2));
    assert(t1.len() > base_image.len()) by {
        reveal_strlit("--shrike-");
    }
    if slug_of(lowercase_text(p1)) != slug_of(lowercase_text(p2)) && t1 == t2 {
        assert(t1.skip(head.len() as int) =~= slug_of(lowercase_text(p1)));
        assert(t2.skip(head.len() as int) =~= slug_of(lowercase_text(p2)));
    }
}

} // verus!
