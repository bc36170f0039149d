use vstd::prelude::*;

use crate::text::{ascii_lower, ascii_text, cat, cat3, chars_of, is_upper, string_of_range};

verus! {

/// What `str::to_lowercase` makes of a text (Unicode lowercase mapping).
pub uninterp spec fn lowercase_text(s: Seq<char>) -> Seq<char>;

/// Calls `str::to_lowercase`. Claims that the result is a function of the
/// text, that no ASCII capital letter is left in it, and that on ASCII text
/// it maps `A`..`Z` to `a`..`z` and keeps every other character, as the
/// Unicode lowercase mapping that it applies does; the mapping of other
/// characters is left to the name.
#[verifier::external_body]
pub(crate) fn to_lowercase(s: &str) -> (r: String)
    ensures
        r@ == lowercase_text(s@),
        forall|i: int| 0 <= i < r@.len() ==> !is_upper(#[trigger] r@[i]),
        ascii_text(s@) ==> r@ == ascii_lower(s@),
{
    s.to_lowercase()
}

/// ASCII letters and digits.
pub open spec fn is_alnum(c: char) -> bool {
    ('0' <= c && c <= '9') || ('a' <= c && c <= 'z') || ('A' <= c && c <= 'Z')
}

/// The slug of `s` before trailing hyphens are cut, with whether it ends in a
/// hyphen (or is empty): letters and digits kept, every run of other
/// characters turned into one hyphen, none at the start.
pub open spec fn slug_run(s: Seq<char>) -> (Seq<char>, bool)
    decreases s.len(),
{
    if s.len() == 0 {
        (Seq::empty(), true)
    } else {
        let (out, prev_hyphen) = slug_run(s.drop_last());
        let c = s.last();
        if is_alnum(c) {
            (out.push(c), false)
        } else if !prev_hyphen {
            (out.push('-'), true)
        } else {
            (out, prev_hyphen)
        }
    }
}

/// `s` without trailing hyphens.
pub open spec fn trim_hyphens(s: Seq<char>) -> Seq<char>
    decreases s.len(),
{
    if s.len() > 0 && s.last() == '-' {
        trim_hyphens(s.drop_last())
    } else {
        s
    }
}

/// The slug of an already lowercased text.
pub open spec fn slug_of(s: Seq<char>) -> Seq<char> {
    trim_hyphens(slug_run(s).0)
}

/// A name made of the text's letters and digits, lowercased, with one hyphen
/// for each run of other characters and none at either end.
pub fn slug(s: &str) -> (r: String)
    ensures
        r@ == slug_of(lowercase_text(s@)),
        ascii_text(s@) ==> r@ == slug_of(ascii_lower(s@)),
        slug_shaped(r@),
        ascii_text(r@),
        slug_of(ascii_lower(r@)) == r@,
{
    let lower = to_lowercase(s);
    let cs = chars_of(lower.as_str());
    let mut out: Vec<char> = Vec::new();
    let mut prev_hyphen = true;
    for i in 0..cs.len()
        invariant
            cs@ == lowercase_text(s@),
            slug_run(cs@.take(i as int)) == (out@, prev_hyphen),
    {
        assert(cs@.take(i + 1).drop_last() == cs@.take(i as int));
        let c = cs[i];
        if ('0' <= c && c <= '9') || ('a' <= c && c <= 'z') || ('A' <= c && c <= 'Z') {
            out.push(c);
            prev_hyphen = false;
        } else if !prev_hyphen {
            out.push('-');
            prev_hyphen = true;
        }
    }
    assert(cs@.take(cs.len() as int) == cs@);
    let mut n = out.len();
    assert(out@.take(n as int) == out@);
    while n > 0 && out[n - 1] == '-'
        invariant
            n <= out.len(),
            trim_hyphens(out@) == trim_hyphens(out@.take(n as int)),
        decreases n,
    {
        assert(out@.take(n as int).drop_last() == out@.take(n - 1));
        n -= 1;
    }
    assert(out@.take(n as int) == out@.subrange(0, n as int));
    assert(n == 0 || out@.take(n as int).last() == out@[n - 1]);
    let r = string_of_range(&out, 0, n);
    proof {
        lemma_slug_settles(lowercase_text(s@));
    }
    r
}

/// The container for a repository, profile and branch, and a platform when
/// one is set: `shrike--<repo>--<profile>--<branch>[--<platform>]`, each part
/// slugged.
pub open spec fn container_name_of(
    root: Seq<char>,
    profile: Seq<char>,
    branch: Seq<char>,
    platform: Option<Seq<char>>,
) -> Seq<char> {
    let base = "shrike--"@ + slug_of(lowercase_text(root)) + "--"@ + slug_of(lowercase_text(profile))
        + "--"@ + slug_of(lowercase_text(branch));
    match platform {
        Some(p) => base + "--"@ + slug_of(lowercase_text(p)),
        None => base,
    }
}

/// See `container_name_of`.
pub fn container_name(git_root: &str, profile: &str, branch: &str, platform: Option<&str>) -> (r: String)
    ensures
        r@ == container_name_of(git_root@, profile@, branch@, platform.deep_view()),
{
    let base = cat(
        &cat3(&cat3("shrike--", slug(git_root).as_str(), "--"), slug(profile).as_str(), "--"),
        slug(branch).as_str(),
    );
    match platform {
        Some(p) => cat3(base.as_str(), "--", slug(p).as_str()),
        None => base,
    }
}

// ── Laws ────────────────────────────────────────────────────────────────────

/// Whether `s` is shaped like a slug: letters, digits and single hyphens,
/// with no hyphen at either end.
pub open spec fn slug_shaped(s: Seq<char>) -> bool {
    &&& forall|i: int| 0 <= i < s.len() ==> is_alnum(#[trigger] s[i]) || s[i] == '-'
    &&& s.len() > 0 ==> s[0] != '-' && s.last() != '-'
    &&& forall|i: int| 0 <= i < s.len() - 1 ==> !(#[trigger] s[i] == '-' && s[i + 1] == '-')
}

proof fn lemma_slug_run_shape(s: Seq<char>)
    ensures
        ({
            let (out, prev) = slug_run(s);
            &&& forall|i: int| 0 <= i < out.len() ==> is_alnum(#[trigger] out[i]) || out[i] == '-'
            &&& out.len() > 0 ==> out[0] != '-'
            &&& forall|i: int| 0 <= i < out.len() - 1 ==> !(#[trigger] out[i] == '-' && out[i + 1] == '-')
            &&& prev <==> (out.len() == 0 || out.last() == '-')
        }),
    decreases s.len(),
{
    if s.len() > 0 {
        lemma_slug_run_shape(s.drop_last());
        let (o, p) = slug_run(s.drop_last());
        let (out, prev) = slug_run(s);
        assert forall|i: int| 0 <= i < out.len() implies is_alnum(#[trigger] out[i]) || out[i] == '-' by {
            if i < o.len() {
                assert(out[i] == o[i]);
            }
        }
        assert forall|i: int| 0 <= i < out.len() - 1 implies !(#[trigger] out[i] == '-' && out[i + 1] == '-') by {
            if i + 1 < o.len() {
                assert(out[i] == o[i] && out[i + 1] == o[i + 1]);
            } else if i + 1 == o.len() {
                assert(out[i] == o[i]);
            }
        }
        if out.len() > 0 && o.len() > 0 {
            assert(out[0] == o[0]);
        }
    }
}

proof fn lemma_trim_hyphens_shape(s: Seq<char>)
    requires
        forall|i: int| 0 <= i < s.len() ==> is_alnum(#[trigger] s[i]) || s[i] == '-',
        s.len() > 0 ==> s[0] != '-',
        forall|i: int| 0 <= i < s.len() - 1 ==> !(#[trigger] s[i] == '-' && s[i + 1] == '-'),
    ensures
        slug_shaped(trim_hyphens(s)),
    decreases s.len(),
{
    if s.len() > 0 && s.last() == '-' {
        let d = s.drop_last();
        assert forall|i: int| 0 <= i < d.len() - 1 implies !(#[trigger] d[i] == '-' && d[i + 1] == '-') by {
            assert(d[i] == s[i] && d[i + 1] == s[i + 1]);
        }
        assert forall|i: int| 0 <= i < d.len() implies is_alnum(#[trigger] d[i]) || d[i] == '-' by {
            assert(d[i] == s[i]);
        }
        if d.len() > 0 {
            assert(d[0] == s[0]);
        }
        lemma_trim_hyphens_shape(d);
    }
}

proof fn lemma_slug_run_from(s: Seq<char>)
    ensures
        forall|i: int| 0 <= i < slug_run(s).0.len() ==> #[trigger] slug_run(s).0[i] == '-' || s.contains(slug_run(s).0[i]),
    decreases s.len(),
{
    if s.len() > 0 {
        let d = s.drop_last();
        lemma_slug_run_from(d);
        let o = slug_run(d).0;
        let out = slug_run(s).0;
        assert forall|i: int| 0 <= i < out.len() implies #[trigger] out[i] == '-' || s.contains(out[i]) by {
            if i < o.len() {
                assert(out[i] == o[i]);
                if o[i] != '-' {
                    let k = choose|k: int| 0 <= k < d.len() && d[k] == o[i];
                    assert(s[k] == d[k]);
                }
            } else {
                assert(s[s.len() - 1] == s.last());
            }
        }
    }
}

proof fn lemma_trim_hyphens_prefix(s: Seq<char>)
    ensures
        trim_hyphens(s).len() <= s.len(),
        trim_hyphens(s) == s.take(trim_hyphens(s).len() as int),
    decreases s.len(),
{
    if s.len() > 0 && s.last() == '-' {
        lemma_trim_hyphens_prefix(s.drop_last());
        assert(s.drop_last().take(trim_hyphens(s).len() as int) =~= s.take(trim_hyphens(s).len() as int));
    } else {
        assert(s.take(s.len() as int) =~= s);
    }
}

/// What slugging a text without ASCII capitals gives: slug-shaped ASCII
/// without capitals, which slugging again (lowercase step included) keeps.
proof fn lemma_slug_settles(l: Seq<char>)
    requires
        forall|i: int| 0 <= i < l.len() ==> !is_upper(#[trigger] l[i]),
    ensures
        slug_shaped(slug_of(l)),
        ascii_text(slug_of(l)),
        ascii_lower(slug_of(l)) == slug_of(l),
        slug_of(slug_of(l)) == slug_of(l),
{
    let out = slug_run(l).0;
    let t = slug_of(l);
    law_slug_shape(l);
    lemma_slug_run_from(l);
    lemma_trim_hyphens_prefix(out);
    assert forall|i: int| 0 <= i < t.len() implies !is_upper(#[trigger] t[i]) && (t[i] as u32) < 128 by {
        assert(t[i] == out[i]);
        if out[i] != '-' {
            let k = choose|k: int| 0 <= k < l.len() && l[k] == out[i];
            assert(!is_upper(l[k]));
        }
        assert(is_alnum(t[i]) || t[i] == '-');
    }
    assert(ascii_lower(t) =~= t);
    law_slug_stable(t);
}

/// Every slug is made of ASCII letters, digits and single hyphens, with no
/// hyphen at either end.
pub proof fn law_slug_shape(s: Seq<char>)
    ensures
        slug_shaped(slug_of(s)),
{
    lemma_slug_run_shape(s);
    lemma_trim_hyphens_shape(slug_run(s).0);
}

/// Slugging what is already slug-shaped changes nothing (before the
/// lowercase step, which `to_lowercase` performs).
pub proof fn law_slug_stable(s: Seq<char>)
    requires
        slug_shaped(s),
    ensures
        slug_of(s) == s,
{
    lemma_slug_of_shaped(s);
}

proof fn lemma_slug_of_shaped(s: Seq<char>)
    requires
        forall|i: int| 0 <= i < s.len() ==> is_alnum(#[trigger] s[i]) || s[i] == '-',
        s.len() > 0 ==> s[0] != '-',
        forall|i: int| 0 <= i < s.len() - 1 ==> !(#[trigger] s[i] == '-' && s[i + 1] == '-'),
    ensures
        slug_run(s).0 == s,
        slug_run(s).1 <==> (s.len() == 0 || s.last() == '-'),
        s.len() > 0 && s.last() != '-' ==> slug_of(s) == s,
    decreases s.len(),
{
    if s.len() > 0 {
        let d = s.drop_last();
        assert forall|i: int| 0 <= i < d.len() - 1 implies !(#[trigger] d[i] == '-' && d[i + 1] == '-') by {
            assert(d[i] == s[i] && d[i + 1] == s[i + 1]);
        }
        assert forall|i: int| 0 <= i < d.len() implies is_alnum(#[trigger] d[i]) || d[i] == '-' by {
            assert(d[i] == s[i]);
        }
        if d.len() > 0 {
            assert(d[0] == s[0]);
            assert(!(s[d.len() - 1] == '-' && s[d.len() as int] == '-'));
        }
        lemma_slug_of_shaped(d);
        assert(d.push(s.last()) =~= s);
        if s.last() == '-' {
            assert(is_alnum(s.last()) == false);
        }
    }
}

/// Each branch has a container of its own: for the same repository, profile
/// and platform, branches whose slugs differ get different container names.
pub proof fn law_branch_containers_apart(
    root: Seq<char>,
    profile: Seq<char>,
    b1: Seq<char>,
    b2: Seq<char>,
    platform: Option<Seq<char>>,
)
    requires
        slug_of(lowercase_text(b1)) != slug_of(lowercase_text(b2)),
    ensures
        container_name_of(root, profile, b1, platform) != container_name_of(root, profile, b2, platform),
{
    let head = "shrike--"@ + slug_of(lowercase_text(root)) + "--"@ + slug_of(lowercase_text(profile)) + "--"@;
    let s1 = slug_of(lowercase_text(b1));
    let s2 = slug_of(lowercase_text(b2));
    let tail: Seq<char> = match platform {
        Some(p) => "--"@ + slug_of(lowercase_text(p)),
        None => Seq::empty(),
    };
    let n1 = container_name_of(root, profile, b1, platform);
    let n2 = container_name_of(root, profile, b2, platform);
    assert(n1 =~= head + s1 + tail);
    assert(n2 =~= head + s2 + tail);
    if n1 == n2 {
        if s1.len() == s2.len() {
            assert(s1 =~= n1.subrange(head.len() as int, (head.len() + s1.len()) as int));
            assert(s2 =~= n2.subrange(head.len() as int, (head.len() + s2.len()) as int));
        } else {
            assert(n1.len() != n2.len());
        }
    }
}

} // verus!
