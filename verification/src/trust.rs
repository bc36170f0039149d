use vstd::prelude::*;

use crate::config::types::{AliasView, ConfigFile, ConfigView, ProfileView};
use crate::display::output::{Colors, ColorsView};
use crate::env_spec::{has_eval, needs_env_eval, needs_eval, value_part};
use crate::text::{ascii_lower, contains_str, has_sub};
use crate::maps::{alias_map_get_index, alias_map_len, profile_map_get_index, profile_map_len};
use crate::text::{
    chars_of, concat, first_index, glue, join, join_all, lemma_first_index, push_char,
    string_of_range, strs_view, trim, trim_str,
};
use vstd::string::StringExecFns;

verus! {

// ── Values evaluated on the host ────────────────────────────────────────────

/// Whether a value is handed to the shell on the host: a value expanded
/// with the profile's env (`any_dollar`: volumes and alias workdirs) on any
/// `$` or backquote, any other value on `$(`, a backquote or `${`.
pub open spec fn asks_shell(v: Seq<char>, any_dollar: bool) -> bool {
    if any_dollar {
        needs_env_eval(v)
    } else {
        needs_eval(v)
    }
}

/// The values among `vals` that are handed to the shell, in order.
pub open spec fn evaluated(vals: Seq<Seq<char>>, any_dollar: bool) -> Seq<Seq<char>>
    decreases vals.len(),
{
    if vals.len() == 0 {
        Seq::empty()
    } else if asks_shell(vals.last(), any_dollar) {
        evaluated(vals.drop_last(), any_dollar).push(vals.last())
    } else {
        evaluated(vals.drop_last(), any_dollar)
    }
}

fn shell_bound(v: &str, any_dollar: bool) -> (r: bool)
    ensures
        r == asks_shell(v@, any_dollar),
{
    if any_dollar {
        has_eval(v) || contains_str(v, "$")
    } else {
        has_eval(v)
    }
}

/// An optional list as a list (empty when absent).
pub open spec fn list_of(o: Option<Seq<Seq<char>>>) -> Seq<Seq<char>> {
    match o {
        Some(v) => v,
        None => Seq::empty(),
    }
}

/// An optional value as a list of zero or one.
pub open spec fn one_of(o: Option<Seq<char>>) -> Seq<Seq<char>> {
    match o {
        Some(v) => seq![v],
        None => Seq::empty(),
    }
}

/// The host-evaluated values of aliases: each alias's env, its user, then its
/// workdir.
pub open spec fn alias_evals(aliases: Seq<(Seq<char>, AliasView)>) -> Seq<Seq<char>>
    decreases aliases.len(),
{
    if aliases.len() == 0 {
        Seq::empty()
    } else {
        let a = aliases.last().1;
        alias_evals(aliases.drop_last()) + evaluated(list_of(a.env), false) + evaluated(one_of(a.user), false)
            + evaluated(one_of(a.workdir), true)
    }
}

/// The host-evaluated values of a profile: env, ports, volumes, user, then
/// those of its aliases.
pub open spec fn profile_evals(p: ProfileView) -> Seq<Seq<char>> {
    evaluated(list_of(p.env), false) + evaluated(list_of(p.ports), false) + evaluated(list_of(p.volumes), true)
        + evaluated(one_of(p.user), false) + alias_evals(p.aliases)
}

/// The host-evaluated values of the profiles, in order.
pub open spec fn profiles_evals(ps: Seq<(Seq<char>, ProfileView)>) -> Seq<Seq<char>>
    decreases ps.len(),
{
    if ps.len() == 0 {
        Seq::empty()
    } else {
        profiles_evals(ps.drop_last()) + profile_evals(ps.last().1)
    }
}

fn push_evaluated(out: &mut Vec<String>, vals: &Vec<String>, any_dollar: bool)
    ensures
        final(out).deep_view() == old(out).deep_view() + evaluated(vals.deep_view(), any_dollar),
{
    let ghost before = out.deep_view();
    for i in 0..vals.len()
        invariant
            out.deep_view() == before + evaluated(vals.deep_view().take(i as int), any_dollar),
    {
        let ghost t = vals.deep_view().take(i + 1);
        assert(t.drop_last() =~= vals.deep_view().take(i as int));
        assert(t.last() == vals@[i as int]@);
        if shell_bound(vals[i].as_str(), any_dollar) {
            let ghost prev = out.deep_view();
            out.push(vals[i].clone());
            assert(out.deep_view() =~= prev.push(vals@[i as int]@));
        }
    }
    assert(vals.deep_view().take(vals.len() as int) =~= vals.deep_view());
}

fn push_evaluated_opt_list(out: &mut Vec<String>, vals: &Option<Vec<String>>, any_dollar: bool)
    ensures
        final(out).deep_view() == old(out).deep_view() + evaluated(list_of(vals.deep_view()), any_dollar),
{
    match vals {
        Some(v) => push_evaluated(out, v, any_dollar),
        None => {
            assert(old(out).deep_view() + evaluated(list_of(vals.deep_view()), any_dollar) =~= old(out).deep_view());
        },
    }
}

fn push_evaluated_opt(out: &mut Vec<String>, val: &Option<String>, any_dollar: bool)
    ensures
        final(out).deep_view() == old(out).deep_view() + evaluated(one_of(val.deep_view()), any_dollar),
{
    let ghost before = out.deep_view();
    match val {
        Some(v) => {
            assert(seq![v@].drop_last() =~= Seq::<Seq<char>>::empty());
            assert(evaluated(Seq::<Seq<char>>::empty(), any_dollar) == Seq::<Seq<char>>::empty());
            assert(evaluated(seq![v@], any_dollar) == if asks_shell(v@, any_dollar) { seq![v@] } else { Seq::<Seq<char>>::empty() });
            if shell_bound(v.as_str(), any_dollar) {
                out.push(v.clone());
                assert(out.deep_view() =~= before + seq![v@]);
            } else {
                assert(before + evaluated(one_of(val.deep_view()), any_dollar) =~= before);
            }
        },
        None => {
            assert(before + evaluated(one_of(val.deep_view()), any_dollar) =~= before);
        },
    }
}

/// Collects every value of `file` that would be shell-evaluated on the host:
/// for each profile its env, ports, volumes and user, and the env, user and
/// workdir of each of its aliases.
pub fn collect_eval_values(file: &ConfigFile, out: &mut Vec<String>)
    ensures
        final(out).deep_view() == old(out).deep_view() + profiles_evals(file@.profiles),
{
    let ghost before = out.deep_view();
    let ghost ps = file@.profiles;
    let n = profile_map_len(&file.profiles);
    for i in 0..n
        invariant
            n == ps.len(),
            ps == file@.profiles,
            out.deep_view() == before + profiles_evals(ps.take(i as int)),
    {
        assert(ps.take(i + 1).drop_last() =~= ps.take(i as int));
        if let Some((_, p)) = profile_map_get_index(&file.profiles, i) {
            let ghost o0 = out.deep_view();
            push_evaluated_opt_list(out, &p.env, false);
            push_evaluated_opt_list(out, &p.ports, false);
            push_evaluated_opt_list(out, &p.volumes, true);
            push_evaluated_opt(out, &p.user, false);
            let ghost o1 = out.deep_view();
            let ghost als = p@.aliases;
            let m = alias_map_len(&p.aliases);
            for j in 0..m
                invariant
                    m == als.len(),
                    als == alias_map_entries_of(p),
                    out.deep_view() == o1 + alias_evals(als.take(j as int)),
            {
                assert(als.take(j + 1).drop_last() =~= als.take(j as int));
                if let Some((_, a)) = alias_map_get_index(&p.aliases, j) {
                    push_evaluated_opt_list(out, &a.env, false);
                    push_evaluated_opt(out, &a.user, false);
                    push_evaluated_opt(out, &a.workdir, true);
                }
            }
            assert(als.take(m as int) =~= als);
            assert(out.deep_view() =~= o0 + profile_evals(p@));
        }
    }
    assert(ps.take(n as int) =~= ps);
}

/// The aliases of a profile, by view.
pub open spec fn alias_map_entries_of(p: &crate::config::types::ProfileSection) -> Seq<(Seq<char>, AliasView)> {
    p@.aliases
}

// ── The hash of what was approved ───────────────────────────────────────────

/// The FNV-1a offset basis.
pub const FNV_OFFSET: u64 = 0xcbf29ce484222325;

/// The FNV-1a prime.
pub const FNV_PRIME: u64 = 0x100000001b3;

/// The 64-bit FNV-1a hash of `data`.
pub open spec fn fnv1a_of(data: Seq<u8>) -> u64
    decreases data.len(),
{
    if data.len() == 0 {
        FNV_OFFSET
    } else {
        (fnv1a_of(data.drop_last()) ^ (data.last() as u64)).wrapping_mul(FNV_PRIME)
    }
}

/// See `fnv1a_of`.
pub fn fnv1a(data: &[u8]) -> (h: u64)
    ensures
        h == fnv1a_of(data@),
{
    let mut h: u64 = FNV_OFFSET;
    for i in 0..data.len()
        invariant
            h == fnv1a_of(data@.take(i as int)),
    {
        assert(data@.take(i + 1).drop_last() =~= data@.take(i as int));
        h ^= data[i] as u64;
        h = h.wrapping_mul(FNV_PRIME);
    }
    assert(data@.take(data.len() as int) =~= data@);
    h
}

/// The text that is hashed: the repository's path, then each value after a
/// NUL character.
pub open spec fn hash_input_of(root: Seq<char>, vals: Seq<Seq<char>>) -> Seq<char>
    decreases vals.len(),
{
    if vals.len() == 0 {
        root
    } else {
        hash_input_of(root, vals.drop_last()) + seq!['\0'] + vals.last()
    }
}

/// See `hash_input_of`.
pub fn hash_input(root: &str, vals: &Vec<String>) -> (r: String)
    ensures
        r@ == hash_input_of(root@, vals.deep_view()),
{
    let mut input = String::from_str(root);
    for i in 0..vals.len()
        invariant
            input@ == hash_input_of(root@, vals.deep_view().take(i as int)),
    {
        assert(vals.deep_view().take(i + 1).drop_last() =~= vals.deep_view().take(i as int));
        push_char(&mut input, '\0');
        input.append(vals[i].as_str());
    }
    assert(vals.deep_view().take(vals.len() as int) =~= vals.deep_view());
    input
}

/// The hex digit for `d` (below 16).
pub open spec fn hex_digit(d: nat) -> char {
    if d < 10 {
        crate::text::digit(d)
    } else if d == 10 {
        'a'
    } else if d == 11 {
        'b'
    } else if d == 12 {
        'c'
    } else if d == 13 {
        'd'
    } else if d == 14 {
        'e'
    } else {
        'f'
    }
}

/// The last `n` hex digits of `h`, zero-padded.
pub open spec fn hex_digits(h: nat, n: nat) -> Seq<char>
    decreases n,
{
    if n == 0 {
        Seq::empty()
    } else {
        hex_digits(h / 16, (n - 1) as nat).push(hex_digit(h % 16))
    }
}

/// A hash as 16 lowercase hex digits, as `{:016x}` writes it.
pub open spec fn hash_tag_of(h: u64) -> Seq<char> {
    hex_digits(h as nat, 16)
}

fn hex_char(d: u64) -> (c: char)
    requires
        d < 16,
    ensures
        c == hex_digit(d as nat),
{
    if d == 0 { '0' } else if d == 1 { '1' } else if d == 2 { '2' } else if d == 3 { '3' }
    else if d == 4 { '4' } else if d == 5 { '5' } else if d == 6 { '6' } else if d == 7 { '7' }
    else if d == 8 { '8' } else if d == 9 { '9' } else if d == 10 { 'a' } else if d == 11 { 'b' }
    else if d == 12 { 'c' } else if d == 13 { 'd' } else if d == 14 { 'e' } else { 'f' }
}

fn hex_of(h: u64, n: u64) -> (r: Vec<char>)
    requires
        n <= 16,
    ensures
        r@ == hex_digits(h as nat, n as nat),
    decreases n,
{
    if n == 0 {
        Vec::new()
    } else {
        let mut v = hex_of(h / 16, n - 1);
        v.push(hex_char(h % 16));
        v
    }
}

/// See `hash_tag_of`.
pub fn hash_tag(h: u64) -> (r: String)
    ensures
        r@ == hash_tag_of(h),
{
    let v = hex_of(h, 16);
    crate::text::string_of(&v)
}

// ── The cache of approvals ──────────────────────────────────────────────────

/// A line without the `\r` that ends it, if any.
pub open spec fn strip_cr(l: Seq<char>) -> Seq<char> {
    if l.len() > 0 && l.last() == '\r' {
        l.drop_last()
    } else {
        l
    }
}

/// The lines of a text as `str::lines` splits it: at each `\n` (a `\r`
/// before it dropped), with no empty line after a final `\n`.
pub open spec fn lines_of(s: Seq<char>) -> Seq<Seq<char>>
    decreases s.len(),
{
    if s.len() == 0 {
        Seq::empty()
    } else if first_index(s, '\n') < 0 {
        seq![s]
    } else {
        let i = first_index(s, '\n');
        proof {
            lemma_first_index(s, '\n');
        }
        seq![strip_cr(s.take(i))] + lines_of(s.skip(i + 1))
    }
}

/// The lines of `s`; see `lines_of`.
pub fn split_lines(s: &str) -> (r: Vec<String>)
    ensures
        r.deep_view() == lines_of(s@),
{
    let cs = chars_of(s);
    let ghost full = s@;
    let mut out: Vec<String> = Vec::new();
    let mut start: usize = 0;
    assert(cs@.skip(0) =~= full);
    assert(out.deep_view() + lines_of(full) =~= lines_of(full));
    while start < cs.len()
        invariant
            cs@ == full,
            start <= cs.len(),
            out.deep_view() + lines_of(cs@.skip(start as int)) == lines_of(full),
        decreases cs.len() - start,
    {
        let ghost rest = cs@.skip(start as int);
        let ghost before = out.deep_view();
        let mut end = start;
        while end < cs.len() && cs[end] != '\n'
            invariant
                start <= end <= cs.len(),
                forall|j: int| start <= j < end ==> cs@[j] != '\n',
            decreases cs.len() - end,
        {
            end += 1;
        }
        proof {
            lemma_first_index(rest, '\n');
            if end < cs.len() {
                assert(rest[end - start] == '\n');
                if first_index(rest, '\n') < end - start {
                    assert(rest[first_index(rest, '\n')] == cs@[start + first_index(rest, '\n')]);
                }
                assert(first_index(rest, '\n') == end - start);
            } else {
                if first_index(rest, '\n') >= 0 {
                    assert(rest[first_index(rest, '\n')] == cs@[start + first_index(rest, '\n')]);
                }
                assert(first_index(rest, '\n') < 0);
            }
        }
        let mut line_end = end;
        if end < cs.len() && end > start && cs[end - 1] == '\r' {
            line_end = end - 1;
        }
        let ghost line = if end < cs.len() { strip_cr(rest.take(end - start)) } else { rest };
        assert(line =~= cs@.subrange(start as int, line_end as int));
        out.push(string_of_range(&cs, start, line_end));
        if end >= cs.len() {
            proof {
                assert(lines_of(rest) =~= seq![line]);
                assert(cs@.skip(cs.len() as int) =~= Seq::<char>::empty());
                assert(out.deep_view() =~= before.push(line));
                assert(out.deep_view() + lines_of(cs@.skip(cs.len() as int)) =~= lines_of(full));
            }
            start = cs.len();
        } else {
            proof {
                assert(rest.skip(end - start + 1) =~= cs@.skip(end + 1));
                assert(lines_of(rest) == seq![line] + lines_of(cs@.skip(end + 1)));
                assert(out.deep_view() =~= before.push(line));
                assert(out.deep_view() + lines_of(cs@.skip(end + 1)) =~= before + lines_of(rest));
            }
            start = end + 1;
        }
    }
    assert(lines_of(cs@.skip(start as int)) =~= Seq::<Seq<char>>::empty());
    assert(out.deep_view() + Seq::<Seq<char>>::empty() =~= out.deep_view());
    out
}

/// The first tab-separated field of a line.
pub open spec fn first_field(l: Seq<char>) -> Seq<char> {
    if first_index(l, '\t') >= 0 {
        l.take(first_index(l, '\t'))
    } else {
        l
    }
}

/// Whether the cache text records the hash: some line's first field is its
/// tag.
pub open spec fn cached_in(content: Seq<char>, h: u64) -> bool {
    exists|i: int| 0 <= i < lines_of(content).len() && first_field(#[trigger] lines_of(content)[i]) == hash_tag_of(h)
}

/// The line that records an approval: the hash's tag, a tab, the
/// repository's path.
pub open spec fn cache_line_of(h: u64, root: Seq<char>) -> Seq<char> {
    hash_tag_of(h) + "\t"@ + root + "\n"@
}

/// See `cache_line_of`.
pub fn cache_line(h: u64, root: &str) -> (r: String)
    ensures
        r@ == cache_line_of(h, root@),
{
    let mut s = hash_tag(h);
    s.append("\t");
    s.append(root);
    s.append("\n");
    s
}

/// Whether the cache text `content` records hash `h`; see `cached_in`.
pub fn cache_contains(content: &str, h: u64) -> (r: bool)
    ensures
        r == cached_in(content@, h),
{
    let tag = hash_tag(h);
    let tv = chars_of(tag.as_str());
    let cs = chars_of(content);
    let mut start: usize = 0;
    let ghost full = content@;
    assert(cs@.skip(0) =~= full);
    while start < cs.len()
        invariant
            cs@ == full,
            full == content@,
            tv@ == hash_tag_of(h),
            start <= cs.len(),
            forall|i: int| 0 <= i < lines_of(full).len() - lines_of(cs@.skip(start as int)).len() ==> first_field(#[trigger] lines_of(full)[i]) != hash_tag_of(h),
            lines_of(cs@.skip(start as int)).len() <= lines_of(full).len(),
            forall|i: int| 0 <= i < lines_of(cs@.skip(start as int)).len() ==> #[trigger] lines_of(cs@.skip(start as int))[i] == lines_of(full)[lines_of(full).len() - lines_of(cs@.skip(start as int)).len() + i],
        decreases cs.len() - start,
    {
        let ghost rest = cs@.skip(start as int);
        // find the end of this line
        let mut end = start;
        while end < cs.len() && cs[end] != '\n'
            invariant
                start <= end <= cs.len(),
                forall|j: int| start <= j < end ==> cs@[j] != '\n',
            decreases cs.len() - end,
        {
            end += 1;
        }
        proof {
            lemma_first_index(rest, '\n');
            if end < cs.len() {
                assert(rest[end - start] == '\n');
                if first_index(rest, '\n') < end - start {
                    assert(rest[first_index(rest, '\n')] == cs@[start + first_index(rest, '\n')]);
                }
                assert(first_index(rest, '\n') == end - start);
            } else {
                if first_index(rest, '\n') >= 0 {
                    assert(rest[first_index(rest, '\n')] == cs@[start + first_index(rest, '\n')]);
                }
                assert(first_index(rest, '\n') < 0);
            }
        }
        // the line, without a `\r` that ends it before `\n`
        let mut line_end = end;
        if end < cs.len() && end > start && cs[end - 1] == '\r' {
            line_end = end - 1;
        }
        // its first field
        let mut f = start;
        while f < line_end && cs[f] != '\t'
            invariant
                start <= f <= line_end,
                line_end <= cs.len(),
                forall|j: int| start <= j < f ==> cs@[j] != '\t',
            decreases line_end - f,
        {
            f += 1;
        }
        let ghost line = if end < cs.len() { strip_cr(rest.take(end - start)) } else { rest };
        proof {
            assert(line =~= cs@.subrange(start as int, line_end as int));
            lemma_first_index(line, '\t');
            if f < line_end {
                assert(line[f - start] == '\t');
                if first_index(line, '\t') < f - start {
                    assert(line[first_index(line, '\t')] == cs@[start + first_index(line, '\t')]);
                }
            } else {
                if first_index(line, '\t') >= 0 {
                    assert(line[first_index(line, '\t')] == cs@[start + first_index(line, '\t')]);
                }
            }
            assert(first_field(line) =~= cs@.subrange(start as int, f as int));
        }
        // compare with the tag
        let mut same = f - start == tv.len();
        if !same {
            assert(cs@.subrange(start as int, f as int).len() != tv@.len());
        }
        if same {
            let mut k: usize = 0;
            while k < tv.len()
                invariant
                    f - start == tv.len(),
                    start <= f <= cs.len(),
                    k <= tv.len(),
                    same ==> forall|m: int| 0 <= m < k ==> cs@[start + m] == tv@[m],
                    !same ==> cs@.subrange(start as int, f as int) != tv@,
                decreases tv.len() - k,
            {
                if cs[start + k] != tv[k] {
                    if same {
                        assert(cs@.subrange(start as int, f as int)[k as int] != tv@[k as int]);
                    }
                    same = false;
                }
                k += 1;
            }
            if same {
                assert(cs@.subrange(start as int, f as int) =~= tv@);
            }
        }
        proof {
            let ls = lines_of(rest);
            assert(ls[0] == line);
            let idx = lines_of(full).len() - ls.len();
            assert(lines_of(full)[idx] == line);
            assert(same <==> first_field(line) == hash_tag_of(h));
            assert(ls.len() >= 1);
            assert(0 <= idx < lines_of(full).len());
            if same {
                assert(first_field(lines_of(full)[idx]) == hash_tag_of(h));
                assert(cached_in(full, h));
            }
        }
        if same {
            return true;
        }
        if end >= cs.len() {
            proof {
                let ls = lines_of(rest);
                assert(ls.len() == 1);
                assert forall|i: int| 0 <= i < lines_of(full).len() implies first_field(#[trigger] lines_of(full)[i]) != hash_tag_of(h) by {
                    if i == lines_of(full).len() - 1 {
                        assert(lines_of(full)[i] == ls[0]);
                    }
                }
                assert(!cached_in(full, h));
            }
            return false;
        }
        proof {
            let ls = lines_of(rest);
            assert(rest.skip(end - start + 1) =~= cs@.skip(end + 1));
            assert(ls == seq![line] + lines_of(cs@.skip(end + 1)));
            assert forall|i: int| 0 <= i < lines_of(cs@.skip(end + 1)).len() implies #[trigger] lines_of(cs@.skip(end + 1))[i] == lines_of(full)[lines_of(full).len() - lines_of(cs@.skip(end + 1)).len() + i] by {
                assert(lines_of(cs@.skip(end + 1))[i] == ls[i + 1]);
            }
        }
        start = end + 1;
    }
    proof {
        assert(cs@.skip(start as int).len() == 0);
        assert(lines_of(cs@.skip(start as int)).len() == 0);
        assert(!cached_in(full, h));
    }
    false
}

// ── The trust decision ──────────────────────────────────────────────────────

/// The host-evaluated values of the repo file, then of the project file.
pub open spec fn repo_evals(repo: ConfigView, project: Option<ConfigView>) -> Seq<Seq<char>> {
    profiles_evals(repo.profiles) + match project {
        Some(p) => profiles_evals(p.profiles),
        None => Seq::empty(),
    }
}

/// What approving a repository is about: the values it would evaluate on the
/// host, and the hash of its path with those values.
pub struct TrustRequest {
    pub vals: Vec<String>,
    pub hash: u64,
}

/// Whether the repo and project files need approval, and for what: nothing
/// when they evaluate nothing on the host; else the values, and the FNV-1a
/// hash of the UTF-8 of `hash_input_of`, so that a moved repository or an
/// edited value asks again.
pub fn trust_request(git_root: &str, repo: &ConfigFile, project: Option<&ConfigFile>) -> (r: Option<TrustRequest>)
    ensures
        match r {
            None => repo_evals(repo@, crate::config::resolve::opt_file(project)).len() == 0,
            Some(t) => {
                let vals = repo_evals(repo@, crate::config::resolve::opt_file(project));
                &&& vals.len() > 0
                &&& t.vals.deep_view() == vals
                &&& t.hash == fnv1a_of(vstd::utf8::encode_utf8(hash_input_of(git_root@, vals)))
            },
        },
{
    let mut vals: Vec<String> = Vec::new();
    assert(vals.deep_view() =~= Seq::<Seq<char>>::empty());
    collect_eval_values(repo, &mut vals);
    if let Some(p) = project {
        collect_eval_values(p, &mut vals);
    }
    proof {
        if project is None {
            assert(repo_evals(repo@, crate::config::resolve::opt_file(project)) =~= profiles_evals(repo@.profiles));
        }
        assert(vals.deep_view() =~= repo_evals(repo@, crate::config::resolve::opt_file(project)));
    }
    if vals.len() == 0 {
        return None;
    }
    let input = hash_input(git_root, &vals);
    let hash = fnv1a(input.as_str().as_bytes());
    Some(TrustRequest { vals, hash })
}

fn lower_char(c: char) -> (r: char)
    ensures
        r == (if 'A' <= c && c <= 'Z' { (((c as u8) + 32) as u8) as char } else { c }),
{
    if 'A' <= c && c <= 'Z' {
        let u: u8 = (c as u8) + 32;
        u as char
    } else {
        c
    }
}

/// Whether an answer approves: `y` or `yes`, in any case, around white space.
pub open spec fn approves(answer: Seq<char>) -> bool {
    ascii_lower(trim(answer)) == "y"@ || ascii_lower(trim(answer)) == "yes"@
}

/// See `approves`.
pub fn is_affirmative(answer: &str) -> (r: bool)
    ensures
        r == approves(answer@),
{
    let t = trim_str(answer);
    let cs = chars_of(t.as_str());
    let mut lower = String::new();
    for i in 0..cs.len()
        invariant
            cs@ == trim(answer@),
            lower@ == ascii_lower(cs@.take(i as int)),
    {
        push_char(&mut lower, lower_char(cs[i]));
        assert(ascii_lower(cs@.take(i + 1)) =~= ascii_lower(cs@.take(i as int)).push(lower_char_spec(cs@[i as int])));
    }
    assert(cs@.take(cs.len() as int) =~= cs@);
    crate::text::str_eq(lower.as_str(), "y") || crate::text::str_eq(lower.as_str(), "yes")
}

/// The mapping of `ascii_lower` on one character.
pub open spec fn lower_char_spec(c: char) -> char {
    if 'A' <= c && c <= 'Z' { (((c as u8) + 32) as u8) as char } else { c }
}

/// The error when approval cannot be asked for (no terminal): where the
/// config is and what it would run.
pub open spec fn untrusted_text(root: Seq<char>, vals: Seq<Seq<char>>) -> Seq<char> {
    "untrusted repo config at "@ + root + " contains values evaluated on the host:\n    "@ + join(
        vals,
        "\n    "@,
    ) + "\nrun shrike interactively once to approve it, or remove these values"@
}

/// See `untrusted_text`.
pub fn untrusted_message(root: &str, vals: &Vec<String>) -> (r: String)
    ensures
        r@ == untrusted_text(root@, vals.deep_view()),
{
    let mut s = String::from_str("untrusted repo config at ");
    s.append(root);
    s.append(" contains values evaluated on the host:\n    ");
    s.append(join_all(vals, "\n    ").as_str());
    s.append("\nrun shrike interactively once to approve it, or remove these values");
    s
}

/// The lines that ask for approval: what the config at `root` would run on
/// the host, one value per line.
pub open spec fn trust_prompt_text(root: Seq<char>, vals: Seq<Seq<char>>, c: ColorsView) -> Seq<Seq<char>> {
    seq![
        concat(seq!["\n "@, c.rd, c.b, "⚠  trust check:"@, c.r, "  repo config at "@, c.yl, root, c.r, " evaluates these on the "@, c.b, "host"@, c.r, ":"@]),
    ] + vals.map_values(|v: Seq<char>| concat(seq!["    "@, c.dim, v, c.r]))
}

/// See `trust_prompt_text`.
pub fn trust_prompt_lines(root: &str, vals: &Vec<String>, c: &Colors) -> (r: Vec<String>)
    ensures
        r.deep_view() == trust_prompt_text(root@, vals.deep_view(), c@),
{
    let mut lines: Vec<String> = Vec::new();
    let first = glue(&["\n ", c.rd, c.b, "⚠  trust check:", c.r, "  repo config at ", c.yl, root, c.r, " evaluates these on the ", c.b, "host", c.r, ":"]);
    assert(strs_view(seq!["\n ", c.rd, c.b, "⚠  trust check:", c.r, "  repo config at ", c.yl, root, c.r, " evaluates these on the ", c.b, "host", c.r, ":"]) =~= seq!["\n "@, c.rd@, c.b@, "⚠  trust check:"@, c.r@, "  repo config at "@, c.yl@, root@, c.r@, " evaluates these on the "@, c.b@, "host"@, c.r@, ":"@]);
    lines.push(first);
    let ghost f = lines.deep_view();
    for i in 0..vals.len()
        invariant
            lines.deep_view() == f + vals.deep_view().take(i as int).map_values(|v: Seq<char>| concat(seq!["    "@, c.dim@, v, c.r@])),
    {
        let v = vals[i].as_str();
        let line = glue(&["    ", c.dim, v, c.r]);
        assert(strs_view(seq!["    ", c.dim, v, c.r]) =~= seq!["    "@, c.dim@, v@, c.r@]);
        let ghost prev = lines.deep_view();
        lines.push(line);
        assert(vals.deep_view().take(i + 1).map_values(|v: Seq<char>| concat(seq!["    "@, c.dim@, v, c.r@])) =~= vals.deep_view().take(i as int).map_values(|v: Seq<char>| concat(seq!["    "@, c.dim@, v, c.r@])).push(concat(seq!["    "@, c.dim@, vals@[i as int]@, c.r@])));
        assert(lines.deep_view() =~= prev.push(concat(seq!["    "@, c.dim@, vals@[i as int]@, c.r@])));
    }
    assert(vals.deep_view().take(vals.len() as int) =~= vals.deep_view());
    lines
}

/// The question that follows the prompt lines (no newline after it).
pub open spec fn trust_question_text(c: ColorsView) -> Seq<char> {
    concat(seq![" "@, c.b, "Trust this repo and run them on the host? [y/N]"@, c.r, " "@])
}

/// See `trust_question_text`.
pub fn trust_question(c: &Colors) -> (r: String)
    ensures
        r@ == trust_question_text(c@),
{
    let r = glue(&[" ", c.b, "Trust this repo and run them on the host? [y/N]", c.r, " "]);
    assert(strs_view(seq![" ", c.b, "Trust this repo and run them on the host? [y/N]", c.r, " "]) =~= seq![" "@, c.b@, "Trust this repo and run them on the host? [y/N]"@, c.r@, " "@]);
    r
}

// ── Law of the cache ────────────────────────────────────────────────────────

proof fn lemma_lines_append(c: Seq<char>, x: Seq<char>)
    requires
        c.len() == 0 || c.last() == '\n',
    ensures
        lines_of(c + x) == lines_of(c) + lines_of(x),
    decreases c.len(),
{
    if c.len() == 0 {
        assert(c + x =~= x);
        assert(lines_of(c) + lines_of(x) =~= lines_of(x));
    } else {
        let s = c + x;
        lemma_first_index(c, '\n');
        lemma_first_index(s, '\n');
        assert(c[c.len() - 1] == '\n');
        let i = first_index(c, '\n');
        assert(i >= 0);
        assert forall|j: int| 0 <= j < i implies s[j] != '\n' by {
            assert(s[j] == c[j]);
        }
        assert(s[i] == '\n');
        if first_index(s, '\n') != i {
            if first_index(s, '\n') < i {
                assert(s[first_index(s, '\n')] == c[first_index(s, '\n')]);
            }
        }
        assert(first_index(s, '\n') == i);
        assert(s.take(i) =~= c.take(i));
        assert(s.skip(i + 1) =~= c.skip(i + 1) + x);
        let rest = c.skip(i + 1);
        if rest.len() > 0 {
            assert(rest.last() == c.last());
        }
        lemma_lines_append(rest, x);
        assert(lines_of(s) =~= lines_of(c) + lines_of(x));
    }
}

/// Once the line for a hash is appended to the cache text (which, as the
/// cache only ever holds whole lines, is empty or ends with a newline), the
/// cache records that hash.
pub proof fn law_store_then_cached(content: Seq<char>, h: u64, root: Seq<char>)
    requires
        content.len() == 0 || content.last() == '\n',
    ensures
        cached_in(content + cache_line_of(h, root), h),
{
    let line = cache_line_of(h, root);
    lemma_lines_append(content, line);
    let tag = hash_tag_of(h);
    reveal_strlit("\t");
    reveal_strlit("\n");
    assert(tag.len() == 16) by {
        lemma_hex_len(h as nat, 16);
    }
    assert forall|j: int| 0 <= j < 16 implies tag[j] != '\t' && tag[j] != '\n' by {
        lemma_hex_chars(h as nat, 16, j);
    }
    lemma_first_index(line, '\n');
    lemma_first_index(line, '\t');
    let n = first_index(line, '\n');
    assert(n >= 0) by {
        assert(line[line.len() - 1] == '\n');
    }
    assert(line[16] == '\t');
    assert(first_index(line, '\t') == 16) by {
        if first_index(line, '\t') < 16 && first_index(line, '\t') >= 0 {
            assert(line[first_index(line, '\t')] == tag[first_index(line, '\t')]);
        }
    }
    assert(n > 16) by {
        if n <= 16 {
            if n < 16 {
                assert(line[n] == tag[n]);
            }
        }
    }
    let l0 = strip_cr(line.take(n));
    assert(l0.len() >= 17);
    assert(l0[16] == '\t');
    lemma_first_index(l0, '\t');
    assert(first_index(l0, '\t') == 16) by {
        if first_index(l0, '\t') < 16 && first_index(l0, '\t') >= 0 {
            assert(l0[first_index(l0, '\t')] == tag[first_index(l0, '\t')]);
        }
    }
    assert(first_field(l0) =~= tag);
    assert(lines_of(line)[0] == l0);
    let k = lines_of(content).len() as int;
    assert((lines_of(content) + lines_of(line))[k] == l0);
}

proof fn lemma_hex_len(h: nat, n: nat)
    ensures
        hex_digits(h, n).len() == n,
    decreases n,
{
    if n > 0 {
        lemma_hex_len(h / 16, (n - 1) as nat);
    }
}

proof fn lemma_hex_chars(h: nat, n: nat, j: int)
    requires
        0 <= j < n,
    ensures
        hex_digits(h, n)[j] != '\t' && hex_digits(h, n)[j] != '\n',
    decreases n,
{
    lemma_hex_len(h / 16, (n - 1) as nat);
    if j < n - 1 {
        lemma_hex_chars(h / 16, (n - 1) as nat, j);
    }
}

// ── The trust approval ──────────────────────────────────────────────────────────

/// Whether a cache read answered that hash `h` was approved.
pub open spec fn cache_hit(cache: Option<String>, h: u64) -> bool {
    match cache {
        Some(c) => cached_in(c@, h),
        None => false,
    }
}

/// Whether `r` is the outcome once the user was asked: an answer that could
/// not be read gives its error; an approving answer stores the approval (and
/// what the store answers is the outcome); any other answer refuses.
pub open spec fn asked_outcome<S: Fn(&str) -> Result<(), String>>(
    store: S,
    h: u64,
    root: Seq<char>,
    ans: Result<String, String>,
    r: Result<(), String>,
) -> bool {
    match ans {
        Err(e) => r matches Err(m) && m@ == e@,
        Ok(a) => if approves(a@) {
            exists|l: &str, sr: Result<(), String>|
                l@ == cache_line_of(h, root) && call_ensures(store, (l,), sr) && r == sr
        } else {
            r matches Err(m) && m@ == "repo config not trusted; aborting"@
        },
    }
}

/// Whether `r` is the outcome when the user is asked: `ask` gets the prompt
/// lines and the question, and its answer decides (see `asked_outcome`).
pub open spec fn prompted_outcome<
    A: Fn(&Vec<String>, &str) -> Result<String, String>,
    S: Fn(&str) -> Result<(), String>,
>(
    ask: A,
    store: S,
    root: Seq<char>,
    vals: Seq<Seq<char>>,
    c: ColorsView,
    h: u64,
    r: Result<(), String>,
) -> bool {
    exists|l: &Vec<String>, q: &str, ans: Result<String, String>|
        l.deep_view() == trust_prompt_text(root, vals, c) && q@ == trust_question_text(c) && call_ensures(
            ask,
            (l, q),
            ans,
        ) && asked_outcome(store, h, root, ans, r)
}

/// Whether `r` is the outcome once the cache was read: a recorded approval
/// passes; without a terminal the answer is the error `untrusted_text`; else
/// the user is asked.
pub open spec fn outcome_after_read<
    A: Fn(&Vec<String>, &str) -> Result<String, String>,
    S: Fn(&str) -> Result<(), String>,
>(
    ask: A,
    store: S,
    root: Seq<char>,
    vals: Seq<Seq<char>>,
    c: ColorsView,
    h: u64,
    stdin_is_tty: bool,
    cache: Option<String>,
    r: Result<(), String>,
) -> bool {
    if cache_hit(cache, h) {
        r is Ok
    } else if !stdin_is_tty {
        r matches Err(m) && m@ == untrusted_text(root, vals)
    } else {
        prompted_outcome(ask, store, root, vals, c, h, r)
    }
}

fn prompt_and_store<A: Fn(&Vec<String>, &str) -> Result<String, String>, S: Fn(&str) -> Result<(), String>>(
    git_root: &str,
    vals: &Vec<String>,
    hash: u64,
    c: &Colors,
    ask: &A,
    store: &S,
) -> (r: Result<(), String>)
    requires
        forall|l: &Vec<String>, q: &str| call_requires(ask, (l, q)),
        forall|l: &str| call_requires(store, (l,)),
    ensures
        prompted_outcome(ask, store, git_root@, vals.deep_view(), c@, hash, r),
{
    let lines = trust_prompt_lines(git_root, vals, c);
    let question = trust_question(c);
    let qs = question.as_str();
    let ans = ask(&lines, qs);
    let r = match &ans {
        Err(e) => Err(e.clone()),
        Ok(a) => {
            if is_affirmative(a.as_str()) {
                let line = cache_line(hash, git_root);
                let ls = line.as_str();
                let sr = store(ls);
                proof {
                    assert(call_ensures(store, (ls,), sr));
                }
                sr
            } else {
                Err(String::from_str("repo config not trusted; aborting"))
            }
        },
    };
    proof {
        assert(call_ensures(ask, (&lines, qs), ans));
        assert(asked_outcome(store, hash, git_root@, ans, r));
    }
    r
}

/// Makes sure that the values the repo and project files evaluate on the
/// host are approved: nothing to approve passes; otherwise the cache is read
/// (`read_cache` gives its text, `None` when there is none) and the outcome
/// is as `outcome_after_read` says, with the hash of `trust_request`.
/// `stdin_is_tty` tells whether standard input is a terminal, `ask` shows
/// the prompt and reads the answer, and `store` appends a line to the cache.
pub fn ensure_repo_trusted<
    C: Fn() -> Option<String>,
    A: Fn(&Vec<String>, &str) -> Result<String, String>,
    S: Fn(&str) -> Result<(), String>,
>(
    git_root: &str,
    repo: &ConfigFile,
    project: Option<&ConfigFile>,
    stdin_is_tty: bool,
    c: &Colors,
    read_cache: &C,
    ask: &A,
    store: &S,
) -> (r: Result<(), String>)
    requires
        call_requires(read_cache, ()),
        forall|l: &Vec<String>, q: &str| call_requires(ask, (l, q)),
        forall|l: &str| call_requires(store, (l,)),
    ensures
        repo_evals(repo@, crate::config::resolve::opt_file(project)).len() == 0 ==> r is Ok,
        repo_evals(repo@, crate::config::resolve::opt_file(project)).len() > 0 ==> exists|cache: Option<String>|
            call_ensures(read_cache, (), cache) && outcome_after_read(
                ask,
                store,
                git_root@,
                repo_evals(repo@, crate::config::resolve::opt_file(project)),
                c@,
                fnv1a_of(vstd::utf8::encode_utf8(hash_input_of(git_root@, repo_evals(repo@, crate::config::resolve::opt_file(project))))),
                stdin_is_tty,
                cache,
                r,
            ),
{
    let req = match trust_request(git_root, repo, project) {
        Some(t) => t,
        None => return Ok(()),
    };
    let cache = read_cache();
    proof {
        assert(call_ensures(read_cache, (), cache));
    }
    let hit = match &cache {
        Some(content) => cache_contains(content.as_str(), req.hash),
        None => false,
    };
    let r = if hit {
        Ok(())
    } else if !stdin_is_tty {
        Err(untrusted_message(git_root, &req.vals))
    } else {
        prompt_and_store(git_root, &req.vals, req.hash, c, ask, store)
    };
    proof {
        let vals = repo_evals(repo@, crate::config::resolve::opt_file(project));
        let h = fnv1a_of(vstd::utf8::encode_utf8(hash_input_of(git_root@, vals)));
        assert(req.vals.deep_view() == vals);
        assert(req.hash == h);
        assert(cache_hit(cache, h) == hit);
        assert(outcome_after_read(ask, store, git_root@, vals, c@, h, stdin_is_tty, cache, r));
    }
    r
}

// ── Law of what is approved ─────────────────────────────────────────────────

/// Whether an env spec can hand its value to the shell: a `KEY=VAL` spec
/// (after trimming) whose value asks for substitution.
pub open spec fn spec_runs(spec: Seq<char>) -> bool {
    first_index(trim(spec), '=') >= 0 && needs_eval(value_part(trim(spec)))
}

/// Whether alias `a` has `v` run by the shell on the host: an env spec that
/// can hand its value to the shell, a user that asks for substitution, or a
/// workdir that asks for expansion.
pub open spec fn alias_hands(a: AliasView, v: Seq<char>) -> bool {
    ||| list_of(a.env).contains(v) && spec_runs(v)
    ||| a.user == Some(v) && needs_eval(v)
    ||| a.workdir == Some(v) && needs_env_eval(v)
}

/// Whether profile `p` has `v` run by the shell on the host: as for
/// `alias_hands` for its env, user and aliases, and a port that asks for
/// substitution or a volume that asks for expansion.
pub open spec fn profile_hands(p: ProfileView, v: Seq<char>) -> bool {
    ||| list_of(p.env).contains(v) && spec_runs(v)
    ||| list_of(p.ports).contains(v) && needs_eval(v)
    ||| list_of(p.volumes).contains(v) && needs_env_eval(v)
    ||| p.user == Some(v) && needs_eval(v)
    ||| exists|j: int| 0 <= j < p.aliases.len() && alias_hands(#[trigger] p.aliases[j].1, v)
}

/// Whether some profile of file `f` has `v` run by the shell on the host.
pub open spec fn file_hands(f: ConfigView, v: Seq<char>) -> bool {
    exists|i: int| 0 <= i < f.profiles.len() && profile_hands(#[trigger] f.profiles[i].1, v)
}

proof fn lemma_spec_runs_asks(spec: Seq<char>)
    requires
        spec_runs(spec),
    ensures
        needs_eval(spec),
{
    let t = trim(spec);
    lemma_first_index(t, '=');
    let f = first_index(t, '=');
    let vp = value_part(t);
    assert(vp == t.subrange(f + 1, t.len() as int));
    if has_sub(vp, "$("@) {
        crate::text::lemma_has_sub_piece(t, f + 1, t.len() as int, "$("@);
        crate::text::lemma_has_sub_trim(spec, "$("@);
    } else if has_sub(vp, "`"@) {
        crate::text::lemma_has_sub_piece(t, f + 1, t.len() as int, "`"@);
        crate::text::lemma_has_sub_trim(spec, "`"@);
    } else {
        crate::text::lemma_has_sub_piece(t, f + 1, t.len() as int, "${"@);
        crate::text::lemma_has_sub_trim(spec, "${"@);
    }
}

proof fn lemma_evaluated_has(vals: Seq<Seq<char>>, d: bool, v: Seq<char>)
    requires
        vals.contains(v),
        asks_shell(v, d),
    ensures
        evaluated(vals, d).contains(v),
    decreases vals.len(),
{
    let k = choose|k: int| 0 <= k < vals.len() && vals[k] == v;
    if k == vals.len() - 1 {
        assert(evaluated(vals, d).last() == v);
    } else {
        assert(vals.drop_last()[k] == v);
        lemma_evaluated_has(vals.drop_last(), d, v);
        let e = evaluated(vals.drop_last(), d);
        let k2 = choose|k2: int| 0 <= k2 < e.len() && e[k2] == v;
        if asks_shell(vals.last(), d) {
            assert(evaluated(vals, d)[k2] == v);
        }
    }
}

proof fn lemma_contains_left(a: Seq<Seq<char>>, b: Seq<Seq<char>>, v: Seq<char>)
    requires
        a.contains(v),
    ensures
        (a + b).contains(v),
{
    let k = choose|k: int| 0 <= k < a.len() && a[k] == v;
    assert((a + b)[k] == v);
}

proof fn lemma_contains_right(a: Seq<Seq<char>>, b: Seq<Seq<char>>, v: Seq<char>)
    requires
        b.contains(v),
    ensures
        (a + b).contains(v),
{
    let k = choose|k: int| 0 <= k < b.len() && b[k] == v;
    assert((a + b)[a.len() + k] == v);
}

proof fn lemma_alias_evals_has(als: Seq<(Seq<char>, AliasView)>, j: int, v: Seq<char>)
    requires
        0 <= j < als.len(),
        alias_hands(als[j].1, v),
    ensures
        alias_evals(als).contains(v),
    decreases als.len(),
{
    let a = als.last().1;
    let rest = alias_evals(als.drop_last());
    let pe = evaluated(list_of(a.env), false);
    let pu = evaluated(one_of(a.user), false);
    let pw = evaluated(one_of(a.workdir), true);
    if j < als.len() - 1 {
        assert(als.drop_last()[j] == als[j]);
        lemma_alias_evals_has(als.drop_last(), j, v);
        lemma_contains_left(rest, pe, v);
        lemma_contains_left(rest + pe, pu, v);
        lemma_contains_left(rest + pe + pu, pw, v);
    } else {
        if list_of(a.env).contains(v) && spec_runs(v) {
            lemma_spec_runs_asks(v);
            lemma_evaluated_has(list_of(a.env), false, v);
            lemma_contains_right(rest, pe, v);
            lemma_contains_left(rest + pe, pu, v);
            lemma_contains_left(rest + pe + pu, pw, v);
        } else if a.user == Some(v) && needs_eval(v) {
            assert(one_of(a.user)[0] == v);
            lemma_evaluated_has(one_of(a.user), false, v);
            lemma_contains_right(rest + pe, pu, v);
            lemma_contains_left(rest + pe + pu, pw, v);
        } else {
            assert(one_of(a.workdir)[0] == v);
            lemma_evaluated_has(one_of(a.workdir), true, v);
            lemma_contains_right(rest + pe + pu, pw, v);
        }
    }
}

proof fn lemma_profile_evals_has(p: ProfileView, v: Seq<char>)
    requires
        profile_hands(p, v),
    ensures
        profile_evals(p).contains(v),
{
    let e = evaluated(list_of(p.env), false);
    let po = evaluated(list_of(p.ports), false);
    let vo = evaluated(list_of(p.volumes), true);
    let u = evaluated(one_of(p.user), false);
    let al = alias_evals(p.aliases);
    if list_of(p.env).contains(v) && spec_runs(v) {
        lemma_spec_runs_asks(v);
        lemma_evaluated_has(list_of(p.env), false, v);
        lemma_contains_left(e, po, v);
        lemma_contains_left(e + po, vo, v);
        lemma_contains_left(e + po + vo, u, v);
        lemma_contains_left(e + po + vo + u, al, v);
    } else if list_of(p.ports).contains(v) && needs_eval(v) {
        lemma_evaluated_has(list_of(p.ports), false, v);
        lemma_contains_right(e, po, v);
        lemma_contains_left(e + po, vo, v);
        lemma_contains_left(e + po + vo, u, v);
        lemma_contains_left(e + po + vo + u, al, v);
    } else if list_of(p.volumes).contains(v) && needs_env_eval(v) {
        lemma_evaluated_has(list_of(p.volumes), true, v);
        lemma_contains_right(e + po, vo, v);
        lemma_contains_left(e + po + vo, u, v);
        lemma_contains_left(e + po + vo + u, al, v);
    } else if p.user == Some(v) && needs_eval(v) {
        assert(one_of(p.user)[0] == v);
        lemma_evaluated_has(one_of(p.user), false, v);
        lemma_contains_right(e + po + vo, u, v);
        lemma_contains_left(e + po + vo + u, al, v);
    } else {
        let j = choose|j: int| 0 <= j < p.aliases.len() && alias_hands(#[trigger] p.aliases[j].1, v);
        lemma_alias_evals_has(p.aliases, j, v);
        lemma_contains_right(e + po + vo + u, al, v);
    }
}

proof fn lemma_profiles_evals_has(ps: Seq<(Seq<char>, ProfileView)>, i: int, v: Seq<char>)
    requires
        0 <= i < ps.len(),
        profile_hands(ps[i].1, v),
    ensures
        profiles_evals(ps).contains(v),
    decreases ps.len(),
{
    if i < ps.len() - 1 {
        assert(ps.drop_last()[i] == ps[i]);
        lemma_profiles_evals_has(ps.drop_last(), i, v);
        lemma_contains_left(profiles_evals(ps.drop_last()), profile_evals(ps.last().1), v);
    } else {
        lemma_profile_evals_has(ps.last().1, v);
        lemma_contains_right(profiles_evals(ps.drop_last()), profile_evals(ps.last().1), v);
    }
}

/// Nothing of the repo or project files runs on the host unapproved: every
/// value that a profile of either hands to the shell on the host (an env
/// spec whose value asks for substitution, a port or user that does, a
/// volume or alias workdir that asks for expansion, and the same of its
/// aliases) is among the values that `trust_request` asks approval for.
/// (`eval_value` and `eval_value_with_env` run the shell on exactly the
/// values that `needs_eval` and `needs_env_eval` pick.)
pub proof fn law_trust_covers_host_values(repo: ConfigView, project: Option<ConfigView>, v: Seq<char>)
    requires
        file_hands(repo, v) || (project is Some && file_hands(project.unwrap(), v)),
    ensures
        repo_evals(repo, project).contains(v),
{
    let tail: Seq<Seq<char>> = match project {
        Some(p) => profiles_evals(p.profiles),
        None => Seq::empty(),
    };
    if file_hands(repo, v) {
        let i = choose|i: int| 0 <= i < repo.profiles.len() && profile_hands(#[trigger] repo.profiles[i].1, v);
        lemma_profiles_evals_has(repo.profiles, i, v);
        lemma_contains_left(profiles_evals(repo.profiles), tail, v);
    } else {
        let p = project.unwrap();
        let i = choose|i: int| 0 <= i < p.profiles.len() && profile_hands(#[trigger] p.profiles[i].1, v);
        lemma_profiles_evals_has(p.profiles, i, v);
        lemma_contains_right(profiles_evals(repo.profiles), tail, v);
    }
}

} // verus!
