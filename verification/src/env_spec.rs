use vstd::prelude::*;

use crate::text::{
    cat, chars_of, contains_str, find_char, first_index, has_sub, lemma_first_index, str_eq,
    string_of_range, trim, trim_newlines, trim_newlines_str, trim_str, cat3,
};
use vstd::string::StringExecFns;
use crate::maps::{insert_all, lookup, lookup_last, text_entries, text_map_get_index, text_map_insert, text_map_len, text_map_new};
use crate::text::copy_string;

verus! {

/// Whether a value asks the shell for substitution: `$(`, a backquote or `${`.
pub open spec fn needs_eval(s: Seq<char>) -> bool {
    has_sub(s, "$("@) || has_sub(s, "`"@) || has_sub(s, "${"@)
}

/// See `needs_eval`.
pub fn has_eval(s: &str) -> (r: bool)
    ensures
        r == needs_eval(s@),
{
    contains_str(s, "$(") || contains_str(s, "`") || contains_str(s, "${")
}

/// The script that evaluates `raw` inside double quotes.
pub open spec fn eval_script(raw: Seq<char>) -> Seq<char> {
    "printf '%s' \""@ + raw + "\""@
}

/// The value that a shell run leaves: its output without trailing newlines,
/// or `raw` itself when the shell could not be run.
pub open spec fn shell_value(raw: Seq<char>, out: Option<Seq<char>>) -> Seq<char> {
    match out {
        Some(o) => trim_newlines(o),
        None => raw,
    }
}

/// Whether `v` is a value that `raw` can evaluate to with the shell `run_sh`
/// (which runs `sh -c` on its argument and gives its output).
pub open spec fn evaluates_to<F: Fn(&str) -> Option<String>>(run_sh: F, raw: Seq<char>, v: Seq<char>) -> bool {
    if needs_eval(raw) {
        exists|s: &str, out: Option<String>|
            s@ == eval_script(raw) && call_ensures(run_sh, (s,), out) && v == shell_value(
                raw,
                out.deep_view(),
            )
    } else {
        v == raw
    }
}

/// Evaluates a value: when it asks for substitution, `run_sh` runs
/// `printf '%s' "<raw>"` and the output (trailing newlines cut) is the value.
pub fn eval_value<F: Fn(&str) -> Option<String>>(raw: &str, run_sh: F) -> (r: String)
    requires
        forall|s: &str| call_requires(run_sh, (s,)),
    ensures
        evaluates_to(run_sh, raw@, r@),
{
    if has_eval(raw) {
        let script = cat(&cat("printf '%s' \"", raw), "\"");
        let out = run_sh(script.as_str());
        let v = match &out {
            Some(o) => trim_newlines_str(o.as_str()),
            None => raw.to_string(),
        };
        assert(v@ == shell_value(raw@, out.deep_view()));
        v
    } else {
        raw.to_string()
    }
}


/// Whether a value asks for expansion before it is used as a volume: any `$`
/// or backquote.
pub open spec fn needs_env_eval(s: Seq<char>) -> bool {
    needs_eval(s) || has_sub(s, "$"@)
}

/// The script that expands `raw` with the extra environment: inside double
/// quotes, as for `eval_script`, so that spaces in what it gives are kept.
pub open spec fn env_eval_script(raw: Seq<char>) -> Seq<char> {
    "printf '%s' \""@ + raw + "\""@
}

/// Whether `v` is a value that `raw` can expand to with the shell `run_sh`,
/// which runs `sh -c` on its first argument with the second as extra
/// environment.
pub open spec fn env_evaluates_to<F: Fn(&str, &[(String, String)]) -> Option<String>>(
    run_sh: F,
    raw: Seq<char>,
    extra: &[(String, String)],
    v: Seq<char>,
) -> bool {
    if needs_env_eval(raw) {
        exists|s: &str, out: Option<String>|
            s@ == env_eval_script(raw) && call_ensures(run_sh, (s, extra), out) && v
                == shell_value(raw, out.deep_view())
    } else {
        v == raw
    }
}

/// Like `eval_value`, but for any `$`, and with `extra` added to the shell's
/// environment.
pub fn eval_value_with_env<F: Fn(&str, &[(String, String)]) -> Option<String>>(
    raw: &str,
    extra: &[(String, String)],
    run_sh: F,
) -> (r: String)
    requires
        forall|s: &str, e: &[(String, String)]| call_requires(run_sh, (s, e)),
    ensures
        env_evaluates_to(run_sh, raw@, extra, r@),
{
    if has_eval(raw) || contains_str(raw, "$") {
        let script = cat3("printf '%s' \"", raw, "\"");
        let out = run_sh(script.as_str(), extra);
        let v = match &out {
            Some(o) => trim_newlines_str(o.as_str()),
            None => raw.to_string(),
        };
        assert(v@ == shell_value(raw@, out.deep_view()));
        v
    } else {
        raw.to_string()
    }
}

// ── `-e KEY=VAL` flags ──────────────────────────────────────────────────────

/// The part of `kv` before its first `=`.
pub open spec fn key_part(kv: Seq<char>) -> Seq<char> {
    kv.subrange(0, first_index(kv, '='))
}

/// The part of `kv` after its first `=`.
pub open spec fn value_part(kv: Seq<char>) -> Seq<char> {
    kv.subrange(first_index(kv, '=') + 1, kv.len() as int)
}

/// The `(key, value)` pairs that `-e KEY=VAL` flag pairs carry, from position
/// `i` on: a `-e` takes the next item; an item without `=` carries nothing.
pub open spec fn env_pairs_from(flags: Seq<Seq<char>>, i: int) -> Seq<(Seq<char>, Seq<char>)>
    decreases flags.len() - i,
{
    if i < 0 || i >= flags.len() {
        Seq::empty()
    } else if flags[i] == "-e"@ && i + 1 < flags.len() {
        let kv = flags[i + 1];
        if first_index(kv, '=') >= 0 {
            seq![(key_part(kv), value_part(kv))] + env_pairs_from(flags, i + 2)
        } else {
            env_pairs_from(flags, i + 2)
        }
    } else {
        env_pairs_from(flags, i + 1)
    }
}

/// The `(key, value)` pairs of a flag list.
pub open spec fn env_pairs(flags: Seq<Seq<char>>) -> Seq<(Seq<char>, Seq<char>)> {
    env_pairs_from(flags, 0)
}

/// The view of a list of pairs.
pub open spec fn pairs_view(v: Seq<(String, String)>) -> Seq<(Seq<char>, Seq<char>)> {
    v.map_values(|p: (String, String)| (p.0@, p.1@))
}

/// Splits `kv` at its first `=`, if it has one.
pub(crate) fn split_kv(kv: &str) -> (r: Option<(String, String)>)
    ensures
        match r {
            Some(p) => first_index(kv@, '=') >= 0 && p.0@ == key_part(kv@) && p.1@ == value_part(kv@),
            None => first_index(kv@, '=') < 0,
        },
{
    let cs = chars_of(kv);
    match find_char(&cs, '=') {
        Some(eq) => {
            proof { lemma_first_index(kv@, '='); }
            Some((string_of_range(&cs, 0, eq), string_of_range(&cs, eq + 1, cs.len())))
        },
        None => None,
    }
}

/// Reads `-e KEY=VAL` flag pairs back into `(key, value)` pairs.
pub fn env_map_from_flags(flags: &[String]) -> (r: Vec<(String, String)>)
    ensures
        pairs_view(r@) == env_pairs(flags@.map_values(|s: String| s@)),
{
    let ghost fl = flags@.map_values(|s: String| s@);
    let mut result: Vec<(String, String)> = Vec::new();
    let mut i: usize = 0;
    while i < flags.len()
        invariant
            fl == flags@.map_values(|s: String| s@),
            i <= flags.len() + 1,
            pairs_view(result@) + env_pairs_from(fl, i as int) == env_pairs(fl),
        decreases flags.len() + 1 - i,
    {
        let ghost before = result@;
        if str_eq(flags[i].as_str(), "-e") && i + 1 < flags.len() {
            match split_kv(flags[i + 1].as_str()) {
                Some(p) => {
                    result.push(p);
                    proof {
                        assert(pairs_view(result@) =~= pairs_view(before) + seq![(key_part(fl[i + 1]), value_part(fl[i + 1]))]);
                        assert(pairs_view(result@) + env_pairs_from(fl, i + 2) =~= pairs_view(before) + env_pairs_from(fl, i as int));
                    }
                },
                None => {},
            }
            i += 2;
        } else {
            i += 1;
        }
    }
    assert(env_pairs_from(fl, i as int) == Seq::<(Seq<char>, Seq<char>)>::empty());
    assert(pairs_view(result@) + Seq::<(Seq<char>, Seq<char>)>::empty() =~= pairs_view(result@));
    result
}

/// What a host variable lookup (`host_var`, which reads the environment) can
/// answer for `key`.
pub open spec fn host_gives<G: Fn(&str) -> Option<String>>(host_var: G, key: Seq<char>, h: Option<Seq<char>>) -> bool {
    exists|k: &str, out: Option<String>|
        k@ == key && call_ensures(host_var, (k,), out) && h == out.deep_view()
}

/// Whether `v` is what one env spec can resolve to (`None`: no flag). After
/// trimming: an empty spec gives nothing; `KEY=VAL` gives the evaluated value,
/// or, when `host_first`, the host's value of `KEY` if it has one; a bare
/// `KEY` gives the host's value, if any.
pub open spec fn resolves<F: Fn(&str) -> Option<String>, G: Fn(&str) -> Option<String>>(
    run_sh: F,
    host_var: G,
    host_first: bool,
    spec: Seq<char>,
    v: Option<Seq<char>>,
) -> bool {
    let t = trim(spec);
    if t.len() == 0 {
        v is None
    } else if first_index(t, '=') >= 0 {
        v is Some && if host_first {
            exists|h: Option<Seq<char>>|
                host_gives(host_var, key_part(t), h) && match h {
                    Some(x) => v.unwrap() == x,
                    None => evaluates_to(run_sh, value_part(t), v.unwrap()),
                }
        } else {
            evaluates_to(run_sh, value_part(t), v.unwrap())
        }
    } else {
        host_gives(host_var, t, v)
    }
}

/// The flags for one trimmed spec `t` resolved to `v`.
pub open spec fn flag_pair(t: Seq<char>, v: Option<Seq<char>>) -> Seq<Seq<char>> {
    match v {
        Some(x) => {
            let name = if first_index(t, '=') >= 0 {
                key_part(t)
            } else {
                t
            };
            seq!["-e"@, name + "="@ + x]
        },
        None => Seq::empty(),
    }
}

/// The flags for specs resolved to `vals`, in order.
pub open spec fn flags_for(specs: Seq<Seq<char>>, vals: Seq<Option<Seq<char>>>) -> Seq<Seq<char>>
    decreases specs.len(),
{
    if specs.len() == 0 {
        Seq::empty()
    } else {
        flags_for(specs.drop_last(), vals.drop_last()) + flag_pair(trim(specs.last()), vals.last())
    }
}

/// The view of a list of strings.
pub open spec fn strings_view(v: Seq<String>) -> Seq<Seq<char>> {
    v.map_values(|s: String| s@)
}

fn build_env_flags_impl<F: Fn(&str) -> Option<String>, G: Fn(&str) -> Option<String>>(
    specs: &[String],
    host_overrides_literal: bool,
    run_sh: &F,
    host_var: &G,
) -> (r: Vec<String>)
    requires
        forall|s: &str| call_requires(run_sh, (s,)),
        forall|s: &str| call_requires(host_var, (s,)),
    ensures
        exists|vals: Seq<Option<Seq<char>>>|
            vals.len() == specs@.len() && (forall|i: int|
                0 <= i < vals.len() ==> resolves(
                    run_sh,
                    host_var,
                    host_overrides_literal,
                    #[trigger] specs@[i]@,
                    vals[i],
                )) && strings_view(r@) == flags_for(strings_view(specs@), vals),
{
    let mut flags: Vec<String> = Vec::new();
    let ghost mut vals: Seq<Option<Seq<char>>> = Seq::empty();
    for i in 0..specs.len()
        invariant
            vals.len() == i,
            forall|j: int|
                0 <= j < i ==> resolves(
                    run_sh,
                    host_var,
                    host_overrides_literal,
                    #[trigger] specs@[j]@,
                    vals[j],
                ),
            strings_view(flags@) == flags_for(strings_view(specs@).take(i as int), vals),
            forall|s: &str| call_requires(run_sh, (s,)),
            forall|s: &str| call_requires(host_var, (s,)),
    {
        let ghost before = flags@;
        let ghost old_vals = vals;
        let spec = trim_str(specs[i].as_str());
        let cs = chars_of(spec.as_str());
        let ghost v: Option<Seq<char>>;
        if cs.len() == 0 {
            proof {
                v = None;
                assert(strings_view(flags@) =~= strings_view(before) + flag_pair(spec@, v));
            }
        } else {
            match find_char(&cs, '=') {
                Some(eq) => {
                    proof { lemma_first_index(spec@, '='); }
                    let key = string_of_range(&cs, 0, eq);
                    let raw = string_of_range(&cs, eq + 1, cs.len());
                    let ks = key.as_str();
                    let val = if host_overrides_literal {
                        let h = host_var(ks);
                        proof {
                            assert(call_ensures(host_var, (ks,), h));
                            assert(host_gives(host_var, key_part(spec@), h.deep_view()));
                        }
                        match h {
                            Some(x) => x,
                            None => eval_value(raw.as_str(), run_sh),
                        }
                    } else {
                        eval_value(raw.as_str(), run_sh)
                    };
                    flags.push(String::from_str("-e"));
                    flags.push(cat3(key.as_str(), "=", val.as_str()));
                    proof {
                        v = Some(val@);
                        assert(strings_view(flags@) =~= strings_view(before) + flag_pair(spec@, v));
                    }
                },
                None => {
                    let ss = spec.as_str();
                    let h = host_var(ss);
                    proof {
                        assert(call_ensures(host_var, (ss,), h));
                        assert(host_gives(host_var, spec@, h.deep_view()));
                    }
                    match &h {
                        Some(x) => {
                            flags.push(String::from_str("-e"));
                            flags.push(cat3(spec.as_str(), "=", x.as_str()));
                        },
                        None => {},
                    }
                    proof {
                        v = h.deep_view();
                        assert(strings_view(flags@) =~= strings_view(before) + flag_pair(spec@, v));
                    }
                },
            }
        }
        proof {
            vals = vals.push(v);
            assert(spec@ == trim(specs@[i as int]@));
            assert(resolves(run_sh, host_var, host_overrides_literal, specs@[i as int]@, v));
            let sv = strings_view(specs@).take(i + 1);
            assert(sv.drop_last() =~= strings_view(specs@).take(i as int));
            assert(vals.drop_last() =~= vals.take(i as int));
            assert(vals.take(i as int) =~= old_vals);
            assert(sv.last() == specs@[i as int]@);
        }
    }
    assert(strings_view(specs@).take(specs@.len() as int) =~= strings_view(specs@));
    flags
}

/// Whether `flags` are `-e` flags that the specs can give: each spec
/// resolved to some value (see `resolves`), and the flags of the resolved
/// specs in order.
pub open spec fn flags_resolve<F: Fn(&str) -> Option<String>, G: Fn(&str) -> Option<String>>(
    run_sh: F,
    host_var: G,
    host_first: bool,
    specs: Seq<Seq<char>>,
    flags: Seq<Seq<char>>,
) -> bool {
    exists|vals: Seq<Option<Seq<char>>>|
        vals.len() == specs.len() && (forall|i: int|
            0 <= i < vals.len() ==> resolves(run_sh, host_var, host_first, #[trigger] specs[i], vals[i]))
            && flags == flags_for(specs, vals)
}

proof fn lemma_flags_resolve<F: Fn(&str) -> Option<String>, G: Fn(&str) -> Option<String>>(
    run_sh: F,
    host_var: G,
    host_first: bool,
    specs: &[String],
    r: Vec<String>,
)
    requires
        exists|vals: Seq<Option<Seq<char>>>|
            vals.len() == specs@.len() && (forall|i: int|
                0 <= i < vals.len() ==> resolves(run_sh, host_var, host_first, #[trigger] specs@[i]@, vals[i]))
                && strings_view(r@) == flags_for(strings_view(specs@), vals),
    ensures
        flags_resolve(run_sh, host_var, host_first, strings_view(specs@), strings_view(r@)),
{
    let vals = choose|vals: Seq<Option<Seq<char>>>|
        vals.len() == specs@.len() && (forall|i: int|
            0 <= i < vals.len() ==> resolves(run_sh, host_var, host_first, #[trigger] specs@[i]@, vals[i]))
            && strings_view(r@) == flags_for(strings_view(specs@), vals);
    let sv = strings_view(specs@);
    assert forall|i: int| 0 <= i < vals.len() implies resolves(run_sh, host_var, host_first, #[trigger] sv[i], vals[i]) by {
        assert(sv[i] == specs@[i]@);
    }
}

/// `-e KEY=VAL` flags for env specs, for the command line's `-e` options: a
/// `KEY=VAL` spec takes the evaluated value; a bare `KEY` passes the host's
/// value, and is left out when the host does not set it.
pub fn build_env_flags<F: Fn(&str) -> Option<String>, G: Fn(&str) -> Option<String>>(
    specs: &[String],
    run_sh: &F,
    host_var: &G,
) -> (r: Vec<String>)
    requires
        forall|s: &str| call_requires(run_sh, (s,)),
        forall|s: &str| call_requires(host_var, (s,)),
    ensures
        flags_resolve(run_sh, host_var, false, strings_view(specs@), strings_view(r@)),
{
    let r = build_env_flags_impl(specs, false, run_sh, host_var);
    proof { lemma_flags_resolve(run_sh, host_var, false, specs, r); }
    r
}

/// Like `build_env_flags`, for specs that a config declares: when the host
/// sets `KEY`, the host's value wins over the configured `KEY=VAL`.
pub fn build_config_env_flags<F: Fn(&str) -> Option<String>, G: Fn(&str) -> Option<String>>(
    specs: &[String],
    run_sh: &F,
    host_var: &G,
) -> (r: Vec<String>)
    requires
        forall|s: &str| call_requires(run_sh, (s,)),
        forall|s: &str| call_requires(host_var, (s,)),
    ensures
        flags_resolve(run_sh, host_var, true, strings_view(specs@), strings_view(r@)),
{
    let r = build_env_flags_impl(specs, true, run_sh, host_var);
    proof { lemma_flags_resolve(run_sh, host_var, true, specs, r); }
    r
}

/// `-e KEY=VAL` flags for the entries `e`, in order.
pub open spec fn flags_of_pairs(e: Seq<(Seq<char>, Seq<char>)>) -> Seq<Seq<char>>
    decreases e.len(),
{
    if e.len() == 0 {
        Seq::empty()
    } else {
        flags_of_pairs(e.drop_last()) + seq!["-e"@, e.last().0 + "="@ + e.last().1]
    }
}

/// One `-e KEY=VAL` pair per key: each key at its first place, with the last
/// value given to it.
pub open spec fn deduped_flags(flags: Seq<Seq<char>>) -> Seq<Seq<char>> {
    flags_of_pairs(insert_all(Seq::empty(), env_pairs(flags)))
}

/// Collapses `-e KEY=VAL` flag pairs to one per key, keeping the last value
/// given to each key (later env layers win over earlier ones).
pub fn dedup_env_flags(flags: &[String]) -> (r: Vec<String>)
    ensures
        strings_view(r@) == deduped_flags(strings_view(flags@)),
{
    let pairs = env_map_from_flags(flags);
    let ghost pv = pairs_view(pairs@);
    assert(strings_view(flags@) == flags@.map_values(|s: String| s@));
    let mut map = text_map_new();
    for i in 0..pairs.len()
        invariant
            pv == pairs_view(pairs@),
            text_entries(map) == insert_all(Seq::<(Seq<char>, Seq<char>)>::empty(), pv.take(i as int)),
    {
        assert(pv.take(i + 1).drop_last() =~= pv.take(i as int));
        assert(pv.take(i + 1).last() == pv[i as int]);
        let (k, v) = &pairs[i];
        let _ = text_map_insert(&mut map, copy_string(k), copy_string(v));
    }
    assert(pv.take(pairs.len() as int) =~= pv);
    let n = text_map_len(&map);
    let ghost e = text_entries(map);
    let mut out: Vec<String> = Vec::new();
    for i in 0..n
        invariant
            n == e.len(),
            e == text_entries(map),
            strings_view(out@) == flags_of_pairs(e.take(i as int)),
    {
        assert(e.take(i + 1).drop_last() =~= e.take(i as int));
        match text_map_get_index(&map, i) {
            Some((k, v)) => {
                let ghost before = out@;
                out.push(String::from_str("-e"));
                out.push(cat3(k.as_str(), "=", v.as_str()));
                assert(strings_view(out@) =~= strings_view(before) + seq!["-e"@, e[i as int].0 + "="@ + e[i as int].1]);
            },
            None => {},
        }
    }
    assert(e.take(n as int) =~= e);
    out
}

// ── Laws of the flag lists ──────────────────────────────────────────────────

/// Whether no key of `e` holds `=`.
pub open spec fn keys_plain(e: Seq<(Seq<char>, Seq<char>)>) -> bool {
    forall|i: int| 0 <= i < e.len() ==> first_index(#[trigger] e[i].0, '=') < 0
}

proof fn lemma_first_index_split(k: Seq<char>, v: Seq<char>)
    requires
        first_index(k, '=') < 0,
    ensures
        first_index(k + "="@ + v, '=') == k.len(),
        key_part(k + "="@ + v) == k,
        value_part(k + "="@ + v) == v,
{
    let s = k + "="@ + v;
    reveal_strlit("=");
    lemma_first_index(k, '=');
    lemma_first_index(s, '=');
    assert(s[k.len() as int] == '=');
    let f = first_index(s, '=');
    if f < k.len() {
        if f >= 0 {
            assert(s[f] == k[f]);
        }
        assert(false);
    }
    assert(s.subrange(0, k.len() as int) =~= k);
    assert(s.subrange(k.len() as int + 1, s.len() as int) =~= v);
}

proof fn lemma_pairs_shift(p: Seq<Seq<char>>, x: Seq<Seq<char>>, i: int)
    requires
        0 <= i,
    ensures
        env_pairs_from(p + x, p.len() + i) == env_pairs_from(x, i),
    decreases x.len() - i,
{
    if i < x.len() {
        assert((p + x)[p.len() + i] == x[i]);
        if i + 1 < x.len() {
            assert((p + x)[p.len() + i + 1] == x[i + 1]);
        }
        lemma_pairs_shift(p, x, i + 1);
        if i + 2 <= x.len() {
            lemma_pairs_shift(p, x, i + 2);
        }
    }
}

proof fn lemma_flags_of_pairs_front(e: Seq<(Seq<char>, Seq<char>)>)
    requires
        e.len() > 0,
    ensures
        flags_of_pairs(e) == seq!["-e"@, e[0].0 + "="@ + e[0].1] + flags_of_pairs(e.drop_first()),
    decreases e.len(),
{
    if e.len() > 1 {
        lemma_flags_of_pairs_front(e.drop_last());
        let head = seq!["-e"@, e[0].0 + "="@ + e[0].1];
        let tail = seq!["-e"@, e.last().0 + "="@ + e.last().1];
        assert(e.drop_last().drop_first() =~= e.drop_first().drop_last());
        assert(e.drop_first().last() == e.last());
        assert(e.drop_last()[0] == e[0]);
        assert(flags_of_pairs(e) == flags_of_pairs(e.drop_last()) + tail);
        assert(flags_of_pairs(e.drop_first()) == flags_of_pairs(e.drop_first().drop_last()) + tail);
        assert(flags_of_pairs(e) =~= head + flags_of_pairs(e.drop_first()));
    } else {
        assert(e.drop_first().len() == 0);
        assert(e.drop_last().len() == 0);
        assert(flags_of_pairs(e.drop_first()) == Seq::<Seq<char>>::empty());
        assert(flags_of_pairs(e.drop_last()) == Seq::<Seq<char>>::empty());
        assert(e.last() == e[0]);
        assert(flags_of_pairs(e) =~= seq!["-e"@, e[0].0 + "="@ + e[0].1] + flags_of_pairs(e.drop_first()));
    }
}

/// Reading back the flags of entries whose keys hold no `=` gives the entries.
pub proof fn lemma_pairs_of_flags(e: Seq<(Seq<char>, Seq<char>)>)
    requires
        keys_plain(e),
    ensures
        env_pairs(flags_of_pairs(e)) == e,
    decreases e.len(),
{
    if e.len() > 0 {
        let d = e.drop_first();
        assert(keys_plain(d)) by {
            assert forall|i: int| 0 <= i < d.len() implies first_index(#[trigger] d[i].0, '=') < 0 by {
                assert(d[i] == e[i + 1]);
            }
        }
        lemma_pairs_of_flags(d);
        lemma_flags_of_pairs_front(e);
        let head = seq!["-e"@, e[0].0 + "="@ + e[0].1];
        let all = head + flags_of_pairs(d);
        lemma_pairs_shift(head, flags_of_pairs(d), 0);
        lemma_first_index_split(e[0].0, e[0].1);
        reveal_strlit("-e");
        assert(all[0] == "-e"@);
        assert(all[1] == e[0].0 + "="@ + e[0].1);
        assert(env_pairs_from(all, 0) == seq![(e[0].0, e[0].1)] + env_pairs_from(all, 2));
        assert(e =~= seq![(e[0].0, e[0].1)] + d);
    } else {
        assert(flags_of_pairs(e) == Seq::<Seq<char>>::empty());
    }
}

proof fn lemma_env_pairs_plain_from(flags: Seq<Seq<char>>, i: int)
    ensures
        keys_plain(env_pairs_from(flags, i)),
    decreases flags.len() - i,
{
    if 0 <= i < flags.len() {
        lemma_env_pairs_plain_from(flags, i + 1);
        if i + 2 <= flags.len() {
            lemma_env_pairs_plain_from(flags, i + 2);
        }
        if flags[i] == "-e"@ && i + 1 < flags.len() {
            let kv = flags[i + 1];
            if first_index(kv, '=') >= 0 {
                lemma_first_index(kv, '=');
                lemma_first_index(key_part(kv), '=');
                let kp = key_part(kv);
                if first_index(kp, '=') >= 0 {
                    assert(kp[first_index(kp, '=')] == kv[first_index(kp, '=')]);
                }
                let r = seq![(key_part(kv), value_part(kv))] + env_pairs_from(flags, i + 2);
                assert forall|j: int| 0 <= j < r.len() implies first_index(#[trigger] r[j].0, '=') < 0 by {
                    if j > 0 {
                        assert(r[j] == env_pairs_from(flags, i + 2)[j - 1]);
                    }
                }
            }
        }
    }
}

proof fn lemma_insert_all_plain(e: Seq<(Seq<char>, Seq<char>)>, adds: Seq<(Seq<char>, Seq<char>)>)
    requires
        keys_plain(e),
        keys_plain(adds),
    ensures
        keys_plain(insert_all(e, adds)),
    decreases adds.len(),
{
    if adds.len() > 0 {
        let d = adds.drop_last();
        assert(keys_plain(d)) by {
            assert forall|i: int| 0 <= i < d.len() implies first_index(#[trigger] d[i].0, '=') < 0 by {
                assert(d[i] == adds[i]);
            }
        }
        lemma_insert_all_plain(e, d);
        let b = insert_all(e, d);
        let k = adds.last().0;
        assert(first_index(adds[adds.len() - 1].0, '=') < 0);
        crate::maps::lemma_entry_index(b, k);
        let n = insert_all(e, adds);
        assert forall|i: int| 0 <= i < n.len() implies first_index(#[trigger] n[i].0, '=') < 0 by {
            if crate::maps::entry_index(b, k) >= 0 {
                if i != crate::maps::entry_index(b, k) {
                    assert(n[i] == b[i]);
                }
            } else {
                if i < b.len() {
                    assert(n[i] == b[i]);
                }
            }
        }
    }
}

/// Inserting into entries with distinct keys keeps the keys distinct.
proof fn lemma_insert_all_distinct(e: Seq<(Seq<char>, Seq<char>)>, adds: Seq<(Seq<char>, Seq<char>)>)
    requires
        forall|i: int, j: int| 0 <= i < j < e.len() ==> e[i].0 != e[j].0,
    ensures
        ({
            let n = insert_all(e, adds);
            forall|i: int, j: int| 0 <= i < j < n.len() ==> n[i].0 != n[j].0
        }),
    decreases adds.len(),
{
    if adds.len() > 0 {
        lemma_insert_all_distinct(e, adds.drop_last());
        let b = insert_all(e, adds.drop_last());
        let k = adds.last().0;
        crate::maps::lemma_entry_index(b, k);
        let n = insert_all(e, adds);
        assert forall|i: int, j: int| 0 <= i < j < n.len() implies n[i].0 != n[j].0 by {
            if crate::maps::entry_index(b, k) >= 0 {
                let x = crate::maps::entry_index(b, k);
                if i == x {
                    assert(n[j] == b[j]);
                } else if j == x {
                    assert(n[i] == b[i]);
                } else {
                    assert(n[i] == b[i] && n[j] == b[j]);
                }
            } else {
                if j == b.len() {
                    assert(n[i] == b[i]);
                    if b[i].0 == k {
                        assert(crate::maps::has_key(b, k));
                    }
                } else {
                    assert(n[i] == b[i] && n[j] == b[j]);
                }
            }
        }
    }
}

/// Collapsing flags leaves each key once, and the value of each key is the
/// last one the original flags gave it.
pub proof fn law_dedup_last_wins(flags: Seq<Seq<char>>, k: Seq<char>)
    ensures
        ({
            let d = env_pairs(deduped_flags(flags));
            &&& forall|i: int, j: int| 0 <= i < j < d.len() ==> d[i].0 != d[j].0
            &&& lookup(d, k) == lookup_last(env_pairs(flags), k)
        }),
{
    let pairs = env_pairs(flags);
    lemma_env_pairs_plain_from(flags, 0);
    lemma_insert_all_plain(Seq::empty(), pairs);
    let m = insert_all(Seq::empty(), pairs);
    lemma_pairs_of_flags(m);
    lemma_insert_all_distinct(Seq::empty(), pairs);
    crate::maps::lemma_lookup_insert_all(Seq::empty(), pairs, k);
    crate::maps::lemma_entry_index(Seq::<(Seq<char>, Seq<char>)>::empty(), k);
}

/// The `(name, value)` pairs that resolved specs stand for, in order.
pub open spec fn resolved_pairs(specs: Seq<Seq<char>>, vals: Seq<Option<Seq<char>>>) -> Seq<
    (Seq<char>, Seq<char>),
>
    decreases specs.len(),
{
    if specs.len() == 0 {
        Seq::empty()
    } else {
        let t = trim(specs.last());
        let rest = resolved_pairs(specs.drop_last(), vals.drop_last());
        match vals.last() {
            Some(x) => rest.push(
                (
                    if first_index(t, '=') >= 0 {
                        key_part(t)
                    } else {
                        t
                    },
                    x,
                ),
            ),
            None => rest,
        }
    }
}

proof fn lemma_key_part_plain(t: Seq<char>)
    requires
        first_index(t, '=') >= 0,
    ensures
        first_index(key_part(t), '=') < 0,
{
    lemma_first_index(t, '=');
    lemma_first_index(key_part(t), '=');
    let kp = key_part(t);
    if first_index(kp, '=') >= 0 {
        assert(kp[first_index(kp, '=')] == t[first_index(kp, '=')]);
    }
}

proof fn lemma_flags_for_pairs(specs: Seq<Seq<char>>, vals: Seq<Option<Seq<char>>>)
    requires
        vals.len() == specs.len(),
    ensures
        flags_for(specs, vals) == flags_of_pairs(resolved_pairs(specs, vals)),
        keys_plain(resolved_pairs(specs, vals)),
    decreases specs.len(),
{
    if specs.len() > 0 {
        lemma_flags_for_pairs(specs.drop_last(), vals.drop_last());
        let t = trim(specs.last());
        let rest = resolved_pairs(specs.drop_last(), vals.drop_last());
        match vals.last() {
            Some(x) => {
                let name = if first_index(t, '=') >= 0 { key_part(t) } else { t };
                if first_index(t, '=') >= 0 {
                    lemma_key_part_plain(t);
                }
                let n = rest.push((name, x));
                assert(n.drop_last() =~= rest);
                assert forall|i: int| 0 <= i < n.len() implies first_index(#[trigger] n[i].0, '=') < 0 by {
                    if i < rest.len() {
                        assert(n[i] == rest[i]);
                    }
                }
            },
            None => {
                assert(flags_for(specs, vals) =~= flags_for(specs.drop_last(), vals.drop_last()));
            },
        }
    }
}

/// Reading back the flags that resolved env specs give yields, in order, the
/// name and value of each spec that resolved to a value.
pub proof fn law_flags_read_back(specs: Seq<Seq<char>>, vals: Seq<Option<Seq<char>>>)
    requires
        vals.len() == specs.len(),
    ensures
        env_pairs(flags_for(specs, vals)) == resolved_pairs(specs, vals),
{
    lemma_flags_for_pairs(specs, vals);
    lemma_pairs_of_flags(resolved_pairs(specs, vals));
}

// ── More laws of the flags ──────────────────────────────────────────────────

proof fn lemma_insert_all_keys(adds: Seq<(Seq<char>, Seq<char>)>)
    ensures
        crate::maps::keys_of(insert_all(Seq::<(Seq<char>, Seq<char>)>::empty(), adds))
            == crate::maps::distinct_keys(crate::maps::keys_of(adds)),
    decreases adds.len(),
{
    let empty = Seq::<(Seq<char>, Seq<char>)>::empty();
    if adds.len() == 0 {
        assert(crate::maps::keys_of(empty) =~= Seq::<Seq<char>>::empty());
        assert(crate::maps::keys_of(adds) =~= Seq::<Seq<char>>::empty());
    } else {
        let d = adds.drop_last();
        let x = adds.last();
        lemma_insert_all_keys(d);
        let e = insert_all(empty, d);
        let ke = crate::maps::keys_of(e);
        let ka = crate::maps::keys_of(adds);
        assert(ka.drop_last() =~= crate::maps::keys_of(d));
        assert(ka.last() == x.0);
        crate::maps::lemma_entry_index(e, x.0);
        assert(crate::maps::has_key(e, x.0) <==> ke.contains(x.0)) by {
            if crate::maps::has_key(e, x.0) {
                let i = choose|i: int| 0 <= i < e.len() && #[trigger] e[i].0 == x.0;
                assert(ke[i] == x.0);
            }
            if ke.contains(x.0) {
                let i = choose|i: int| 0 <= i < ke.len() && ke[i] == x.0;
                assert(e[i].0 == x.0);
            }
        }
        let n = insert_all(empty, adds);
        if crate::maps::entry_index(e, x.0) >= 0 {
            assert(crate::maps::keys_of(n) =~= ke);
        } else {
            assert(crate::maps::keys_of(n) =~= ke.push(x.0));
        }
    }
}

/// Collapsed flags keep each key at the place of its first occurrence: the
/// keys they carry are those of the original flags, each once, in the
/// order in which they first appear.
pub proof fn law_dedup_first_order(flags: Seq<Seq<char>>)
    ensures
        crate::maps::keys_of(env_pairs(deduped_flags(flags))) == crate::maps::distinct_keys(
            crate::maps::keys_of(env_pairs(flags)),
        ),
{
    let pairs = env_pairs(flags);
    lemma_env_pairs_plain_from(flags, 0);
    lemma_insert_all_plain(Seq::empty(), pairs);
    lemma_pairs_of_flags(insert_all(Seq::empty(), pairs));
    lemma_insert_all_keys(pairs);
}

/// Whether an env spec is a plain `KEY=VAL`: nothing to trim, and a value
/// that asks for no substitution.
pub open spec fn plain_kv(spec: Seq<char>) -> bool {
    trim(spec) == spec && first_index(spec, '=') >= 0 && !needs_eval(value_part(spec))
}

proof fn lemma_plain_pairs(specs: Seq<Seq<char>>, vals: Seq<Option<Seq<char>>>)
    requires
        vals.len() == specs.len(),
        forall|i: int| 0 <= i < specs.len() ==> plain_kv(#[trigger] specs[i]),
        forall|i: int| 0 <= i < specs.len() ==> vals[i] == Some(value_part(#[trigger] specs[i])),
    ensures
        resolved_pairs(specs, vals) == specs.map_values(|s: Seq<char>| (key_part(s), value_part(s))),
    decreases specs.len(),
{
    if specs.len() > 0 {
        let d = specs.drop_last();
        assert forall|i: int| 0 <= i < d.len() implies plain_kv(#[trigger] d[i]) by {
            assert(d[i] == specs[i]);
        }
        assert forall|i: int| 0 <= i < d.len() implies vals.drop_last()[i] == Some(value_part(#[trigger] d[i])) by {
            assert(d[i] == specs[i]);
        }
        lemma_plain_pairs(d, vals.drop_last());
        assert(plain_kv(specs[specs.len() - 1]));
        assert(vals[specs.len() - 1] == Some(value_part(specs[specs.len() - 1])));
        assert(specs.map_values(|s: Seq<char>| (key_part(s), value_part(s))) =~= d.map_values(
            |s: Seq<char>| (key_part(s), value_part(s)),
        ).push((key_part(specs.last()), value_part(specs.last()))));
    } else {
        assert(specs.map_values(|s: Seq<char>| (key_part(s), value_part(s))) =~= Seq::<(Seq<char>, Seq<char>)>::empty());
    }
}

/// Reading back the flags built from plain `KEY=VAL` specs gives each
/// spec's key and value, in order, repeats kept.
pub proof fn law_plain_specs_read_back<F: Fn(&str) -> Option<String>, G: Fn(&str) -> Option<String>>(
    run_sh: F,
    host_var: G,
    specs: Seq<Seq<char>>,
    flags: Seq<Seq<char>>,
)
    requires
        forall|i: int| 0 <= i < specs.len() ==> plain_kv(#[trigger] specs[i]),
        flags_resolve(run_sh, host_var, false, specs, flags),
    ensures
        env_pairs(flags) == specs.map_values(|s: Seq<char>| (key_part(s), value_part(s))),
{
    let vals = choose|vals: Seq<Option<Seq<char>>>|
        vals.len() == specs.len() && (forall|i: int|
            0 <= i < vals.len() ==> resolves(run_sh, host_var, false, #[trigger] specs[i], vals[i]))
            && flags == flags_for(specs, vals);
    assert forall|i: int| 0 <= i < specs.len() implies vals[i] == Some(value_part(#[trigger] specs[i])) by {
        assert(plain_kv(specs[i]));
        assert(resolves(run_sh, host_var, false, specs[i], vals[i]));
    }
    law_flags_read_back(specs, vals);
    lemma_plain_pairs(specs, vals);
}

/// A config spec resolves as the same spec on the command line does, but
/// that for `KEY=VAL` the host's own value of `KEY`, when it has one, may
/// take the place of the evaluated `VAL`; a bare `KEY` and an empty spec
/// resolve alike either way.
pub proof fn law_config_flags_host_first<F: Fn(&str) -> Option<String>, G: Fn(&str) -> Option<String>>(
    run_sh: F,
    host_var: G,
    spec: Seq<char>,
    v: Option<Seq<char>>,
)
    ensures
        first_index(trim(spec), '=') < 0 ==> (resolves(run_sh, host_var, true, spec, v) == resolves(
            run_sh,
            host_var,
            false,
            spec,
            v,
        )),
        resolves(run_sh, host_var, true, spec, v) ==> resolves(run_sh, host_var, false, spec, v) || (exists|h: Seq<char>|
            host_gives(host_var, key_part(trim(spec)), Some(h)) && v == Some(h)),
{
    let t = trim(spec);
    if t.len() > 0 && first_index(t, '=') >= 0 && resolves(run_sh, host_var, true, spec, v) {
        let h = choose|h: Option<Seq<char>>|
            host_gives(host_var, key_part(t), h) && match h {
                Some(x) => v.unwrap() == x,
                None => evaluates_to(run_sh, value_part(t), v.unwrap()),
            };
        match h {
            Some(x) => {
                assert(host_gives(host_var, key_part(t), Some(x)) && v == Some(x));
            },
            None => {},
        }
    }
}

} // verus!
