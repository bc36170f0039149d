use vstd::prelude::*;
use vstd::string::StringExecFns;

verus! {

/// Appends one character to a string.
/// Calls `String::push`, documented as appending the given `char` to the end
/// of the string.
#[verifier::external_body]
pub(crate) fn push_char(s: &mut String, c: char)
    ensures
        final(s)@ == old(s)@.push(c),
{
    s.push(c);
}

/// The characters of a string slice, in order.
pub fn chars_of(s: &str) -> (r: Vec<char>)
    ensures
        r@ == s@,
{
    let mut v: Vec<char> = Vec::new();
    for c in it: s.chars()
        invariant
            v@ == it.seq().take(it.index()),
    {
        v.push(c);
    }
    v
}

/// A new string holding the characters `cs[from..to]`.
pub fn string_of_range(cs: &Vec<char>, from: usize, to: usize) -> (r: String)
    requires
        from <= to <= cs.len(),
    ensures
        r@ == cs@.subrange(from as int, to as int),
{
    let mut s = String::new();
    let mut i = from;
    while i < to
        invariant
            from <= i <= to <= cs.len(),
            s@ == cs@.subrange(from as int, i as int),
        decreases to - i,
    {
        push_char(&mut s, cs[i]);
        assert(cs@.subrange(from as int, i + 1) == cs@.subrange(from as int, i as int).push(cs@[i as int]));
        i += 1;
    }
    s
}

/// A new string holding all of `cs`.
pub fn string_of(cs: &Vec<char>) -> (r: String)
    ensures
        r@ == cs@,
{
    let r = string_of_range(cs, 0, cs.len());
    assert(cs@.subrange(0, cs@.len() as int) == cs@);
    r
}

/// Whether two string slices hold the same characters.
pub fn str_eq(a: &str, b: &str) -> (r: bool)
    ensures
        r == (a@ == b@),
{
    let x = chars_of(a);
    let y = chars_of(b);
    if x.len() != y.len() {
        return false;
    }
    let n = x.len();
    for i in 0..n
        invariant
            n == x.len(),
            x.len() == y.len(),
            x@ == a@,
            y@ == b@,
            forall|j: int| 0 <= j < i ==> x@[j] == y@[j],
    {
        if x[i] != y[i] {
            return false;
        }
    }
    assert(x@ =~= y@);
    true
}

/// `a` followed by `b`.
pub fn cat(a: &str, b: &str) -> (r: String)
    ensures
        r@ == a@ + b@,
{
    let mut s = String::from_str(a);
    s.append(b);
    s
}

/// `a`, `b` and `c`, one after the other.
pub fn cat3(a: &str, b: &str, c: &str) -> (r: String)
    ensures
        r@ == a@ + b@ + c@,
{
    let mut s = String::from_str(a);
    s.append(b);
    s.append(c);
    s
}

/// Clones a string, keeping its characters.
pub fn copy_string(s: &String) -> (r: String)
    ensures
        r@ == s@,
{
    s.clone()
}


// ── Searching ───────────────────────────────────────────────────────────────

/// Whether `pat` occurs in `s` starting at position `i`.

/// Whether `s` begins with `p`.
pub open spec fn has_prefix(s: Seq<char>, p: Seq<char>) -> bool {
    p.len() <= s.len() && s.take(p.len() as int) == p
}

/// Whether `s` ends with `p`.
pub open spec fn has_suffix(s: Seq<char>, p: Seq<char>) -> bool {
    p.len() <= s.len() && s.skip(s.len() - p.len()) == p
}

/// Whether `s` has `p` at position `at`.
fn matches_at(s: &Vec<char>, p: &Vec<char>, at: usize) -> (r: bool)
    requires
        at + p.len() <= s.len(),
    ensures
        r == (s@.subrange(at as int, at + p.len()) == p@),
{
    let mut i: usize = 0;
    while i < p.len()
        invariant
            at + p.len() <= s.len(),
            i <= p.len(),
            forall|j: int| 0 <= j < i ==> s@[at + j] == p@[j],
        decreases p.len() - i,
    {
        if s[at + i] != p[i] {
            assert(s@.subrange(at as int, at + p.len())[i as int] != p@[i as int]);
            return false;
        }
        i += 1;
    }
    assert(s@.subrange(at as int, at + p.len()) =~= p@);
    true
}

/// See `has_prefix`.
pub fn starts_with(s: &str, p: &str) -> (r: bool)
    ensures
        r == has_prefix(s@, p@),
{
    let sv = chars_of(s);
    let pv = chars_of(p);
    if pv.len() > sv.len() {
        return false;
    }
    let r = matches_at(&sv, &pv, 0);
    assert(sv@.subrange(0, pv.len() as int) =~= s@.take(p@.len() as int));
    r
}

/// See `has_suffix`.
pub fn ends_with(s: &str, p: &str) -> (r: bool)
    ensures
        r == has_suffix(s@, p@),
{
    let sv = chars_of(s);
    let pv = chars_of(p);
    if pv.len() > sv.len() {
        return false;
    }
    let at = sv.len() - pv.len();
    let r = matches_at(&sv, &pv, at);
    assert(sv@.subrange(at as int, at + pv.len()) =~= s@.skip(s@.len() - p@.len()));
    r
}

/// A text found in a piece of `s` is found in `s`.
pub proof fn lemma_has_sub_piece(s: Seq<char>, a: int, b: int, pat: Seq<char>)
    requires
        0 <= a <= b <= s.len(),
        has_sub(s.subrange(a, b), pat),
    ensures
        has_sub(s, pat),
{
    let t = s.subrange(a, b);
    let i = choose|i: int| occurs_at(t, pat, i);
    assert(s.subrange(a + i, a + i + pat.len()) =~= t.subrange(i, i + pat.len()));
    assert(occurs_at(s, pat, a + i));
}

/// What trimming keeps is a piece of the text: a text found in it is found
/// in the whole.
pub proof fn lemma_has_sub_trim(s: Seq<char>, pat: Seq<char>)
    requires
        has_sub(trim(s), pat),
    ensures
        has_sub(s, pat),
{
    lemma_has_sub_trim_tail(trim_start(s), pat);
    lemma_has_sub_trim_start(s, pat);
}

proof fn lemma_has_sub_trim_start(s: Seq<char>, pat: Seq<char>)
    requires
        has_sub(trim_start(s), pat),
    ensures
        has_sub(s, pat),
    decreases s.len(),
{
    if s.len() > 0 && is_white(s[0]) {
        lemma_has_sub_trim_start(s.drop_first(), pat);
        assert(s.drop_first() =~= s.subrange(1, s.len() as int));
        lemma_has_sub_piece(s, 1, s.len() as int, pat);
    }
}

proof fn lemma_has_sub_trim_tail(s: Seq<char>, pat: Seq<char>)
    requires
        has_sub(trim_tail(s, true), pat),
    ensures
        has_sub(s, pat),
    decreases s.len(),
{
    if s.len() > 0 && tail_char(s.last(), true) {
        lemma_has_sub_trim_tail(s.drop_last(), pat);
        assert(s.drop_last() =~= s.subrange(0, s.len() - 1));
        lemma_has_sub_piece(s, 0, s.len() - 1, pat);
    }
}

/// Whether `c` is an ASCII capital letter.
pub open spec fn is_upper(c: char) -> bool {
    'A' <= c && c <= 'Z'
}

/// Whether every character of `s` is ASCII.
pub open spec fn ascii_text(s: Seq<char>) -> bool {
    forall|i: int| 0 <= i < s.len() ==> (#[trigger] s[i] as u32) < 128
}

/// ASCII letters made lowercase; every other character kept.
pub open spec fn ascii_lower(s: Seq<char>) -> Seq<char> {
    s.map_values(|c: char| if 'A' <= c && c <= 'Z' { (((c as u8) + 32) as u8) as char } else { c })
}

/// Copies of the strings of `v`, in order.
pub fn copy_strings(v: &[String]) -> (r: Vec<String>)
    ensures
        r.deep_view() == v@.map_values(|s: String| s@),
{
    let mut out: Vec<String> = Vec::new();
    for i in 0..v.len()
        invariant
            out.len() == i,
            forall|j: int| 0 <= j < i ==> #[trigger] out@[j]@ == v@[j]@,
    {
        out.push(v[i].clone());
    }
    assert(out.deep_view() =~= v@.map_values(|s: String| s@));
    out
}
pub open spec fn occurs_at(s: Seq<char>, pat: Seq<char>, i: int) -> bool {
    0 <= i && i + pat.len() <= s.len() && s.subrange(i, i + pat.len()) == pat
}

/// Whether `pat` occurs somewhere in `s`.
pub open spec fn has_sub(s: Seq<char>, pat: Seq<char>) -> bool {
    exists|i: int| occurs_at(s, pat, i)
}

/// Whether `s` contains `pat`.
pub fn contains_str(s: &str, pat: &str) -> (r: bool)
    ensures
        r == has_sub(s@, pat@),
{
    let cs = chars_of(s);
    let ps = chars_of(pat);
    if ps.len() == 0 {
        assert(s@.subrange(0, 0) =~= pat@);
        assert(occurs_at(s@, pat@, 0));
        return true;
    }
    if ps.len() > cs.len() {
        return false;
    }
    let last = cs.len() - ps.len();
    let mut i: usize = 0;
    while i <= last
        invariant
            cs@ == s@,
            ps@ == pat@,
            ps.len() > 0,
            last == cs.len() - ps.len(),
            i <= last + 1,
            forall|j: int| 0 <= j < i ==> !occurs_at(s@, pat@, j),
        decreases last + 1 - i,
    {
        let mut k: usize = 0;
        let mut same = true;
        while k < ps.len()
            invariant
                cs@ == s@,
                ps@ == pat@,
                i <= last,
                last == cs.len() - ps.len(),
                k <= ps.len(),
                same ==> forall|m: int| 0 <= m < k ==> cs@[i + m] == ps@[m],
                !same ==> !occurs_at(s@, pat@, i as int),
            decreases ps.len() - k,
        {
            if cs[i + k] != ps[k] {
                if same {
                    assert(s@.subrange(i as int, i + pat@.len())[k as int] != pat@[k as int]);
                }
                same = false;
            }
            k += 1;
        }
        if same {
            assert(s@.subrange(i as int, i + pat@.len()) =~= pat@);
            assert(occurs_at(s@, pat@, i as int));
            return true;
        }
        i += 1;
    }
    false
}

/// Position of the first `c` in `s`, or -1.
pub open spec fn first_index(s: Seq<char>, c: char) -> int
    decreases s.len(),
{
    if s.len() == 0 {
        -1
    } else if first_index(s.drop_last(), c) >= 0 {
        first_index(s.drop_last(), c)
    } else if s.last() == c {
        s.len() - 1
    } else {
        -1
    }
}

/// `first_index` finds the first occurrence, and -1 means there is none.
pub proof fn lemma_first_index(s: Seq<char>, c: char)
    ensures
        -1 <= first_index(s, c) < s.len(),
        first_index(s, c) >= 0 ==> s[first_index(s, c)] == c,
        forall|j: int| 0 <= j < s.len() && (first_index(s, c) < 0 || j < first_index(s, c)) ==> s[j] != c,
    decreases s.len(),
{
    if s.len() > 0 {
        lemma_first_index(s.drop_last(), c);
        assert forall|j: int| 0 <= j < s.len() - 1 implies s[j] == s.drop_last()[j] by {}
    }
}

/// Position of the first `c` in `cs`.
pub fn find_char(cs: &Vec<char>, c: char) -> (r: Option<usize>)
    ensures
        match r {
            Some(i) => i == first_index(cs@, c),
            None => first_index(cs@, c) == -1,
        },
{
    proof { lemma_first_index(cs@, c); }
    for i in 0..cs.len()
        invariant
            -1 <= first_index(cs@, c) < cs@.len(),
            first_index(cs@, c) >= 0 ==> cs@[first_index(cs@, c)] == c,
            forall|j: int| 0 <= j < cs@.len() && (first_index(cs@, c) < 0 || j < first_index(cs@, c)) ==> cs@[j] != c,
            forall|j: int| 0 <= j < i ==> cs@[j] != c,
    {
        if cs[i] == c {
            return Some(i);
        }
    }
    None
}

// ── Trimming ────────────────────────────────────────────────────────────────

/// Unicode White_Space, as `char::is_whitespace` tests it.
pub open spec fn is_white(c: char) -> bool {
    ('\u{9}' <= c && c <= '\u{d}') || c == ' ' || c == '\u{85}' || c == '\u{a0}' || c == '\u{1680}'
        || ('\u{2000}' <= c && c <= '\u{200a}') || c == '\u{2028}' || c == '\u{2029}' || c
        == '\u{202f}' || c == '\u{205f}' || c == '\u{3000}'
}

/// See `is_white`.
pub fn char_is_white(c: char) -> (r: bool)
    ensures
        r == is_white(c),
{
    ('\u{9}' <= c && c <= '\u{d}') || c == ' ' || c == '\u{85}' || c == '\u{a0}' || c == '\u{1680}'
        || ('\u{2000}' <= c && c <= '\u{200a}') || c == '\u{2028}' || c == '\u{2029}' || c
        == '\u{202f}' || c == '\u{205f}' || c == '\u{3000}'
}

/// `s` without leading white space.
pub open spec fn trim_start(s: Seq<char>) -> Seq<char>
    decreases s.len(),
{
    if s.len() > 0 && is_white(s[0]) {
        trim_start(s.drop_first())
    } else {
        s
    }
}

/// Whether `c` is cut off the tail: white space when `white`, else `\n`.
pub open spec fn tail_char(c: char, white: bool) -> bool {
    if white {
        is_white(c)
    } else {
        c == '\n'
    }
}

/// `s` without its trailing `tail_char`s.
pub open spec fn trim_tail(s: Seq<char>, white: bool) -> Seq<char>
    decreases s.len(),
{
    if s.len() > 0 && tail_char(s.last(), white) {
        trim_tail(s.drop_last(), white)
    } else {
        s
    }
}

/// `s` without leading and trailing white space, as `str::trim` gives it.
pub open spec fn trim(s: Seq<char>) -> Seq<char> {
    trim_tail(trim_start(s), true)
}

/// `s` without trailing newlines, as `trim_end_matches('\n')` gives it.
pub open spec fn trim_newlines(s: Seq<char>) -> Seq<char> {
    trim_tail(s, false)
}

proof fn lemma_trim_start_skip(s: Seq<char>, i: int)
    requires
        0 <= i <= s.len(),
        forall|j: int| 0 <= j < i ==> is_white(#[trigger] s[j]),
    ensures
        trim_start(s) == trim_start(s.subrange(i, s.len() as int)),
    decreases i,
{
    if i > 0 {
        lemma_trim_start_skip(s.drop_first(), i - 1);
        assert(s.drop_first().subrange(i - 1, s.drop_first().len() as int) =~= s.subrange(i, s.len() as int));
    } else {
        assert(s.subrange(0, s.len() as int) =~= s);
    }
}

proof fn lemma_trim_end_skip(s: Seq<char>, n: int, p: bool)
    requires
        0 <= n <= s.len(),
        forall|j: int| n <= j < s.len() ==> tail_char(#[trigger] s[j], p),
    ensures
        trim_tail(s, p) == trim_tail(s.subrange(0, n), p),
    decreases s.len() - n,
{
    if n < s.len() {
        lemma_trim_end_skip(s.drop_last(), n, p);
        assert(s.drop_last().subrange(0, n) =~= s.subrange(0, n));
    } else {
        assert(s.subrange(0, n) =~= s);
    }
}

/// Cuts off the trailing characters that satisfy `p`: the number of characters
/// that stay.
fn kept_before_tail(cs: &Vec<char>, start: usize, white: bool) -> (n: usize)
    requires
        start <= cs.len(),
    ensures
        start <= n <= cs.len(),
        trim_tail(cs@.subrange(start as int, cs.len() as int), white) == cs@.subrange(
            start as int,
            n as int,
        ),
{
    let ghost p = white;
    let mut n = cs.len();
    while n > start
        invariant
            p == white,
            start <= n <= cs.len(),
            forall|j: int| n <= j < cs.len() ==> tail_char(#[trigger] cs@[j], p),
        ensures
            start <= n <= cs.len(),
            forall|j: int| n <= j < cs.len() ==> tail_char(#[trigger] cs@[j], p),
            n == start || !tail_char(cs@[n - 1], p),
        decreases n,
    {
        let c = cs[n - 1];
        let hit = if white { char_is_white(c) } else { c == '\n' };
        if !hit {
            break;
        }
        n -= 1;
    }
    proof {
        let t = cs@.subrange(start as int, cs.len() as int);
        lemma_trim_end_skip(t, n - start, p);
        assert(t.subrange(0, n - start) =~= cs@.subrange(start as int, n as int));
        let u = cs@.subrange(start as int, n as int);
        if u.len() > 0 {
            assert(u.last() == cs@[n - 1]);
        }
    }
    n
}

/// `s` without leading and trailing white space.
pub fn trim_str(s: &str) -> (r: String)
    ensures
        r@ == trim(s@),
{
    let cs = chars_of(s);
    let mut a: usize = 0;
    while a < cs.len()
        invariant
            cs@ == s@,
            a <= cs.len(),
            forall|j: int| 0 <= j < a ==> is_white(#[trigger] cs@[j]),
        ensures
            a <= cs.len(),
            forall|j: int| 0 <= j < a ==> is_white(#[trigger] cs@[j]),
            a == cs.len() || !is_white(cs@[a as int]),
        decreases cs.len() - a,
    {
        if !char_is_white(cs[a]) {
            break;
        }
        a += 1;
    }
    proof {
        lemma_trim_start_skip(s@, a as int);
        let t = s@.subrange(a as int, s@.len() as int);
        if t.len() > 0 {
            assert(t[0] == cs@[a as int]);
        }
    }
    let b = kept_before_tail(&cs, a, true);
    string_of_range(&cs, a, b)
}

/// `s` without trailing newlines.
pub fn trim_newlines_str(s: &str) -> (r: String)
    ensures
        r@ == trim_newlines(s@),
{
    let cs = chars_of(s);
    let b = kept_before_tail(&cs, 0, false);
    assert(cs@.subrange(0, cs.len() as int) =~= s@);
    string_of_range(&cs, 0, b)
}

/// The strings of `v` joined with `sep` between each two.
pub open spec fn join(v: Seq<Seq<char>>, sep: Seq<char>) -> Seq<char>
    decreases v.len(),
{
    if v.len() == 0 {
        Seq::empty()
    } else if v.len() == 1 {
        v[0]
    } else {
        join(v.drop_last(), sep) + sep + v.last()
    }
}

/// Joins `v[from..to]` with `sep`.
pub fn join_range(v: &Vec<String>, from: usize, to: usize, sep: &str) -> (r: String)
    requires
        from <= to <= v.len(),
    ensures
        r@ == join(v.deep_view().subrange(from as int, to as int), sep@),
{
    let mut out = String::new();
    let mut i = from;
    while i < to
        invariant
            from <= i <= to <= v.len(),
            out@ == join(v.deep_view().subrange(from as int, i as int), sep@),
        decreases to - i,
    {
        let ghost before = v.deep_view().subrange(from as int, i as int);
        if i > from {
            out.append(sep);
        }
        out.append(v[i].as_str());
        proof {
            let after = v.deep_view().subrange(from as int, i + 1);
            assert(after.drop_last() =~= before);
            assert(after.last() == v@[i as int]@);
            if i == from {
                assert(out@ =~= after[0]);
            }
        }
        i += 1;
    }
    out
}

/// Joins all of `v` with `sep`.
pub fn join_all(v: &Vec<String>, sep: &str) -> (r: String)
    ensures
        r@ == join(v.deep_view(), sep@),
{
    let r = join_range(v, 0, v.len(), sep);
    assert(v.deep_view().subrange(0, v.len() as int) =~= v.deep_view());
    r
}


// ── Building text ───────────────────────────────────────────────────────────

/// The pieces one after another.
pub open spec fn concat(parts: Seq<Seq<char>>) -> Seq<char>
    decreases parts.len(),
{
    if parts.len() == 0 {
        Seq::empty()
    } else {
        concat(parts.drop_last()) + parts.last()
    }
}

/// The views of string slices.
pub open spec fn strs_view(v: Seq<&str>) -> Seq<Seq<char>> {
    v.map_values(|p: &str| p@)
}

/// The pieces one after another.
pub fn glue(parts: &[&str]) -> (r: String)
    ensures
        r@ == concat(strs_view(parts@)),
{
    let mut out = String::new();
    for i in 0..parts.len()
        invariant
            out@ == concat(strs_view(parts@).take(i as int)),
    {
        assert(strs_view(parts@).take(i + 1).drop_last() =~= strs_view(parts@).take(i as int));
        out.append(parts[i]);
    }
    assert(strs_view(parts@).take(parts@.len() as int) =~= strs_view(parts@));
    out
}

/// `n` copies of `c`.
pub open spec fn repeat(c: char, n: nat) -> Seq<char> {
    Seq::new(n, |i: int| c)
}

/// `n` copies of `c`.
pub fn repeat_char(c: char, n: usize) -> (r: String)
    ensures
        r@ == repeat(c, n as nat),
{
    let mut out = String::new();
    for i in 0..n
        invariant
            out@ == repeat(c, i as nat),
    {
        push_char(&mut out, c);
        assert(out@ =~= repeat(c, (i + 1) as nat));
    }
    out
}

/// `s` padded with spaces on the right to `w` characters, as `{:<w}` does.
pub open spec fn pad_right(s: Seq<char>, w: nat) -> Seq<char> {
    if s.len() < w {
        s + repeat(' ', (w - s.len()) as nat)
    } else {
        s
    }
}

/// See `pad_right`.
pub fn pad_str(s: &str, w: usize) -> (r: String)
    ensures
        r@ == pad_right(s@, w as nat),
{
    let n = chars_of(s).len();
    let mut out = String::from_str(s);
    if n < w {
        out.append(repeat_char(' ', w - n).as_str());
    }
    out
}

/// The decimal digit for `d` (below ten).
pub open spec fn digit(d: nat) -> char {
    if d == 0 { '0' } else if d == 1 { '1' } else if d == 2 { '2' } else if d == 3 { '3' }
    else if d == 4 { '4' } else if d == 5 { '5' } else if d == 6 { '6' } else if d == 7 { '7' }
    else if d == 8 { '8' } else { '9' }
}

/// `n` in decimal, without leading zeros.
pub open spec fn decimal(n: nat) -> Seq<char>
    decreases n,
{
    if n < 10 {
        seq![digit(n)]
    } else {
        decimal(n / 10).push(digit(n % 10))
    }
}

fn digit_char(d: u128) -> (c: char)
    requires
        d < 10,
    ensures
        c == digit(d as nat),
{
    if d == 0 { '0' } else if d == 1 { '1' } else if d == 2 { '2' } else if d == 3 { '3' }
    else if d == 4 { '4' } else if d == 5 { '5' } else if d == 6 { '6' } else if d == 7 { '7' }
    else if d == 8 { '8' } else { '9' }
}

/// `n` in decimal.
pub fn decimal_string(n: u128) -> (r: String)
    ensures
        r@ == decimal(n as nat),
    decreases n,
{
    if n < 10 {
        let mut s = String::new();
        push_char(&mut s, digit_char(n));
        s
    } else {
        let mut s = decimal_string(n / 10);
        push_char(&mut s, digit_char(n % 10));
        s
    }
}

/// `n` in decimal, with a minus sign when negative.
pub open spec fn signed_decimal(n: int) -> Seq<char> {
    if n < 0 {
        seq!['-'] + decimal((-n) as nat)
    } else {
        decimal(n as nat)
    }
}

/// See `signed_decimal`.
pub fn signed_decimal_string(n: i64) -> (r: String)
    ensures
        r@ == signed_decimal(n as int),
{
    if n < 0 {
        let m: u128 = (0i128 - (n as i128)) as u128;
        let mut s = String::new();
        push_char(&mut s, '-');
        s.append(decimal_string(m).as_str());
        s
    } else {
        decimal_string(n as u128)
    }
}

} // verus!
