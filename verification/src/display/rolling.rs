use std::collections::VecDeque;
use vstd::prelude::*;

use super::ansi::{strip, strip_text, terminal_width, width_for};
use crate::text::{
    cat, chars_of, decimal, decimal_string, string_of_range, trim, trim_str,
};
use vstd::string::StringExecFns;

verus! {

/// How many lines the rolling window shows.
pub const MAX_LINES: usize = 10;

/// The prefix of each shown line when output is not a terminal.
pub open spec fn prefix_plain() -> Seq<char> {
    "   │ "@
}

/// The prefix of each shown line on a terminal (a red pipe).
pub open spec fn prefix_color() -> Seq<char> {
    "   \x1b[1;31m│\x1b[0m "@
}

/// A window of the last lines of a command's output, redrawn in place on a
/// terminal.
pub struct RollingDisplay {
    buf: VecDeque<String>,
    is_tty: bool,
    prefix: &'static str,
    col_width: usize,
    drawn: usize,
}

/// The state of the window as plain values.
pub struct RollingView {
    pub buf: Seq<Seq<char>>,
    pub is_tty: bool,
    pub prefix: Seq<char>,
    pub col_width: nat,
    pub drawn: nat,
}

impl View for RollingDisplay {
    type V = RollingView;

    closed spec fn view(&self) -> RollingView {
        RollingView {
            buf: self.buf@.map_values(|s: String| s@),
            is_tty: self.is_tty,
            prefix: self.prefix@,
            col_width: self.col_width as nat,
            drawn: self.drawn as nat,
        }
    }
}

/// The lines in the window, each with the prefix and a newline.
pub open spec fn window_text(prefix: Seq<char>, buf: Seq<Seq<char>>) -> Seq<char>
    decreases buf.len(),
{
    if buf.len() == 0 {
        Seq::empty()
    } else {
        window_text(prefix, buf.drop_last()) + prefix + buf.last() + "\n"@
    }
}

/// Adding `line` to the window keeps the last `MAX_LINES` lines.
pub open spec fn window_push(buf: Seq<Seq<char>>, line: Seq<char>) -> Seq<Seq<char>> {
    if buf.push(line).len() > 10 {
        buf.push(line).drop_first()
    } else {
        buf.push(line)
    }
}

/// What redrawing the window after adding `line` writes: cursor up over the
/// lines drawn before and clear to the end, then the whole window.
pub open spec fn push_line_text(st: RollingView, line: Seq<char>) -> Seq<char> {
    (if st.drawn > 0 {
        "\x1b["@ + decimal(st.drawn) + "A\x1b[J"@
    } else {
        Seq::empty()
    }) + window_text(st.prefix, window_push(st.buf, line))
}

/// The window after adding `line`.
pub open spec fn push_line_state(st: RollingView, line: Seq<char>) -> RollingView {
    RollingView {
        buf: window_push(st.buf, line),
        drawn: window_push(st.buf, line).len(),
        ..st
    }
}

/// Pieces of `s` of `width` characters each (the last may be shorter); the
/// whole of `s` when `width` is 0.
pub open spec fn wrap_text(s: Seq<char>, width: nat) -> Seq<Seq<char>>
    decreases s.len(),
{
    if width == 0 {
        seq![s]
    } else if s.len() == 0 {
        Seq::empty()
    } else if s.len() <= width {
        seq![s]
    } else {
        seq![s.take(width as int)] + wrap_text(s.skip(width as int), width)
    }
}

/// Splits `s` into pieces of `width` characters; see `wrap_text`.
pub fn wrap(s: &str, width: usize) -> (r: Vec<String>)
    ensures
        r.deep_view() == wrap_text(s@, width as nat),
{
    let mut result: Vec<String> = Vec::new();
    if width == 0 {
        result.push(s.to_string());
        assert(result.deep_view() =~= seq![s@]);
        return result;
    }
    let cs = chars_of(s);
    let mut i: usize = 0;
    assert(cs@.skip(0) =~= s@);
    assert(result.deep_view() + wrap_text(cs@.skip(0), width as nat) =~= wrap_text(s@, width as nat));
    while i < cs.len()
        invariant
            width > 0,
            cs@ == s@,
            i <= cs.len(),
            result.deep_view() + wrap_text(cs@.skip(i as int), width as nat) == wrap_text(s@, width as nat),
        decreases cs.len() - i,
    {
        let ghost before = result.deep_view();
        let ghost rest = cs@.skip(i as int);
        let end = if cs.len() - i <= width { cs.len() } else { i + width };
        result.push(string_of_range(&cs, i, end));
        proof {
            if rest.len() <= width {
                assert(cs@.subrange(i as int, end as int) =~= rest);
                assert(cs@.skip(end as int).len() == 0);
                assert(wrap_text(cs@.skip(end as int), width as nat) =~= Seq::<Seq<char>>::empty());
            } else {
                assert(cs@.subrange(i as int, end as int) =~= rest.take(width as int));
                assert(rest.skip(width as int) =~= cs@.skip(end as int));
            }
            assert(result.deep_view() =~= before.push(cs@.subrange(i as int, end as int)));
            assert(result.deep_view() + wrap_text(cs@.skip(end as int), width as nat) =~= before + wrap_text(rest, width as nat));
        }
        i = end;
    }
    assert(cs@.skip(i as int).len() == 0);
    assert(result.deep_view() + Seq::<Seq<char>>::empty() =~= result.deep_view());
    result
}

/// The part of `s` after its last carriage return (all of `s` when it has
/// none).
pub open spec fn after_last_cr(s: Seq<char>) -> Seq<char>
    decreases s.len(),
{
    if s.len() == 0 {
        s
    } else if s.last() == '\r' {
        Seq::empty()
    } else {
        after_last_cr(s.drop_last()).push(s.last())
    }
}

/// `s` without trailing carriage returns.
pub open spec fn trim_crs(s: Seq<char>) -> Seq<char>
    decreases s.len(),
{
    if s.len() > 0 && s.last() == '\r' {
        trim_crs(s.drop_last())
    } else {
        s
    }
}

/// The text shown for a raw output line on a terminal: trailing `\r`s cut,
/// only what follows the last `\r` kept, escapes removed.
pub open spec fn shown_line(raw: Seq<char>) -> Seq<char> {
    strip_text(after_last_cr(trim_crs(raw)))
}

fn visible_part(raw: &str) -> (r: String)
    ensures
        r@ == after_last_cr(trim_crs(raw@)),
{
    let cs = chars_of(raw);
    let mut n = cs.len();
    assert(cs@.take(n as int) == cs@);
    while n > 0 && cs[n - 1] == '\r'
        invariant
            n <= cs.len(),
            cs@ == raw@,
            trim_crs(raw@) == trim_crs(cs@.take(n as int)),
        decreases n,
    {
        assert(cs@.take(n as int).drop_last() == cs@.take(n - 1));
        n -= 1;
    }
    let ghost t = cs@.take(n as int);
    assert(trim_crs(t) == t) by {
        if n > 0 {
            assert(t.last() == cs@[n - 1]);
        }
    }
    let mut start = n;
    while start > 0 && cs[start - 1] != '\r'
        invariant
            start <= n <= cs.len(),
            t == cs@.take(n as int),
            after_last_cr(t) == after_last_cr(cs@.take(start as int)) + cs@.subrange(start as int, n as int),
        decreases start,
    {
        let ghost u = cs@.take(start as int);
        assert(u.drop_last() == cs@.take(start - 1));
        assert(u.last() == cs@[start - 1]);
        assert(cs@.subrange(start - 1, n as int) =~= seq![cs@[start - 1]] + cs@.subrange(start as int, n as int));
        assert(after_last_cr(u) == after_last_cr(cs@.take(start - 1)).push(cs@[start - 1]));
        assert(after_last_cr(cs@.take(start - 1)).push(cs@[start - 1]) + cs@.subrange(start as int, n as int)
            =~= after_last_cr(cs@.take(start - 1)) + cs@.subrange(start - 1, n as int));
        start -= 1;
    }
    proof {
        let u = cs@.take(start as int);
        if start > 0 {
            assert(u.last() == cs@[start - 1]);
            assert(after_last_cr(u) == Seq::<char>::empty());
        } else {
            assert(after_last_cr(u) == Seq::<char>::empty());
        }
        assert(Seq::<char>::empty() + cs@.subrange(start as int, n as int) =~= cs@.subrange(start as int, n as int));
    }
    string_of_range(&cs, start, n)
}

impl RollingDisplay {
    /// The window holds at most `MAX_LINES` lines, and the count drawn is
    /// the count held.
    pub closed spec fn wf(self) -> bool {
        &&& self.buf@.len() <= 10
        &&& self.drawn == self.buf@.len()
    }

    /// A window for output that is a terminal when `is_tty`, laid out for
    /// `width` columns.
    pub fn with_width(is_tty: bool, width: usize) -> (r: RollingDisplay)
        ensures
            r.wf(),
            r@ == (RollingView {
                buf: Seq::empty(),
                is_tty,
                prefix: if is_tty { prefix_color() } else { prefix_plain() },
                col_width: if width >= 5 { (width - 5) as nat } else { 0 },
                drawn: 0,
            }),
    {
        let prefix: &'static str = if is_tty { "   \x1b[1;31m│\x1b[0m " } else { "   │ " };
        let col_width = if width >= 5 { width - 5 } else { 0 };
        let d = RollingDisplay { buf: VecDeque::with_capacity(MAX_LINES + 1), is_tty, prefix, col_width, drawn: 0 };
        assert(d@.buf =~= Seq::<Seq<char>>::empty());
        d
    }

    /// A window laid out for the current terminal.
    pub fn new(is_tty: bool) -> (r: RollingDisplay)
        ensures
            r@.buf == Seq::<Seq<char>>::empty(),
            r@.is_tty == is_tty,
            r@.prefix == if is_tty { prefix_color() } else { prefix_plain() },
            exists|c: Option<u16>|
                r@.col_width == (if width_for(c) >= 5 { (width_for(c) - 5) as nat } else { 0 }),
            r@.drawn == 0,
            r.wf(),
    {
        let w = terminal_width();
        Self::with_width(is_tty, w)
    }

    /// The state of the window.
    pub fn lines(&self) -> (r: Vec<String>)
        requires
            self.wf(),
        ensures
            r.deep_view() == self@.buf,
            r@.len() <= MAX_LINES,
    {
        let mut out: Vec<String> = Vec::new();
        for i in 0..self.buf.len()
            invariant
                out.len() == i,
                i <= self.buf@.len(),
                forall|j: int| 0 <= j < i ==> #[trigger] out@[j]@ == self.buf@[j]@,
        {
            out.push(self.buf[i].clone());
        }
        assert(out.deep_view() =~= self@.buf);
        out
    }

    fn push_line(&mut self, line: String) -> (out: String)
        requires
            old(self).wf(),
        ensures
            final(self).wf(),
            out@ == push_line_text(old(self)@, line@),
            final(self)@ == push_line_state(old(self)@, line@),
    {
        let mut out = String::new();
        if self.drawn > 0 {
            out.append("\x1b[");
            out.append(decimal_string(self.drawn as u128).as_str());
            out.append("A\x1b[J");
        }
        let ghost head = out@;
        let ghost line_v = line@;
        let ghost old_buf = self@.buf;
        self.buf.push_back(line);
        if self.buf.len() > MAX_LINES {
            let _ = self.buf.pop_front();
        }
        proof {
            assert(self.buf@.map_values(|s: String| s@) =~= window_push(old_buf, line_v));
        }
        let n = self.buf.len();
        let ghost nb = self.buf@.map_values(|s: String| s@);
        for i in 0..n
            invariant
                n == self.buf@.len(),
                nb == self.buf@.map_values(|s: String| s@),
                out@ == head + window_text(self.prefix@, nb.take(i as int)),
        {
            assert(nb.take(i + 1).drop_last() =~= nb.take(i as int));
            out.append(self.prefix);
            out.append(self.buf[i].as_str());
            out.append("\n");
        }
        assert(nb.take(n as int) =~= nb);
        self.drawn = n;
        out
    }

    /// Takes one raw line of a command's output and gives back what to write
    /// to standard output: off a terminal, the line itself; on a terminal,
    /// the redrawn window for each piece of the shown line (nothing for a
    /// blank line).
    pub fn feed(&mut self, raw: &str) -> (out: String)
        requires
            old(self).wf(),
        ensures
            final(self).wf(),
            !old(self)@.is_tty ==> out@ == raw@ + "\n"@ && final(self)@ == old(self)@,
            old(self)@.is_tty && trim(shown_line(raw@)).len() == 0 ==> out@.len() == 0 && final(self)@ == old(self)@,
            old(self)@.is_tty && trim(shown_line(raw@)).len() > 0 ==> feed_result(
                old(self)@,
                wrap_text(shown_line(raw@), old(self)@.col_width),
            ) == (out@, final(self)@),
    {
        if !self.is_tty {
            return cat(raw, "\n");
        }
        let line = visible_part(raw);
        let plain = strip(line.as_str());
        assert(plain@ == shown_line(raw@));
        if trim_str(plain.as_str()).as_str().is_empty() {
            return String::new();
        }
        let chunks = wrap(plain.as_str(), self.col_width);
        let ghost start = self@;
        let mut out = String::new();
        let mut chunks = chunks;
        let ghost all = chunks.deep_view();
        let mut taken: Vec<String> = Vec::new();
        while chunks.len() > 0
            invariant
                all == taken.deep_view() + chunks.deep_view(),
                feed_result(start, taken.deep_view()) == (out@, self@),
                self.wf(),
            decreases chunks.len(),
        {
            let chunk = chunks.remove(0);
            let ghost cv = chunk@;
            let ghost prev_taken = taken.deep_view();
            taken.push(chunk.clone());
            let piece = self.push_line(chunk);
            out.append(piece.as_str());
            proof {
                assert(taken.deep_view() =~= prev_taken.push(cv));
                assert(taken.deep_view().drop_last() =~= prev_taken);
            }
        }
        assert(taken.deep_view() =~= all);
        out
    }
}

/// Feeding pieces one after another: everything written, and the window
/// after.
pub open spec fn feed_result(st: RollingView, pieces: Seq<Seq<char>>) -> (Seq<char>, RollingView)
    decreases pieces.len(),
{
    if pieces.len() == 0 {
        (Seq::empty(), st)
    } else {
        let (out, s1) = feed_result(st, pieces.drop_last());
        (out + push_line_text(s1, pieces.last()), push_line_state(s1, pieces.last()))
    }
}

/// The window never holds more than `MAX_LINES` lines, and after a redraw it
/// holds the last lines added, oldest first.
pub proof fn law_window_keeps_last(buf: Seq<Seq<char>>, line: Seq<char>)
    requires
        buf.len() <= 10,
    ensures
        window_push(buf, line).len() <= 10,
        window_push(buf, line).last() == line,
        window_push(buf, line) == buf.push(line).subrange(
            buf.push(line).len() - window_push(buf, line).len(),
            buf.push(line).len() as int,
        ),
{
    let p = buf.push(line);
    if p.len() > 10 {
        assert(p.drop_first() =~= p.subrange(1, p.len() as int));
    } else {
        assert(p =~= p.subrange(0, p.len() as int));
    }
}

} // verus!
