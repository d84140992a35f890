//! Diagnostics logging: the in-memory ring of recent log lines that the
//! Diagnostics panel tails, and the `tracing` filter directive for a level.
//!
//! Every rendered event is split into lines; each line loses its trailing
//! carriage returns and newlines, empty lines are skipped, and the ring keeps
//! the newest [`RING_CAP`] lines.
use std::collections::VecDeque;

use vstd::prelude::*;

use crate::config::{log_filter, LogLevel};
use crate::text::{copy_string, owned, push_char, push_str, views};

verus! {

/// Most recent lines kept in memory for the panel.
pub const RING_CAP: usize = 4000;

/// The newest log lines, oldest first.
pub struct LogRing {
    pub lines: VecDeque<String>,
}

impl View for LogRing {
    type V = Seq<Seq<char>>;

    open spec fn view(&self) -> Seq<Seq<char>> {
        self.lines@.map_values(|s: String| s@)
    }
}

/// `seg` without its trailing carriage returns.
pub open spec fn trim_cr(seg: Seq<char>) -> Seq<char>
    decreases seg.len(),
{
    if seg.len() > 0 && seg.last() == '\r' {
        trim_cr(seg.drop_last())
    } else {
        seg
    }
}

/// The line made of a segment, if it is not empty once trimmed.
pub open spec fn emit(seg: Seq<char>) -> Seq<Seq<char>> {
    if trim_cr(seg).len() > 0 {
        seq![trim_cr(seg)]
    } else {
        Seq::empty()
    }
}

/// The lines of `s` that follow a partial segment `cur`.
pub open spec fn lines_from(s: Seq<char>, cur: Seq<char>) -> Seq<Seq<char>>
    decreases s.len(),
{
    if s.len() == 0 {
        emit(cur)
    } else if s[0] == '\n' {
        emit(cur) + lines_from(s.drop_first(), Seq::empty())
    } else {
        lines_from(s.drop_first(), cur.push(s[0]))
    }
}

/// The lines that rendered text `s` adds to the ring: its newline-separated
/// pieces without trailing carriage returns, empty ones skipped.
pub open spec fn log_lines(s: Seq<char>) -> Seq<Seq<char>> {
    lines_from(s, Seq::empty())
}

/// The last `cap` elements of `s` (all of it when shorter).
pub open spec fn keep_last(s: Seq<Seq<char>>, cap: nat) -> Seq<Seq<char>> {
    if s.len() <= cap {
        s
    } else {
        s.subrange(s.len() - cap, s.len() as int)
    }
}

fn trimmed_line(cur: &Vec<char>) -> (r: String)
    ensures
        r@ == trim_cr(cur@),
{
    let mut n = cur.len();
    proof {
        assert(cur@.take(n as int) =~= cur@);
    }
    while n > 0 && cur[n - 1] == '\r'
        invariant
            n <= cur.len(),
            trim_cr(cur@) == trim_cr(cur@.take(n as int)),
        decreases n,
    {
        proof {
            assert(cur@.take(n as int).drop_last() =~= cur@.take(n - 1));
        }
        n = n - 1;
    }
    proof {
        if n > 0 {
            assert(cur@.take(n as int).last() == cur@[n - 1]);
        }
        assert(trim_cr(cur@.take(n as int)) == cur@.take(n as int));
        assert(cur@.take(n as int) =~= cur@.subrange(0, n as int));
    }
    crate::text::string_from_chars(cur, 0, n)
}

proof fn lemma_keep_last_push(s: Seq<Seq<char>>, x: Seq<char>, cap: nat)
    requires
        cap > 0,
    ensures
        keep_last(s, cap).len() <= cap,
        keep_last(s.push(x), cap) == (if keep_last(s, cap).len() >= cap {
            keep_last(s, cap).drop_first().push(x)
        } else {
            keep_last(s, cap).push(x)
        }),
{
    if s.len() >= cap {
        assert(keep_last(s.push(x), cap) =~= keep_last(s, cap).drop_first().push(x));
    }
}

/// Appends one line, dropping the oldest when the ring is full.
fn push_line(ring: &mut LogRing, line: String, Ghost(all): Ghost<Seq<Seq<char>>>)
    requires
        old(ring)@ == keep_last(all, RING_CAP as nat),
    ensures
        final(ring)@ == keep_last(all.push(line@), RING_CAP as nat),
{
    proof {
        lemma_keep_last_push(all, line@, RING_CAP as nat);
    }
    let ghost l = line@;
    if ring.lines.len() >= RING_CAP {
        ring.lines.pop_front();
    }
    ring.lines.push_back(line);
    proof {
        assert(ring@ =~= keep_last(all.push(l), RING_CAP as nat));
    }
}

impl LogRing {
    /// An empty ring.
    pub fn new() -> (r: LogRing)
        ensures
            r@ == Seq::<Seq<char>>::empty(),
    {
        LogRing { lines: VecDeque::new() }
    }
}

/// Records rendered text: each of its lines, in order, enters the ring, which
/// keeps the newest [`RING_CAP`] of them.
pub fn push_ring(ring: &mut LogRing, s: &str)
    requires
        old(ring)@.len() <= RING_CAP,
    ensures
        final(ring)@ == keep_last(old(ring)@ + log_lines(s@), RING_CAP as nat),
        final(ring)@.len() <= RING_CAP,
{
    let v = crate::text::chars_of(s);
    let ghost start = ring@;
    let ghost mut all = start;
    let mut cur: Vec<char> = Vec::new();
    let mut i: usize = 0;
    proof {
        assert(keep_last(start, RING_CAP as nat) =~= start);
        assert(v@.subrange(0, v@.len() as int) =~= v@);
        assert(all + lines_from(v@.subrange(0, v@.len() as int), cur@) =~= start + log_lines(s@));
    }
    while i < v.len()
        invariant
            i <= v.len(),
            v@ == s@,
            ring@ == keep_last(all, RING_CAP as nat),
            all + lines_from(v@.subrange(i as int, v@.len() as int), cur@) == start + log_lines(s@),
        decreases v.len() - i,
    {
        let c = v[i];
        let ghost rest = v@.subrange(i as int, v@.len() as int);
        proof {
            assert(rest.drop_first() =~= v@.subrange(i + 1, v@.len() as int));
            assert(rest[0] == c);
        }
        if c == '\n' {
            let line = trimmed_line(&cur);
            if line.as_str().is_empty() {
                proof {
                    assert(emit(cur@) =~= Seq::<Seq<char>>::empty());
                    assert(all + lines_from(v@.subrange(i + 1, v@.len() as int), Seq::empty()) =~= all + emit(cur@) + lines_from(v@.subrange(i + 1, v@.len() as int), Seq::empty()));
                }
            } else {
                let ghost l = line@;
                push_line(ring, line, Ghost(all));
                proof {
                    assert(emit(cur@) =~= seq![l]);
                    assert(all.push(l) + lines_from(v@.subrange(i + 1, v@.len() as int), Seq::empty()) =~= all + emit(cur@) + lines_from(v@.subrange(i + 1, v@.len() as int), Seq::empty()));
                    all = all.push(l);
                }
            }
            cur = Vec::new();
        } else {
            cur.push(c);
        }
        i = i + 1;
    }
    let line = trimmed_line(&cur);
    proof {
        assert(v@.subrange(v@.len() as int, v@.len() as int) =~= Seq::<char>::empty());
    }
    if !line.as_str().is_empty() {
        let ghost l = line@;
        push_line(ring, line, Ghost(all));
        proof {
            assert(emit(cur@) =~= seq![l]);
            assert(all.push(l) =~= all + emit(cur@));
            all = all.push(l);
        }
    } else {
        proof {
            assert(all =~= all + emit(cur@));
        }
    }
    proof {
        lemma_keep_last_push(all, Seq::empty(), RING_CAP as nat);
    }
}

/// The newest `n` lines, oldest first.
pub fn recent(ring: &LogRing, n: usize) -> (r: Vec<String>)
    ensures
        views(r@) == ring@.subrange(
            ring@.len() - (if n < ring@.len() { n as int } else { ring@.len() as int }),
            ring@.len() as int,
        ),
{
    let len = ring.lines.len();
    let skip = len.saturating_sub(n);
    let mut out: Vec<String> = Vec::new();
    let mut i = skip;
    while i < len
        invariant
            skip <= i <= len == ring.lines@.len(),
            skip == len - (if n < len { n as int } else { len as int }),
            views(out@) == ring@.subrange(skip as int, i as int),
        decreases len - i,
    {
        let ghost before = out@;
        out.push(copy_string(&ring.lines[i]));
        proof {
            assert(views(out@) =~= views(before).push(ring.lines@[i as int]@));
            assert(ring@.subrange(skip as int, i + 1) =~= ring@.subrange(skip as int, i as int).push(ring@[i as int]));
        }
        i = i + 1;
    }
    out
}

/// Drops the in-memory buffer.
pub fn clear(ring: &mut LogRing)
    ensures
        final(ring)@ == Seq::<Seq<char>>::empty(),
{
    ring.lines.clear();
    proof {
        assert(ring@ =~= Seq::<Seq<char>>::empty());
    }
}

/// Nanoseconds in a day.
pub const DAY_NANOS: u128 = 86_400_000_000_000;

/// The retention cutoff `days` days before `now` (nanoseconds since the Unix
/// epoch), or the epoch itself when that lies further back.
pub open spec fn retention_cutoff(now: nat, days: nat) -> nat {
    if now >= days * DAY_NANOS {
        (now - days * DAY_NANOS) as nat
    } else {
        0
    }
}

/// Whether a log file last modified at `modified` is past a retention of
/// `retention_days` at time `now` (both in nanoseconds since the Unix epoch):
/// it was last written before the cutoff. The file being written is always
/// freshly modified, so it is never expired.
pub fn is_expired(modified: u128, now: u128, retention_days: u32) -> (r: bool)
    ensures
        r == (modified < retention_cutoff(now as nat, retention_days as nat)),
{
    proof {
        assert(retention_days as nat * DAY_NANOS <= 0xffff_ffff * DAY_NANOS) by (nonlinear_arith)
            requires
                retention_days <= 0xffff_ffffu32,
        ;
    }
    let span = (retention_days as u128) * DAY_NANOS;
    let cutoff = if now >= span { now - span } else { 0 };
    modified < cutoff
}

/// Whether a file name has the extension `log` (`Path::extension`): a last
/// `.` that does not open the name, followed by `log`.
pub open spec fn is_log_name(name: Seq<char>) -> bool {
    name.len() > 4 && name.subrange(name.len() - 4, name.len() as int) == ".log"@
}

/// Whether a file name has the extension `log`.
pub fn is_log_file(name: &str) -> (r: bool)
    ensures
        r == is_log_name(name@),
{
    let v = crate::text::chars_of(name);
    let n = v.len();
    let r = n > 4 && v[n - 4] == '.' && v[n - 3] == 'l' && v[n - 2] == 'o' && v[n - 1] == 'g';
    proof {
        reveal_strlit(".log");
        if n > 4 {
            let t = name@.subrange(n - 4, n as int);
            if r {
                assert(t =~= ".log"@);
            } else if t == ".log"@ {
                assert(t[0] == v@[n - 4]);
                assert(t[1] == v@[n - 3]);
                assert(t[2] == v@[n - 2]);
                assert(t[3] == v@[n - 1]);
            }
        }
    }
    r
}

/// The sections of a log export, one per file in order: a `===== name =====`
/// line after an empty one, then the file's text (nothing when it could not
/// be read).
pub open spec fn export_sections(files: Seq<(String, Option<String>)>) -> Seq<char>
    decreases files.len(),
{
    if files.len() == 0 {
        Seq::empty()
    } else {
        export_sections(files.drop_last()) + "\n===== "@ + files.last().0@ + " =====\n"@ + match files.last().1 {
            Some(c) => c@,
            None => Seq::empty(),
        }
    }
}

/// The combined log export: the header and an empty line, then each log
/// file under its name.
pub fn export_text(header: &str, files: &Vec<(String, Option<String>)>) -> (r: String)
    ensures
        r@ == header@ + "\n\n"@ + export_sections(files@),
{
    let mut out = crate::text::owned(header);
    push_str(&mut out, "\n\n");
    let mut i: usize = 0;
    while i < files.len()
        invariant
            i <= files@.len(),
            out@ == header@ + "\n\n"@ + export_sections(files@.take(i as int)),
        decreases files@.len() - i,
    {
        let ghost before = out@;
        push_str(&mut out, "\n===== ");
        push_str(&mut out, files[i].0.as_str());
        push_str(&mut out, " =====\n");
        match &files[i].1 {
            Some(c) => push_str(&mut out, c.as_str()),
            None => {},
        }
        proof {
            let t = files@.take(i + 1);
            assert(t.drop_last() =~= files@.take(i as int));
            assert(t.last() == files@[i as int]);
            assert(out@ =~= header@ + "\n\n"@ + export_sections(t));
        }
        i = i + 1;
    }
    proof {
        assert(files@.take(i as int) =~= files@);
    }
    out
}

/// The `tracing` filter directive for a level: `off`, or `warn` for other
/// crates with the level applied to the app and the engine.
pub open spec fn filter_directive(level: LogLevel) -> Seq<char> {
    if level == LogLevel::Off {
        "off"@
    } else {
        "warn,polaris_et="@ + log_filter(level) + ",easytier="@ + log_filter(level)
    }
}

/// The filter directive for `level`.
pub fn env_filter_directive(level: LogLevel) -> (r: String)
    ensures
        r@ == filter_directive(level),
{
    match level {
        LogLevel::Off => owned("off"),
        l => {
            let f = l.as_filter();
            let mut s = owned("warn,polaris_et=");
            push_str(&mut s, f);
            push_str(&mut s, ",easytier=");
            push_str(&mut s, f);
            s
        },
    }
}

/// The log file being written is never deleted: a file modified now is not
/// past any retention. And a longer retention keeps every file a shorter one
/// keeps.
pub proof fn lemma_retention(now: nat, modified: nat, days: nat, longer: nat)
    requires
        days <= longer,
    ensures
        !(now < retention_cutoff(now, days)),
        !(modified < retention_cutoff(now, days)) ==> !(modified < retention_cutoff(now, longer)),
{
    assert(days * DAY_NANOS <= longer * DAY_NANOS) by (nonlinear_arith)
        requires
            days <= longer,
    ;
}

/// `x` without its trailing carriage returns and newlines
/// (`str::trim_end_matches(['\r', '\n'])`).
pub open spec fn trim_end_crlf(x: Seq<char>) -> Seq<char>
    decreases x.len(),
{
    if x.len() > 0 && (x.last() == '\r' || x.last() == '\n') {
        trim_end_crlf(x.drop_last())
    } else {
        x
    }
}

/// The lines a piece of text gives once trimmed: itself, or none when empty.
pub open spec fn piece_line(p: Seq<char>) -> Seq<Seq<char>> {
    if trim_end_crlf(p).len() > 0 {
        seq![trim_end_crlf(p)]
    } else {
        Seq::empty()
    }
}

/// The text cut after each newline (`str::split_inclusive('\n')`, the
/// current piece being `cur`), each piece trimmed of its trailing carriage
/// returns and newlines, empty ones dropped.
pub open spec fn inclusive_lines_from(s: Seq<char>, cur: Seq<char>) -> Seq<Seq<char>>
    decreases s.len(),
{
    if s.len() == 0 {
        if cur.len() == 0 {
            Seq::empty()
        } else {
            piece_line(cur)
        }
    } else if s[0] == '\n' {
        piece_line(cur.push('\n')) + inclusive_lines_from(s.drop_first(), Seq::empty())
    } else {
        inclusive_lines_from(s.drop_first(), cur.push(s[0]))
    }
}

proof fn lemma_trims_agree(x: Seq<char>)
    requires
        !x.contains('\n'),
    ensures
        trim_end_crlf(x) == trim_cr(x),
        trim_end_crlf(x.push('\n')) == trim_cr(x),
    decreases x.len(),
{
    assert(x.push('\n').drop_last() =~= x);
    if x.len() > 0 {
        assert(x.last() == x[x.len() - 1]);
        if x.last() == '\r' {
            assert(!x.drop_last().contains('\n')) by {
                if x.drop_last().contains('\n') {
                    let i = choose|i: int| 0 <= i < x.drop_last().len() && x.drop_last()[i] == '\n';
                    assert(x[i] == '\n');
                }
            }
            lemma_trims_agree(x.drop_last());
        }
    }
}

proof fn lemma_inclusive_lines(s: Seq<char>, cur: Seq<char>)
    requires
        !cur.contains('\n'),
    ensures
        inclusive_lines_from(s, cur) == lines_from(s, cur),
    decreases s.len(),
{
    lemma_trims_agree(cur);
    if s.len() > 0 {
        if s[0] == '\n' {
            lemma_inclusive_lines(s.drop_first(), Seq::empty());
        } else {
            assert(!cur.push(s[0]).contains('\n')) by {
                if cur.push(s[0]).contains('\n') {
                    let i = choose|i: int| 0 <= i < cur.push(s[0]).len() && cur.push(s[0])[i] == '\n';
                    if i < cur.len() {
                        assert(cur[i] == '\n');
                    }
                }
            }
            lemma_inclusive_lines(s.drop_first(), cur.push(s[0]));
        }
    }
}

/// The lines that text adds to the ring are its `split_inclusive('\n')`
/// pieces with trailing carriage returns and newlines trimmed, empty ones
/// dropped: `"x\r\n\ny"` adds `x` and `y`.
pub proof fn lemma_log_lines_split_inclusive(s: Seq<char>)
    ensures
        log_lines(s) == inclusive_lines_from(s, Seq::empty()),
{
    lemma_inclusive_lines(s, Seq::empty());
}

/// The ring never holds more than [`RING_CAP`] lines, and what it keeps is
/// always the newest lines recorded: pushing more text keeps the tail of
/// everything pushed so far.
pub proof fn lemma_ring_keeps_newest(before: Seq<Seq<char>>, text: Seq<char>, after: Seq<Seq<char>>)
    requires
        after == keep_last(before + log_lines(text), RING_CAP as nat),
    ensures
        after.len() <= RING_CAP,
        after.len() == (if (before + log_lines(text)).len() < RING_CAP { (before + log_lines(text)).len() } else { RING_CAP as nat }),
        after =~= (before + log_lines(text)).subrange((before + log_lines(text)).len() - after.len(), (before + log_lines(text)).len() as int),
{
}

} // verus!
