//! Build progress across the parallel architecture workers: the status of
//! each architecture group, the counts the JSON state file reports, and the
//! inline terminal progress line.
use vstd::prelude::*;

use crate::plugins::package_index::keyvalue::{kv_map, pairs_view};
use crate::text::{decimal, decimal_exec, string_of};

verus! {

/// Job outcome reported by a worker for one architecture group.
#[derive(Debug, Clone, Copy, PartialEq, Eq, Structural)]
pub enum Outcome {
    Completed,
    Failed,
}

/// The status text recorded for an outcome.
pub open spec fn outcome_status(o: Outcome) -> Seq<char> {
    match o {
        Outcome::Completed => "completed"@,
        Outcome::Failed => "failed"@,
    }
}

/// No key occurs twice.
pub open spec fn keys_unique(es: Seq<(Seq<char>, Seq<char>)>) -> bool {
    forall|i: int, j: int| 0 <= i < j < es.len() ==> (#[trigger] es[i]).0 != (#[trigger] es[j]).0
}

/// The entries after recording `status` for `arch`: the entry of `arch`
/// takes the new status in place, or a new entry is appended at the end.
pub open spec fn with_status(es: Seq<(Seq<char>, Seq<char>)>, arch: Seq<char>, status: Seq<char>) -> Seq<
    (Seq<char>, Seq<char>),
> {
    if exists|i: int| 0 <= i < es.len() && (#[trigger] es[i]).0 == arch {
        let i = choose|i: int| 0 <= i < es.len() && (#[trigger] es[i]).0 == arch;
        es.update(i, (arch, status))
    } else {
        es.push((arch, status))
    }
}

/// How many entries carry `status`.
pub open spec fn count_status(es: Seq<(Seq<char>, Seq<char>)>, status: Seq<char>) -> nat
    decreases es.len(),
{
    if es.len() == 0 {
        0
    } else {
        count_status(es.drop_last(), status) + if es.last().1 == status {
            1nat
        } else {
            0nat
        }
    }
}

/// How many entries carry none of the three known statuses.
pub open spec fn count_other(es: Seq<(Seq<char>, Seq<char>)>) -> nat
    decreases es.len(),
{
    if es.len() == 0 {
        0
    } else {
        count_other(es.drop_last()) + if es.last().1 != "completed"@ && es.last().1 != "failed"@
            && es.last().1 != "running"@ {
            1nat
        } else {
            0nat
        }
    }
}

/// Build progress: the architecture groups' statuses plus what the state
/// file and the progress line show.
#[derive(Debug, Clone)]
pub struct Progress {
    /// Where the JSON state file lives.
    pub file: String,
    pub total_archs: usize,
    pub package: String,
    pub version: String,
    /// arch -> status (`running`, `completed`, `failed`, `pending`), each
    /// arch once.
    pub states: Vec<(String, String)>,
    /// Whether the inline progress line is drawn.
    pub tty: bool,
    /// Length of the last drawn progress line.
    pub last_len: usize,
}

impl Progress {
    /// The recorded statuses as pairs.
    pub open spec fn entries(&self) -> Seq<(Seq<char>, Seq<char>)> {
        pairs_view(self.states@)
    }

    /// arch -> status.
    pub open spec fn status_map(&self) -> Map<Seq<char>, Seq<char>> {
        kv_map(self.entries())
    }

    /// Each architecture is recorded once.
    pub open spec fn wf(&self) -> bool {
        keys_unique(self.entries())
    }

    /// Start tracking `total_archs` architecture groups of `package`
    /// `version`; nothing has a status yet.
    pub fn new(total_archs: usize, version: &str, package: &str, file: String, tty: bool) -> (p:
        Self)
        ensures
            p.wf(),
            p.status_map() == Map::<Seq<char>, Seq<char>>::empty(),
            p.entries().len() == 0,
            p.total_archs == total_archs,
            p.version@ == version@,
            p.package@ == package@,
            p.file@ == file@,
            p.tty == tty,
            p.last_len == 0,
    {
        let p = Progress {
            file,
            total_archs,
            package: String::from_str(package),
            version: String::from_str(version),
            states: Vec::new(),
            tty,
            last_len: 0,
        };
        assert(p.entries() =~= Seq::<(Seq<char>, Seq<char>)>::empty());
        p
    }

    /// Record `status` for `arch` (replacing an earlier status).
    pub fn set_arch(&mut self, arch: &str, status: &str)
        requires
            old(self).wf(),
        ensures
            final(self).wf(),
            final(self).status_map() == old(self).status_map().insert(arch@, status@),
            final(self).entries() == with_status(old(self).entries(), arch@, status@),
            final(self).total_archs == old(self).total_archs,
            final(self).package == old(self).package,
            final(self).version == old(self).version,
            final(self).file == old(self).file,
            final(self).tty == old(self).tty,
            final(self).last_len == old(self).last_len,
    {
        let ghost es = self.entries();
        match index_of_key(&self.states, arch) {
            Some(i) => {
                self.states.set(i, (String::from_str(arch), String::from_str(status)));
                proof {
                    let c = choose|c: int| 0 <= c < es.len() && (#[trigger] es[c]).0 == arch@;
                    assert(es[i as int].0 == arch@);
                    if c != i as int {
                        if c < i as int {
                            assert(es[c].0 != es[i as int].0);
                        } else {
                            assert(es[i as int].0 != es[c].0);
                        }
                    }
                    assert(self.entries() =~= es.update(i as int, (arch@, status@)));
                    lemma_kv_map_update(es, i as int, arch@, status@);
                }
            },
            None => {
                self.states.push((String::from_str(arch), String::from_str(status)));
                assert(self.entries() =~= es.push((arch@, status@)));
                assert(self.entries().drop_last() =~= es);
                proof {
                    let n = self.entries();
                    assert forall|a: int, b: int| 0 <= a < b < n.len() implies (#[trigger] n[a]).0
                        != (#[trigger] n[b]).0 by {
                        if b == es.len() {
                            assert(es[a].0 != arch@);
                        } else {
                            assert(es[a].0 != es[b].0);
                        }
                    }
                }
            },
        }
    }

    /// Record a finished architecture group.
    pub fn finish_arch(&mut self, arch: &str, outcome: Outcome)
        requires
            old(self).wf(),
        ensures
            final(self).wf(),
            final(self).status_map() == old(self).status_map().insert(arch@, outcome_status(outcome)),
            final(self).entries() == with_status(old(self).entries(), arch@, outcome_status(outcome)),
            final(self).total_archs == old(self).total_archs,
            final(self).package == old(self).package,
            final(self).version == old(self).version,
            final(self).file == old(self).file,
            final(self).tty == old(self).tty,
            final(self).last_len == old(self).last_len,
    {
        match outcome {
            Outcome::Completed => self.set_arch(arch, "completed"),
            Outcome::Failed => self.set_arch(arch, "failed"),
        }
    }

    /// `(completed, failed, running, other)` over the recorded statuses.
    pub fn counts(&self) -> (r: (usize, usize, usize, usize))
        ensures
            r.0 == count_status(self.entries(), "completed"@),
            r.1 == count_status(self.entries(), "failed"@),
            r.2 == count_status(self.entries(), "running"@),
            r.3 == count_other(self.entries()),
            r.0 + r.1 + r.2 + r.3 == self.entries().len(),
    {
        proof {
            reveal_strlit("completed");
            reveal_strlit("failed");
            reveal_strlit("running");
        }
        let ghost es = self.entries();
        let completed = String::from_str("completed");
        let failed = String::from_str("failed");
        let running = String::from_str("running");
        let mut c: usize = 0;
        let mut f: usize = 0;
        let mut r: usize = 0;
        let mut o: usize = 0;
        let mut i: usize = 0;
        assert(es.take(0) =~= Seq::<(Seq<char>, Seq<char>)>::empty());
        while i < self.states.len()
            invariant
                i <= self.states@.len(),
                es == self.entries(),
                completed@ == "completed"@,
                failed@ == "failed"@,
                running@ == "running"@,
                c == count_status(es.take(i as int), "completed"@),
                f == count_status(es.take(i as int), "failed"@),
                r == count_status(es.take(i as int), "running"@),
                o == count_other(es.take(i as int)),
                c + f + r + o == i,
            decreases self.states@.len() - i,
        {
            assert(es.take(i + 1).drop_last() =~= es.take(i as int));
            proof {
                reveal_strlit("completed");
                reveal_strlit("failed");
                reveal_strlit("running");
                assert("completed"@[0] != "failed"@[0]);
                assert("completed"@[0] != "running"@[0]);
                assert("running"@[0] != "failed"@[0]);
                assert(es.take(i + 1).last() == es[i as int]);
                assert(es[i as int].1 == self.states@[i as int].1@);
            }
            let s = &self.states[i].1;
            if *s == completed {
                c = c + 1;
            } else if *s == failed {
                f = f + 1;
            } else if *s == running {
                r = r + 1;
            } else {
                o = o + 1;
            }
            i = i + 1;
        }
        assert(es.take(es.len() as int) =~= es);
        (c, f, r, o)
    }

    /// The `pending` count the state file reports: the groups not started
    /// yet plus those in an unknown status (saturating).
    pub fn pending_total(&self) -> (r: usize)
        ensures
            r == sat_add(
                sat_sub(
                    self.total_archs as int,
                    (count_status(self.entries(), "completed"@) + count_status(
                        self.entries(),
                        "failed"@,
                    ) + count_status(self.entries(), "running"@)) as int,
                ),
                count_other(self.entries()) as int,
            ),
    {
        let (c, f, r, o) = self.counts();
        let n = self.states.len();
        assert(self.entries().len() == n);
        let started = c + f + r;
        self.total_archs.saturating_sub(started).saturating_add(o)
    }

    /// The progress line (`\r  [bar] NN% (n/N), F failed`), with the
    /// number of running groups when there are any. The bar is 25 cells,
    /// filled in proportion to the finished groups.
    pub fn progress_line(&self) -> (r: String)
        requires
            (count_status(self.entries(), "completed"@) + count_status(self.entries(), "failed"@))
                * 100 <= usize::MAX,
            bar_fill(
                percent(
                    count_status(self.entries(), "completed"@) + count_status(self.entries(), "failed"@),
                    self.total_archs as nat,
                ),
            ) <= 25,
        ensures
            r@ == progress_line_of(
                count_status(self.entries(), "completed"@),
                count_status(self.entries(), "failed"@),
                count_status(self.entries(), "running"@),
                self.total_archs as nat,
            ),
    {
        let (c, f, r, _) = self.counts();
        let done = c + f;
        let pct: usize = if self.total_archs > 0 {
            (done * 100) / self.total_archs
        } else {
            100
        };
        assert(pct == percent(done as nat, self.total_archs as nat));
        let filled: usize = (pct * 25) / 100;
        assert(filled == bar_fill(pct as nat));
        let mut line = String::from_str("\r  [");
        let ghost head = line@;
        let mut k: usize = 0;
        while k < filled
            invariant
                k <= filled,
                line@ == head + repeat_char('\u{2588}', k as nat),
            decreases filled - k,
        {
            line.append("\u{2588}");
            proof {
                reveal_strlit("\u{2588}");
            }
            assert(repeat_char('\u{2588}', (k + 1) as nat) =~= repeat_char('\u{2588}', k as nat).push('\u{2588}'));
            k = k + 1;
        }
        let ghost mid = line@;
        let mut e: usize = 0;
        while e < 25 - filled
            invariant
                e <= 25 - filled,
                filled <= 25,
                line@ == mid + repeat_char('\u{2591}', e as nat),
            decreases 25 - filled - e,
        {
            line.append("\u{2591}");
            proof {
                reveal_strlit("\u{2591}");
            }
            assert(repeat_char('\u{2591}', (e + 1) as nat) =~= repeat_char('\u{2591}', e as nat).push('\u{2591}'));
            e = e + 1;
        }
        line.append("] ");
        let pd = crate::text::decimal_exec(pct as u64);
        let padded = pad3_exec(&pd);
        line.append(string_of(padded.as_slice()).as_str());
        line.append("% (");
        line.append(string_of(crate::text::decimal_exec(done as u64).as_slice()).as_str());
        line.append("/");
        line.append(string_of(crate::text::decimal_exec(self.total_archs as u64).as_slice()).as_str());
        line.append("), ");
        line.append(string_of(crate::text::decimal_exec(f as u64).as_slice()).as_str());
        line.append(" failed");
        if r > 0 {
            line.append(" building (");
            line.append(string_of(crate::text::decimal_exec(r as u64).as_slice()).as_str());
            line.append(" running)");
        }
        assert(line@ =~= progress_line_of(c as nat, f as nat, r as nat, self.total_archs as nat));
        line
    }
}

/// Where `key` is recorded in `states`, if anywhere.
fn index_of_key(states: &Vec<(String, String)>, key: &str) -> (r: Option<usize>)
    ensures
        match r {
            Some(i) => i < states@.len() && states@[i as int].0@ == key@,
            None => forall|j: int| 0 <= j < states@.len() ==> (#[trigger] states@[j]).0@ != key@,
        },
{
    let k = String::from_str(key);
    let mut i: usize = 0;
    while i < states.len()
        invariant
            i <= states@.len(),
            k@ == key@,
            forall|j: int| 0 <= j < i ==> (#[trigger] states@[j]).0@ != key@,
        decreases states@.len() - i,
    {
        if states[i].0 == k {
            return Some(i);
        }
        i = i + 1;
    }
    None
}

/// `a - b` floored at zero.
pub open spec fn sat_sub(a: int, b: int) -> int {
    if a >= b {
        a - b
    } else {
        0
    }
}

/// `a + b` capped at `usize::MAX`.
pub open spec fn sat_add(a: int, b: int) -> int {
    if a + b > usize::MAX {
        usize::MAX as int
    } else {
        a + b
    }
}

/// Writing the value of a present key in place is an insert.
pub proof fn lemma_kv_map_update(
    es: Seq<(Seq<char>, Seq<char>)>,
    i: int,
    k: Seq<char>,
    v: Seq<char>,
)
    requires
        0 <= i < es.len(),
        es[i].0 == k,
        keys_unique(es),
    ensures
        kv_map(es.update(i, (k, v))) == kv_map(es).insert(k, v),
        keys_unique(es.update(i, (k, v))),
    decreases es.len(),
{
    let u = es.update(i, (k, v));
    assert forall|a: int, b: int| 0 <= a < b < u.len() implies (#[trigger] u[a]).0 != (
    #[trigger] u[b]).0 by {
        assert(es[a].0 != es[b].0);
    }
    if i == es.len() - 1 {
        assert(u.drop_last() =~= es.drop_last());
        assert(kv_map(u) =~= kv_map(es).insert(k, v));
    } else {
        let d = es.drop_last();
        assert(keys_unique(d)) by {
            assert forall|a: int, b: int| 0 <= a < b < d.len() implies (#[trigger] d[a]).0 != (
            #[trigger] d[b]).0 by {
                assert(d[a] == es[a] && d[b] == es[b]);
            }
        }
        lemma_kv_map_update(d, i, k, v);
        assert(u.drop_last() =~= d.update(i, (k, v)));
        assert(u.last() == es.last());
        assert(es.last().0 != k) by {
            assert(es[es.len() - 1].0 != es[i].0);
        }
        assert(kv_map(u) =~= kv_map(es).insert(k, v));
    }
}

/// The share of finished groups, in percent (100 when there are none to
/// do).
pub open spec fn percent(done: nat, total: nat) -> nat {
    if total > 0 {
        done * 100 / total
    } else {
        100
    }
}

/// How many of the bar's 25 cells a percentage fills.
pub open spec fn bar_fill(pct: nat) -> nat {
    pct * 25 / 100
}

/// `n` copies of `c`.
pub open spec fn repeat_char(c: char, n: nat) -> Seq<char> {
    Seq::new(n, |i: int| c)
}

fn pad3_exec(v: &Vec<char>) -> (r: Vec<char>)
    ensures
        r@ == pad3(v@),
{
    let mut out: Vec<char> = Vec::new();
    if v.len() < 3 {
        let n = 3 - v.len();
        let mut k: usize = 0;
        while k < n
            invariant
                k <= n,
                out@ == repeat_char(' ', k as nat),
            decreases n - k,
        {
            out.push(' ');
            assert(out@ =~= repeat_char(' ', (k + 1) as nat));
            k = k + 1;
        }
    }
    crate::text::append_chars(&mut out, v.as_slice());
    assert(out@ =~= pad3(v@));
    out
}

/// A number right-aligned in three columns (`{:3}`).
pub open spec fn pad3(s: Seq<char>) -> Seq<char> {
    if s.len() < 3 {
        repeat_char(' ', (3 - s.len()) as nat) + s
    } else {
        s
    }
}

/// The progress line for `c` completed, `f` failed and `r` running groups
/// out of `total`.
pub open spec fn progress_line_of(c: nat, f: nat, r: nat, total: nat) -> Seq<char> {
    let done = c + f;
    let pct = percent(done, total);
    let fill = bar_fill(pct);
    "\r  ["@ + repeat_char('\u{2588}', fill) + repeat_char('\u{2591}', (25 - fill) as nat) + "] "@
        + pad3(crate::text::decimal(pct)) + "% ("@ + crate::text::decimal(done) + "/"@
        + crate::text::decimal(total) + "), "@ + crate::text::decimal(f) + " failed"@ + if r > 0 {
        " building ("@ + crate::text::decimal(r) + " running)"@
    } else {
        Seq::empty()
    }
}

} // verus!
