//! Stateful CPU collector: parses the kernel's aggregate CPU counter line,
//! counts cores, reads load averages, and computes differential usage
//! percentages against the previously retained sample.

use vstd::prelude::*;
use vstd::string::*;
use vstd::arithmetic::div_mod::{
    lemma_div_is_ordered, lemma_div_multiples_vanish, lemma_div_pos_is_pos,
    lemma_fundamental_div_mod, lemma_mod_bound,
};
use std::collections::HashMap;
use crate::errors::CollectorError;
use crate::model::{sat_sub, CheckStatus, CollectionResult, CpuSnapshot, MetricPayload};
use crate::text::{
    centi2_str, centi2_string, is_digit_c, lines_of, lines_str, parse_centi_spec, parse_centi_str,
    parse_u64_spec, parse_u64_str, pct1_str, pct1_string, split_ws, split_ws_str,
};

verus! {

/// Raw cumulative CPU tick counters from the aggregate counter line.
#[derive(Debug, Clone, Copy, PartialEq, Eq, Structural)]
pub struct CpuSample {
    pub user: u64,
    pub nice: u64,
    pub system: u64,
    pub idle: u64,
    pub iowait: u64,
    pub irq: u64,
    pub softirq: u64,
    pub steal: u64,
}

/// The mathematical sum of a sample's eight counters.
pub open spec fn sum_ticks(s: CpuSample) -> int {
    s.user + s.nice + s.system + s.idle + s.iowait + s.irq + s.softirq + s.steal
}

impl CpuSample {
    /// Sum of the eight counters.  The precondition only rules out a sum
    /// past the `u64` range (a machine limit); the collector itself sums
    /// in wider arithmetic.
    pub fn total(&self) -> (r: u64)
        requires
            sum_ticks(*self) <= u64::MAX,
        ensures
            r == sum_ticks(*self),
    {
        self.user + self.nice + self.system + self.idle + self.iowait + self.irq + self.softirq
            + self.steal
    }

    /// The same sum, wide enough never to overflow.
    fn total_wide(&self) -> (r: u128)
        ensures
            r == sum_ticks(*self),
    {
        self.user as u128 + self.nice as u128 + self.system as u128 + self.idle as u128
            + self.iowait as u128 + self.irq as u128 + self.softirq as u128 + self.steal as u128
    }
}

/// The counter name at position `i` of the aggregate line.
pub open spec fn cpu_field_name(i: int) -> Seq<char> {
    if i == 1 {
        "user"@
    } else if i == 2 {
        "nice"@
    } else if i == 3 {
        "system"@
    } else if i == 4 {
        "idle"@
    } else if i == 5 {
        "iowait"@
    } else if i == 6 {
        "irq"@
    } else if i == 7 {
        "softirq"@
    } else {
        "steal"@
    }
}

/// The first counter position whose token fails integer parsing, or 9.
pub open spec fn first_unparsable(ts: Seq<Seq<char>>) -> int {
    if parse_u64_spec(ts[1]) is None {
        1
    } else if parse_u64_spec(ts[2]) is None {
        2
    } else if parse_u64_spec(ts[3]) is None {
        3
    } else if parse_u64_spec(ts[4]) is None {
        4
    } else if parse_u64_spec(ts[5]) is None {
        5
    } else if parse_u64_spec(ts[6]) is None {
        6
    } else if parse_u64_spec(ts[7]) is None {
        7
    } else if parse_u64_spec(ts[8]) is None {
        8
    } else {
        9
    }
}

/// The parsed value of token `i`; zero where it does not parse.
pub open spec fn tok_val(ts: Seq<Seq<char>>, i: int) -> u64 {
    match parse_u64_spec(ts[i]) {
        Some(v) => v,
        None => 0,
    }
}

/// What parsing an aggregate CPU line yields: a sample from tokens 1..=8,
/// or the failing field's name with the offending text.
pub open spec fn parse_cpu_line_spec(line: Seq<char>) -> Result<CpuSample, (Seq<char>, Seq<char>)> {
    let ts = split_ws(line);
    if ts.len() < 9 {
        Err(("cpu"@, line))
    } else {
        let b = first_unparsable(ts);
        if b < 9 {
            Err((cpu_field_name(b), ts[b]))
        } else {
            Ok(
                CpuSample {
                    user: tok_val(ts, 1),
                    nice: tok_val(ts, 2),
                    system: tok_val(ts, 3),
                    idle: tok_val(ts, 4),
                    iowait: tok_val(ts, 5),
                    irq: tok_val(ts, 6),
                    softirq: tok_val(ts, 7),
                    steal: tok_val(ts, 8),
                },
            )
        }
    }
}

/// A per-core counter line: the prefix `cpu` followed immediately by an
/// ASCII digit, which distinguishes `cpu0`, `cpu1`, ... from the
/// aggregate line.
pub open spec fn is_core_line(l: Seq<char>) -> bool {
    l.len() >= 4 && l[0] == 'c' && l[1] == 'p' && l[2] == 'u' && is_digit_c(l[3])
}

/// How many of the lines are per-core counter lines.
pub open spec fn count_core_lines(ls: Seq<Seq<char>>) -> int
    decreases ls.len(),
{
    if ls.len() == 0 {
        0
    } else {
        count_core_lines(ls.drop_last()) + if is_core_line(ls.last()) {
            1int
        } else {
            0int
        }
    }
}

/// What parsing the load-average file yields: the first three tokens as
/// hundredths, or the failing average's name with the offending text.
pub open spec fn parse_loadavg_spec(content: Seq<char>) -> Result<
    (u64, u64, u64),
    (Seq<char>, Seq<char>),
> {
    let ts = split_ws(content);
    if ts.len() < 3 {
        Err(("loadavg"@, content))
    } else if parse_centi_spec(ts[0]) is None {
        Err(("1m"@, ts[0]))
    } else if parse_centi_spec(ts[1]) is None {
        Err(("5m"@, ts[1]))
    } else if parse_centi_spec(ts[2]) is None {
        Err(("15m"@, ts[2]))
    } else {
        match (parse_centi_spec(ts[0]), parse_centi_spec(ts[1]), parse_centi_spec(ts[2])) {
            (Some(a), Some(b), Some(c)) => Ok((a, b, c)),
            _ => Err(("loadavg"@, content)),
        }
    }
}

/// Saturating difference of one counter against the retained sample,
/// guarding against counter resets.
pub open spec fn tick_delta(c: u64, p: u64) -> int {
    sat_sub(c as int, p as int)
}

/// Saturating difference of the two samples' totals.
pub open spec fn total_delta(prev: CpuSample, curr: CpuSample) -> int {
    sat_sub(sum_ticks(curr), sum_ticks(prev))
}

/// Elapsed user ticks: user plus nice.
pub open spec fn d_user(prev: CpuSample, curr: CpuSample) -> int {
    tick_delta(curr.user, prev.user) + tick_delta(curr.nice, prev.nice)
}

/// Elapsed system ticks: system plus irq plus softirq.
pub open spec fn d_system(prev: CpuSample, curr: CpuSample) -> int {
    tick_delta(curr.system, prev.system) + tick_delta(curr.irq, prev.irq) + tick_delta(
        curr.softirq,
        prev.softirq,
    )
}

pub open spec fn d_iowait(prev: CpuSample, curr: CpuSample) -> int {
    tick_delta(curr.iowait, prev.iowait)
}

pub open spec fn d_idle(prev: CpuSample, curr: CpuSample) -> int {
    tick_delta(curr.idle, prev.idle)
}

/// A share of the elapsed ticks in hundredths of a percent, truncated,
/// and clamped at `u64::MAX` (the clamp is reachable only when a counter
/// difference dwarfs the total difference, near a counter wrap).
pub open spec fn pct_x100_of(d: int, td: int) -> int
    recommends
        td > 0,
{
    let v = d * 10000 / td;
    if v > u64::MAX {
        u64::MAX as int
    } else {
        v
    }
}

/// User share between two samples; zero when no time elapsed.
pub open spec fn user_pct(prev: CpuSample, curr: CpuSample) -> int {
    if total_delta(prev, curr) == 0 {
        0
    } else {
        pct_x100_of(d_user(prev, curr), total_delta(prev, curr))
    }
}

/// System share between two samples; zero when no time elapsed.
pub open spec fn system_pct(prev: CpuSample, curr: CpuSample) -> int {
    if total_delta(prev, curr) == 0 {
        0
    } else {
        pct_x100_of(d_system(prev, curr), total_delta(prev, curr))
    }
}

/// I/O-wait share between two samples; zero when no time elapsed.
pub open spec fn iowait_pct(prev: CpuSample, curr: CpuSample) -> int {
    if total_delta(prev, curr) == 0 {
        0
    } else {
        pct_x100_of(d_iowait(prev, curr), total_delta(prev, curr))
    }
}

/// Idle share between two samples; a full 100% when no time elapsed, so
/// a degenerate cycle reads as sane and non-alarming.
pub open spec fn idle_pct(prev: CpuSample, curr: CpuSample) -> int {
    if total_delta(prev, curr) == 0 {
        10000
    } else {
        pct_x100_of(d_idle(prev, curr), total_delta(prev, curr))
    }
}

/// The reported user share: zero on the first call, when no previous
/// sample exists yet.
pub open spec fn rep_user_pct(prev: Option<CpuSample>, curr: CpuSample) -> int {
    match prev {
        None => 0,
        Some(p) => user_pct(p, curr),
    }
}

pub open spec fn rep_system_pct(prev: Option<CpuSample>, curr: CpuSample) -> int {
    match prev {
        None => 0,
        Some(p) => system_pct(p, curr),
    }
}

pub open spec fn rep_iowait_pct(prev: Option<CpuSample>, curr: CpuSample) -> int {
    match prev {
        None => 0,
        Some(p) => iowait_pct(p, curr),
    }
}

/// The reported idle share: zero on the first call (its all-zero reading
/// is the documented baseline the caller is expected to discard).
pub open spec fn rep_idle_pct(prev: Option<CpuSample>, curr: CpuSample) -> int {
    match prev {
        None => 0,
        Some(p) => idle_pct(p, curr),
    }
}

/// CPU health from the exact tick ratios.  With elapsed ticks `td`,
/// iowait share above 30% is `10 * dio > 3 * td`, non-idle above 95% is
/// `td > 20 * did`, iowait above 10% is `10 * dio > td`, and non-idle
/// above 80% is `td > 5 * did`.  A first call reads as fully non-idle
/// (all its shares are zero) and classifies unhealthy; a zero-delta
/// cycle reads as fully idle and classifies healthy.
pub open spec fn cpu_status(prev: Option<CpuSample>, curr: CpuSample) -> CheckStatus {
    match prev {
        None => CheckStatus::Unhealthy,
        Some(p) => {
            let td = total_delta(p, curr);
            if td == 0 {
                CheckStatus::Healthy
            } else {
                let dio = d_iowait(p, curr);
                let did = d_idle(p, curr);
                if dio * 10 > 3 * td || td > 20 * did {
                    CheckStatus::Unhealthy
                } else if dio * 10 > td || td > 5 * did {
                    CheckStatus::Degraded
                } else {
                    CheckStatus::Healthy
                }
            }
        },
    }
}

/// The collector's one-line summary.
pub open spec fn cpu_message(u: int, sy: int, io: int, id: int, l1: int) -> Seq<char> {
    "user="@ + pct1_str(u) + "% sys="@ + pct1_str(sy) + "% iowait="@ + pct1_str(io) + "% idle="@
        + pct1_str(id) + "% load="@ + centi2_str(l1)
}

/// CPU metrics collector over the kernel's CPU counter table.
pub struct CpuCollector {
    prev_sample: Option<CpuSample>,
}

impl CpuCollector {
    /// The retained previous sample, the collector's only state.
    pub closed spec fn prev(&self) -> Option<CpuSample> {
        self.prev_sample
    }

    pub fn new() -> (r: Self)
        ensures
            r.prev() is None,
    {
        CpuCollector { prev_sample: None }
    }

    /// The collector's stable report key.
    pub fn name(&self) -> (r: &'static str)
        ensures
            r@ == "cpu"@,
    {
        "cpu"
    }

    /// Parses the aggregate CPU line: a leading label, then at least
    /// eight unsigned counters.
    pub fn parse_cpu_line(line: &str) -> (r: Result<CpuSample, CollectorError>)
        ensures
            match parse_cpu_line_spec(line@) {
                Ok(s) => r matches Ok(c) && c == s,
                Err((f, rawv)) => r matches Err(
                    CollectorError::ParseError { path, field, raw },
                ) && path@ == "/proc/stat"@ && field@ == f && raw@ == rawv,
            },
    {
        let parts = split_ws_str(line);
        if parts.len() < 9 {
            return Err(
                CollectorError::ParseError {
                    path: "/proc/stat".to_owned(),
                    field: "cpu".to_owned(),
                    raw: line.to_owned(),
                },
            );
        }
        let user = match Self::parse_tok(&parts, 1, "user") {
            Ok(v) => v,
            Err(e) => {
                return Err(e);
            },
        };
        let nice = match Self::parse_tok(&parts, 2, "nice") {
            Ok(v) => v,
            Err(e) => {
                return Err(e);
            },
        };
        let system = match Self::parse_tok(&parts, 3, "system") {
            Ok(v) => v,
            Err(e) => {
                return Err(e);
            },
        };
        let idle = match Self::parse_tok(&parts, 4, "idle") {
            Ok(v) => v,
            Err(e) => {
                return Err(e);
            },
        };
        let iowait = match Self::parse_tok(&parts, 5, "iowait") {
            Ok(v) => v,
            Err(e) => {
                return Err(e);
            },
        };
        let irq = match Self::parse_tok(&parts, 6, "irq") {
            Ok(v) => v,
            Err(e) => {
                return Err(e);
            },
        };
        let softirq = match Self::parse_tok(&parts, 7, "softirq") {
            Ok(v) => v,
            Err(e) => {
                return Err(e);
            },
        };
        let steal = match Self::parse_tok(&parts, 8, "steal") {
            Ok(v) => v,
            Err(e) => {
                return Err(e);
            },
        };
        Ok(CpuSample { user, nice, system, idle, iowait, irq, softirq, steal })
    }

    /// Parses one counter token, naming the field on failure.
    fn parse_tok(parts: &Vec<String>, idx: usize, name: &str) -> (r: Result<u64, CollectorError>)
        requires
            idx < parts@.len(),
        ensures
            match parse_u64_spec(parts.deep_view()[idx as int]) {
                Some(v) => r matches Ok(o) && o == v,
                None => r matches Err(CollectorError::ParseError { path, field, raw }) && path@
                    == "/proc/stat"@ && field@ == name@ && raw@ == parts.deep_view()[idx as int],
            },
    {
        proof {
            assert(parts.deep_view()[idx as int] == parts@[idx as int]@);
        }
        match parse_u64_str(parts[idx].as_str()) {
            Some(v) => Ok(v),
            None => Err(
                CollectorError::ParseError {
                    path: "/proc/stat".to_owned(),
                    field: name.to_owned(),
                    raw: parts[idx].clone(),
                },
            ),
        }
    }

    /// Counts per-core lines in the CPU counter table.  The result is
    /// narrowed to `u32`; the count is pinned whenever it fits, which it
    /// does for any table below four billion lines.
    pub fn count_cores(stat_content: &str) -> (r: u32)
        ensures
            count_core_lines(lines_of(stat_content@)) <= u32::MAX ==> r as int == count_core_lines(
                lines_of(stat_content@),
            ),
    {
        let ls = lines_str(stat_content);
        let n = ls.len();
        let mut count: usize = 0;
        let mut i: usize = 0;
        proof {
            assert(ls.deep_view().subrange(0, 0) =~= Seq::<Seq<char>>::empty());
        }
        while i < n
            invariant
                i <= n,
                n == ls.len(),
                ls.deep_view() == lines_of(stat_content@),
                count <= i,
                count == count_core_lines(ls.deep_view().subrange(0, i as int)),
            decreases n - i,
        {
            proof {
                assert(ls.deep_view()[i as int] == ls@[i as int]@);
                let pre = ls.deep_view().subrange(0, i + 1);
                assert(pre.drop_last() =~= ls.deep_view().subrange(0, i as int));
                assert(pre.last() == ls.deep_view()[i as int]);
            }
            let l = ls[i].as_str();
            if l.unicode_len() >= 4 {
                let c0 = l.get_char(0);
                let c1 = l.get_char(1);
                let c2 = l.get_char(2);
                let c3 = l.get_char(3);
                let u3 = c3 as u32;
                if c0 == 'c' && c1 == 'p' && c2 == 'u' && 48 <= u3 && u3 <= 57 {
                    count = count + 1;
                }
            }
            i = i + 1;
        }
        proof {
            assert(ls.deep_view().subrange(0, n as int) =~= ls.deep_view());
        }
        #[verifier::truncate] (count as u32)
    }

    /// Parses the load-average file: the first three whitespace-separated
    /// tokens as decimal numbers, kept in hundredths.
    pub fn parse_loadavg(content: &str) -> (r: Result<(u64, u64, u64), CollectorError>)
        ensures
            match parse_loadavg_spec(content@) {
                Ok(t) => r matches Ok(o) && o == t,
                Err((f, rawv)) => r matches Err(
                    CollectorError::ParseError { path, field, raw },
                ) && path@ == "/proc/loadavg"@ && field@ == f && raw@ == rawv,
            },
    {
        let parts = split_ws_str(content);
        if parts.len() < 3 {
            return Err(
                CollectorError::ParseError {
                    path: "/proc/loadavg".to_owned(),
                    field: "loadavg".to_owned(),
                    raw: content.to_owned(),
                },
            );
        }
        proof {
            assert(parts.deep_view()[0] == parts@[0]@);
            assert(parts.deep_view()[1] == parts@[1]@);
            assert(parts.deep_view()[2] == parts@[2]@);
        }
        let l1 = match parse_centi_str(parts[0].as_str()) {
            Some(v) => v,
            None => {
                return Err(
                    CollectorError::ParseError {
                        path: "/proc/loadavg".to_owned(),
                        field: "1m".to_owned(),
                        raw: parts[0].clone(),
                    },
                );
            },
        };
        let l5 = match parse_centi_str(parts[1].as_str()) {
            Some(v) => v,
            None => {
                return Err(
                    CollectorError::ParseError {
                        path: "/proc/loadavg".to_owned(),
                        field: "5m".to_owned(),
                        raw: parts[1].clone(),
                    },
                );
            },
        };
        let l15 = match parse_centi_str(parts[2].as_str()) {
            Some(v) => v,
            None => {
                return Err(
                    CollectorError::ParseError {
                        path: "/proc/loadavg".to_owned(),
                        field: "15m".to_owned(),
                        raw: parts[2].clone(),
                    },
                );
            },
        };
        Ok((l1, l5, l15))
    }
}

/// Divides `d * 10000` by `td`, clamped into `u64`.
fn pct_div(d: u128, td: u128) -> (r: u64)
    requires
        td > 0,
        d * 10000 <= u128::MAX,
    ensures
        r as int == pct_x100_of(d as int, td as int),
{
    let v = d * 10000 / td;
    if v > u64::MAX as u128 {
        u64::MAX
    } else {
        v as u64
    }
}

impl CpuCollector {
    /// One full collection cycle over already-read CPU counter and
    /// load-average tables: parse, difference against the retained
    /// sample, classify, summarize.  The current sample is retained
    /// whenever parsing succeeded, whether or not a previous sample
    /// existed; on any error the state is untouched.
    pub fn collect_from(&mut self, stat_content: &str, loadavg_content: &str) -> (r: Result<
        CollectionResult,
        CollectorError,
    >)
        ensures
            ({
                let ls = lines_of(stat_content@);
                if ls.len() == 0 {
                    (r matches Err(CollectorError::ParseError { path, field, raw }) && path@
                        == "/proc/stat"@ && field@ == "cpu_line"@ && raw@ == "empty file"@)
                        && final(self).prev() == old(self).prev()
                } else {
                    match parse_cpu_line_spec(ls[0]) {
                        Err((f, rawv)) => (r matches Err(
                            CollectorError::ParseError { path, field, raw },
                        ) && path@ == "/proc/stat"@ && field@ == f && raw@ == rawv) && final(self).prev()
                            == old(self).prev(),
                        Ok(curr) => match parse_loadavg_spec(loadavg_content@) {
                            Err((f, rawv)) => (r matches Err(
                                CollectorError::ParseError { path, field, raw },
                            ) && path@ == "/proc/loadavg"@ && field@ == f && raw@ == rawv)
                                && final(self).prev() == old(self).prev(),
                            Ok(loads) => (r matches Ok(cr) && cr.check_name@ == "cpu"@ && cr.status
                                == cpu_status(old(self).prev(), curr) && cr.message@ == cpu_message(
                                rep_user_pct(old(self).prev(), curr),
                                rep_system_pct(old(self).prev(), curr),
                                rep_iowait_pct(old(self).prev(), curr),
                                rep_idle_pct(old(self).prev(), curr),
                                loads.0 as int,
                            ) && cr.metadata@ == Map::<String, String>::empty() && cr.latency_us
                                == 0 && (cr.payload matches MetricPayload::Cpu(s)
                                && s.user_pct_x100 as int == rep_user_pct(old(self).prev(), curr)
                                && s.system_pct_x100 as int == rep_system_pct(
                                old(self).prev(),
                                curr,
                            ) && s.iowait_pct_x100 as int == rep_iowait_pct(old(self).prev(), curr)
                                && s.idle_pct_x100 as int == rep_idle_pct(old(self).prev(), curr)
                                && (count_core_lines(ls) <= u32::MAX ==> s.num_cores as int
                                == count_core_lines(ls)) && s.load_avg_1m_x100 == loads.0
                                && s.load_avg_5m_x100 == loads.1 && s.load_avg_15m_x100 == loads.2)
                                && final(self).prev() == Some(curr)),
                        },
                    }
                }
            }),
    {
        let ls = lines_str(stat_content);
        if ls.len() == 0 {
            return Err(
                CollectorError::ParseError {
                    path: "/proc/stat".to_owned(),
                    field: "cpu_line".to_owned(),
                    raw: "empty file".to_owned(),
                },
            );
        }
        proof {
            assert(ls.deep_view()[0] == ls@[0]@);
        }
        let current = match Self::parse_cpu_line(ls[0].as_str()) {
            Ok(s) => s,
            Err(e) => {
                return Err(e);
            },
        };
        let num_cores = Self::count_cores(stat_content);
        let loads = match Self::parse_loadavg(loadavg_content) {
            Ok(t) => t,
            Err(e) => {
                return Err(e);
            },
        };
        let (u_pct, sy_pct, io_pct, id_pct, status): (u64, u64, u64, u64, CheckStatus) =
            match self.prev_sample {
            Some(prev) => {
                let tc = current.total_wide();
                let tp = prev.total_wide();
                let td: u128 = if tc > tp {
                    tc - tp
                } else {
                    0
                };
                if td == 0 {
                    (0, 0, 0, 10000, CheckStatus::Healthy)
                } else {
                    let du = current.user.saturating_sub(prev.user) as u128
                        + current.nice.saturating_sub(prev.nice) as u128;
                    let ds = current.system.saturating_sub(prev.system) as u128
                        + current.irq.saturating_sub(prev.irq) as u128
                        + current.softirq.saturating_sub(prev.softirq) as u128;
                    let dio = current.iowait.saturating_sub(prev.iowait) as u128;
                    let did = current.idle.saturating_sub(prev.idle) as u128;
                    let st = if dio * 10 > 3 * td || td > 20 * did {
                        CheckStatus::Unhealthy
                    } else if dio * 10 > td || td > 5 * did {
                        CheckStatus::Degraded
                    } else {
                        CheckStatus::Healthy
                    };
                    (
                        pct_div(du, td),
                        pct_div(ds, td),
                        pct_div(dio, td),
                        pct_div(did, td),
                        st,
                    )
                }
            },
            None => (0, 0, 0, 0, CheckStatus::Unhealthy),
        };
        self.prev_sample = Some(current);
        let mut msg = "user=".to_owned();
        msg.append(pct1_string(u_pct).as_str());
        msg.append("% sys=");
        msg.append(pct1_string(sy_pct).as_str());
        msg.append("% iowait=");
        msg.append(pct1_string(io_pct).as_str());
        msg.append("% idle=");
        msg.append(pct1_string(id_pct).as_str());
        msg.append("% load=");
        msg.append(centi2_string(loads.0).as_str());
        proof {
            assert(msg@ =~= cpu_message(
                u_pct as int,
                sy_pct as int,
                io_pct as int,
                id_pct as int,
                loads.0 as int,
            ));
        }
        let snapshot = CpuSnapshot {
            user_pct_x100: u_pct,
            system_pct_x100: sy_pct,
            iowait_pct_x100: io_pct,
            idle_pct_x100: id_pct,
            num_cores,
            load_avg_1m_x100: loads.0,
            load_avg_5m_x100: loads.1,
            load_avg_15m_x100: loads.2,
        };
        Ok(
            CollectionResult {
                check_name: "cpu".to_owned(),
                status,
                message: msg,
                metadata: HashMap::new(),
                latency_us: 0,
                payload: MetricPayload::Cpu(snapshot),
            },
        )
    }
}

/// `x / n + y / n` never exceeds `(x + y) / n`.
proof fn lemma_div_sum_le(x: int, y: int, n: int)
    requires
        x >= 0,
        y >= 0,
        n > 0,
    ensures
        x / n + y / n <= (x + y) / n,
{
    lemma_fundamental_div_mod(x, n);
    lemma_fundamental_div_mod(y, n);
    lemma_mod_bound(x, n);
    lemma_mod_bound(y, n);
    let q = x / n + y / n;
    assert(n * (x / n + y / n) == n * (x / n) + n * (y / n)) by (nonlinear_arith);
    lemma_div_multiples_vanish(q, n);
    lemma_div_is_ordered(n * q, x + y, n);
}

/// Between two samples whose counters each moved forward and whose total
/// grew, every reported share is non-negative and the four shares sum to
/// at most 100%.
pub proof fn lemma_cpu_pcts_bounded(prev: CpuSample, curr: CpuSample)
    requires
        prev.user <= curr.user,
        prev.nice <= curr.nice,
        prev.system <= curr.system,
        prev.idle <= curr.idle,
        prev.iowait <= curr.iowait,
        prev.irq <= curr.irq,
        prev.softirq <= curr.softirq,
        prev.steal <= curr.steal,
        sum_ticks(prev) < sum_ticks(curr),
    ensures
        user_pct(prev, curr) >= 0,
        system_pct(prev, curr) >= 0,
        iowait_pct(prev, curr) >= 0,
        idle_pct(prev, curr) >= 0,
        user_pct(prev, curr) + system_pct(prev, curr) + iowait_pct(prev, curr) + idle_pct(
            prev,
            curr,
        ) <= 10000,
{
    let td = total_delta(prev, curr);
    let du = d_user(prev, curr);
    let ds = d_system(prev, curr);
    let dio = d_iowait(prev, curr);
    let did = d_idle(prev, curr);
    assert(td == sum_ticks(curr) - sum_ticks(prev));
    assert(du + ds + dio + did <= td);
    lemma_div_pos_is_pos(du * 10000, td);
    lemma_div_pos_is_pos(ds * 10000, td);
    lemma_div_pos_is_pos(dio * 10000, td);
    lemma_div_pos_is_pos(did * 10000, td);
    lemma_div_multiples_vanish(10000, td);
    lemma_div_is_ordered(du * 10000, td * 10000, td);
    lemma_div_is_ordered(ds * 10000, td * 10000, td);
    lemma_div_is_ordered(dio * 10000, td * 10000, td);
    lemma_div_is_ordered(did * 10000, td * 10000, td);
    lemma_div_sum_le(du * 10000, ds * 10000, td);
    lemma_div_sum_le(du * 10000 + ds * 10000, dio * 10000, td);
    lemma_div_sum_le(du * 10000 + ds * 10000 + dio * 10000, did * 10000, td);
    assert((du + ds + dio + did) * 10000 <= td * 10000);
    lemma_div_is_ordered((du + ds + dio + did) * 10000, td * 10000, td);
}

/// When no time elapsed between two samples, the reported shares are
/// exactly zero but for a full idle share.
pub proof fn lemma_cpu_pcts_no_elapsed(prev: CpuSample, curr: CpuSample)
    requires
        sum_ticks(curr) == sum_ticks(prev),
    ensures
        user_pct(prev, curr) == 0,
        system_pct(prev, curr) == 0,
        iowait_pct(prev, curr) == 0,
        idle_pct(prev, curr) == 10000,
{
}

} // verus!
