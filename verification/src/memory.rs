//! Stateless memory collector: parses the kernel's memory counter table,
//! derives used and swap figures with saturating subtraction, computes the
//! memory-pressure percentage and classifies the host's health.

use vstd::prelude::*;
use vstd::string::*;
use vstd::arithmetic::div_mod::{lemma_div_is_ordered, lemma_div_multiples_vanish};
use std::collections::HashMap;
use crate::errors::CollectorError;
use crate::model::{sat_sub, CheckStatus, CollectionResult, MemorySnapshot, MetricPayload};
use crate::text::{
    dec_str, lines_of, lines_str, parse_u64_spec, parse_u64_str, pct1_str, pct1_string, split_ws,
    split_ws_str, str_chars, u64_to_string,
};

verus! {

/// A map from counter-table field names to kibibyte values; a later
/// insertion of the same key wins, as in a hash map.
pub struct MemTable {
    entries: Vec<(String, u64)>,
}

/// The map an entry sequence denotes, later entries overriding earlier
/// ones.
pub open spec fn entries_map(es: Seq<(String, u64)>) -> Map<Seq<char>, u64>
    decreases es.len(),
{
    if es.len() == 0 {
        Map::empty()
    } else {
        entries_map(es.drop_last()).insert(es.last().0@, es.last().1)
    }
}

impl View for MemTable {
    type V = Map<Seq<char>, u64>;

    closed spec fn view(&self) -> Map<Seq<char>, u64> {
        entries_map(self.entries@)
    }
}

/// Entries past `i` do not mention `k`, so the map's verdict on `k` is the
/// prefix's verdict.
proof fn lemma_entries_map_skip(es: Seq<(String, u64)>, k: Seq<char>, i: int)
    requires
        0 <= i <= es.len(),
        forall|j: int| i <= j < es.len() ==> es[j].0@ != k,
    ensures
        entries_map(es).contains_key(k) == entries_map(es.subrange(0, i)).contains_key(k),
        entries_map(es).contains_key(k) ==> entries_map(es)[k] == entries_map(
            es.subrange(0, i),
        )[k],
    decreases es.len(),
{
    if i < es.len() {
        lemma_entries_map_skip(es.drop_last(), k, i);
        assert(es.drop_last().subrange(0, i) =~= es.subrange(0, i));
    } else {
        assert(es.subrange(0, i) =~= es);
    }
}

impl MemTable {
    /// The empty table.
    pub fn new() -> (r: MemTable)
        ensures
            r@ == Map::<Seq<char>, u64>::empty(),
    {
        MemTable { entries: Vec::new() }
    }

    /// Binds `key` to `val`, overriding any earlier binding.
    pub fn insert(&mut self, key: String, val: u64)
        ensures
            final(self)@ == old(self)@.insert(key@, val),
    {
        let ghost k = key@;
        self.entries.push((key, val));
        proof {
            assert(self.entries@.drop_last() =~= old(self).entries@);
        }
    }

    /// The value bound to `field`, if any.
    pub fn get(&self, field: &str) -> (r: Option<u64>)
        ensures
            r == if self@.contains_key(field@) {
                Some(self@[field@])
            } else {
                None::<u64>
            },
    {
        let f = field.to_owned();
        let n = self.entries.len();
        let mut i = n;
        while i > 0
            invariant
                i <= n,
                n == self.entries.len(),
                f@ == field@,
                forall|j: int| i <= j < n ==> self.entries@[j].0@ != field@,
            decreases i,
        {
            if self.entries[i - 1].0 == f {
                proof {
                    lemma_entries_map_skip(self.entries@, field@, i as int);
                    let pre = self.entries@.subrange(0, i as int);
                    assert(pre.last() == self.entries@[i - 1]);
                }
                return Some(self.entries[i - 1].1);
            }
            i = i - 1;
        }
        proof {
            lemma_entries_map_skip(self.entries@, field@, 0);
            assert(self.entries@.subrange(0, 0) =~= Seq::<(String, u64)>::empty());
        }
        None
    }
}

/// A field name with its trailing colons removed, as
/// `str::trim_end_matches(':')` leaves it.
pub open spec fn strip_colons(s: Seq<char>) -> Seq<char>
    decreases s.len(),
{
    if s.len() > 0 && s[s.len() - 1] == ':' {
        strip_colons(s.drop_last())
    } else {
        s
    }
}

/// Removes trailing colons from a field name.
fn strip_colons_string(s: &str) -> (r: String)
    ensures
        r@ == strip_colons(s@),
{
    let cs = str_chars(s);
    let n = cs.len();
    let mut e = n;
    proof {
        assert(s@.subrange(0, n as int) =~= s@);
    }
    while e > 0 && cs[e - 1] == ':'
        invariant
            e <= n,
            n == cs.len(),
            cs@ == s@,
            strip_colons(s@.subrange(0, e as int)) == strip_colons(s@),
        decreases e,
    {
        proof {
            assert(s@.subrange(0, e as int).drop_last() =~= s@.subrange(0, e - 1));
        }
        e = e - 1;
    }
    let r = s.substring_char(0, e).to_owned();
    r
}

/// The key/value entry a counter-table line yields, if any: at least two
/// whitespace-separated tokens, the second an unsigned integer.
pub open spec fn line_entry(l: Seq<char>) -> Option<(Seq<char>, u64)> {
    let ts = split_ws(l);
    if ts.len() >= 2 {
        match parse_u64_spec(ts[1]) {
            Some(v) => Some((strip_colons(ts[0]), v)),
            None => None,
        }
    } else {
        None
    }
}

/// The map a sequence of counter-table lines denotes; malformed lines are
/// skipped.
pub open spec fn meminfo_entries(ls: Seq<Seq<char>>) -> Map<Seq<char>, u64>
    decreases ls.len(),
{
    if ls.len() == 0 {
        Map::empty()
    } else {
        let m = meminfo_entries(ls.drop_last());
        match line_entry(ls.last()) {
            Some(e) => m.insert(e.0, e.1),
            None => m,
        }
    }
}

/// The field map of a whole memory counter table.
pub open spec fn meminfo_map(content: Seq<char>) -> Map<Seq<char>, u64> {
    meminfo_entries(lines_of(content))
}

/// A kibibyte field either is absent or converts to bytes without
/// overflowing.
pub open spec fn kb_fits(m: Map<Seq<char>, u64>, k: Seq<char>) -> bool {
    m.contains_key(k) ==> m[k] * 1024 <= u64::MAX
}

/// An optional kibibyte field in bytes, zero when absent.
pub open spec fn opt_bytes(m: Map<Seq<char>, u64>, k: Seq<char>) -> int {
    if m.contains_key(k) {
        m[k] * 1024
    } else {
        0
    }
}

/// Memory health: unhealthy above 95% pressure or above 80% of a
/// configured swap; degraded above 80% pressure; healthy otherwise.
pub open spec fn mem_status(total: int, used: int, swap_total: int, swap_used: int) -> CheckStatus {
    if used * 100 > 95 * total || (swap_total > 0 && swap_used > swap_total * 80 / 100) {
        CheckStatus::Unhealthy
    } else if used * 100 > 80 * total {
        CheckStatus::Degraded
    } else {
        CheckStatus::Healthy
    }
}

/// The memory pressure in hundredths of a percent: used over total, zero
/// on a degenerate zero total.
pub open spec fn pressure_x100(total: int, used: int) -> int {
    if total > 0 {
        used * 10000 / total
    } else {
        0
    }
}

/// The collector's one-line summary.
pub open spec fn mem_message(
    p_x100: int,
    used: int,
    total: int,
    swap_used: int,
    swap_total: int,
) -> Seq<char> {
    "used="@ + pct1_str(p_x100) + "% ("@ + dec_str(used / 1048576) + "/"@ + dec_str(
        total / 1048576,
    ) + " MB) swap="@ + dec_str(swap_used / 1048576) + "/"@ + dec_str(swap_total / 1048576)
        + " MB"@
}

/// Memory metrics collector reading the kernel's memory counter table.
pub struct MemoryCollector;

impl MemoryCollector {
    pub fn new() -> (r: Self) {
        MemoryCollector
    }

    /// The collector's stable report key.
    pub fn name(&self) -> (r: &'static str)
        ensures
            r@ == "memory"@,
    {
        "memory"
    }

    /// Parses a memory counter table into a field-to-kibibytes map.
    /// Lines without two tokens, or whose second token is no unsigned
    /// integer, are silently skipped.
    pub fn parse_meminfo(content: &str) -> (r: Result<MemTable, CollectorError>)
        ensures
            r matches Ok(t) && t@ == meminfo_map(content@),
    {
        let ls = lines_str(content);
        let mut table = MemTable::new();
        let mut i: usize = 0;
        proof {
            assert(ls.deep_view().subrange(0, 0) =~= Seq::<Seq<char>>::empty());
        }
        while i < ls.len()
            invariant
                i <= ls.len(),
                ls.deep_view() == lines_of(content@),
                table@ == meminfo_entries(ls.deep_view().subrange(0, i as int)),
            decreases ls.len() - i,
        {
            proof {
                assert(ls.deep_view()[i as int] == ls@[i as int]@);
            }
            let parts = split_ws_str(ls[i].as_str());
            if parts.len() >= 2 {
                proof {
                    assert(parts.deep_view()[1] == parts@[1]@);
                    assert(parts.deep_view()[0] == parts@[0]@);
                }
                match parse_u64_str(parts[1].as_str()) {
                    Some(v) => {
                        let key = strip_colons_string(parts[0].as_str());
                        table.insert(key, v);
                    },
                    None => {},
                }
            }
            proof {
                let pre = ls.deep_view().subrange(0, i + 1);
                assert(pre.drop_last() =~= ls.deep_view().subrange(0, i as int));
                assert(pre.last() == ls.deep_view()[i as int]);
            }
            i = i + 1;
        }
        proof {
            assert(ls.deep_view().subrange(0, ls.deep_view().len() as int) =~= ls.deep_view());
        }
        Ok(table)
    }

    /// One full collection cycle over an already-read memory counter
    /// table: parse, derive, classify, summarize.  `MemTotal` and
    /// `MemAvailable` are required; the swap fields default to zero.
    ///
    /// The preconditions only rule out kibibyte counts whose byte value
    /// would not fit a `u64` (a machine limit, not a policy).
    pub fn collect_from(&self, content: &str) -> (r: Result<CollectionResult, CollectorError>)
        requires
            kb_fits(meminfo_map(content@), "MemTotal"@),
            kb_fits(meminfo_map(content@), "MemAvailable"@),
            kb_fits(meminfo_map(content@), "SwapTotal"@),
            kb_fits(meminfo_map(content@), "SwapFree"@),
        ensures
            ({
                let m = meminfo_map(content@);
                if !m.contains_key("MemTotal"@) {
                    (r matches Err(CollectorError::ParseError { path, field, raw }) && path@
                        == "/proc/meminfo"@ && field@ == "MemTotal"@ && raw@
                        == "field not found"@)
                } else if !m.contains_key("MemAvailable"@) {
                    (r matches Err(CollectorError::ParseError { path, field, raw }) && path@
                        == "/proc/meminfo"@ && field@ == "MemAvailable"@ && raw@
                        == "field not found"@)
                } else {
                    let total = m["MemTotal"@] * 1024;
                    let available = m["MemAvailable"@] * 1024;
                    let swap_total = opt_bytes(m, "SwapTotal"@);
                    let swap_free = opt_bytes(m, "SwapFree"@);
                    let used = sat_sub(total, available);
                    let swap_used = sat_sub(swap_total, swap_free);
                    let p = pressure_x100(total, used);
                    (r matches Ok(cr) && cr.check_name@ == "memory"@ && cr.status == mem_status(
                        total,
                        used,
                        swap_total,
                        swap_used,
                    ) && cr.message@ == mem_message(p, used, total, swap_used, swap_total)
                        && cr.metadata@ == Map::<String, String>::empty() && cr.latency_us == 0 && (
                    cr.payload matches MetricPayload::Memory(s) && s.total_bytes == total
                        && s.available_bytes == available && s.used_bytes == used
                        && s.swap_total_bytes == swap_total && s.swap_used_bytes == swap_used
                        && s.memory_pressure_x100 == p))
                }
            }),
    {
        let map = match Self::parse_meminfo(content) {
            Ok(t) => t,
            Err(e) => {
                return Err(e);
            },
        };
        let total = match Self::get_bytes(&map, "MemTotal") {
            Ok(v) => v,
            Err(e) => {
                return Err(e);
            },
        };
        let available = match Self::get_bytes(&map, "MemAvailable") {
            Ok(v) => v,
            Err(e) => {
                return Err(e);
            },
        };
        let swap_total = match Self::get_bytes(&map, "SwapTotal") {
            Ok(v) => v,
            Err(_) => 0,
        };
        let swap_free = match Self::get_bytes(&map, "SwapFree") {
            Ok(v) => v,
            Err(_) => 0,
        };
        let used = total.saturating_sub(available);
        let swap_used = swap_total.saturating_sub(swap_free);
        let p: u64 = if total > 0 {
            let pw = (used as u128) * 10000 / (total as u128);
            proof {
                lemma_div_is_ordered(used * 10000, total * 10000, total as int);
                lemma_div_multiples_vanish(10000, total as int);
            }
            pw as u64
        } else {
            0
        };
        let status = if (used as u128) * 100 > 95 * (total as u128) || (swap_total > 0 && (
        swap_used as u128) > (swap_total as u128) * 80 / 100) {
            CheckStatus::Unhealthy
        } else if (used as u128) * 100 > 80 * (total as u128) {
            CheckStatus::Degraded
        } else {
            CheckStatus::Healthy
        };
        let mut msg = "used=".to_owned();
        msg.append(pct1_string(p).as_str());
        msg.append("% (");
        msg.append(u64_to_string(used / (1024 * 1024)).as_str());
        msg.append("/");
        msg.append(u64_to_string(total / (1024 * 1024)).as_str());
        msg.append(" MB) swap=");
        msg.append(u64_to_string(swap_used / (1024 * 1024)).as_str());
        msg.append("/");
        msg.append(u64_to_string(swap_total / (1024 * 1024)).as_str());
        msg.append(" MB");
        proof {
            assert(msg@ =~= mem_message(
                p as int,
                used as int,
                total as int,
                swap_used as int,
                swap_total as int,
            ));
        }
        let snapshot = MemorySnapshot {
            total_bytes: total,
            available_bytes: available,
            used_bytes: used,
            swap_total_bytes: swap_total,
            swap_used_bytes: swap_used,
            memory_pressure_x100: p,
        };
        Ok(
            CollectionResult {
                check_name: self.name().to_owned(),
                status,
                message: msg,
                metadata: HashMap::new(),
                latency_us: 0,
                payload: MetricPayload::Memory(snapshot),
            },
        )
    }

    /// Extracts a required field from the parsed table, converting
    /// kibibytes to bytes.
    pub fn get_bytes(map: &MemTable, field: &str) -> (r: Result<u64, CollectorError>)
        requires
            kb_fits(map@, field@),
        ensures
            map@.contains_key(field@) ==> (r matches Ok(v) && v == map@[field@] * 1024),
            !map@.contains_key(field@) ==> (r matches Err(
                CollectorError::ParseError { path, field: f, raw },
            ) && path@ == "/proc/meminfo"@ && f@ == field@ && raw@ == "field not found"@),
    {
        match map.get(field) {
            Some(kb) => Ok(kb * 1024),
            None => Err(
                CollectorError::ParseError {
                    path: "/proc/meminfo".to_owned(),
                    field: field.to_owned(),
                    raw: "field not found".to_owned(),
                },
            ),
        }
    }
}

} // verus!
