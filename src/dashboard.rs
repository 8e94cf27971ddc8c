//! The snapshot of system metrics and the text that the dashboard shows for it.
use crate::decimal::{
    centi_text, decimal_text, digits_of, lemma_mib_centi_monotone, mib_centi, mib_centi_of,
    push_centi,
};
use vstd::prelude::*;

verus! {

/// One process as the metrics provider reports it.
pub struct ProcessSample {
    pub pid: u32,
    /// The name, already decoded (lossily, where the platform's encoding is
    /// not UTF-8).
    pub name: String,
    /// CPU usage in hundredths of a percent, as the provider normalises it.
    pub cpu_centi: u64,
    /// Resident memory in kibibytes.
    pub memory_kb: u64,
}

/// One read of the host's metrics.
pub struct SystemSnapshot {
    /// Global CPU usage in hundredths of a percent.
    pub cpu_centi: u64,
    pub used_memory_kb: u64,
    pub total_memory_kb: u64,
    pub processes: Vec<ProcessSample>,
}

/// The four cells of one line of the process table.
pub struct DisplayRow {
    pub pid_text: String,
    pub name_text: String,
    pub cpu_text: String,
    pub memory_text: String,
}

/// Everything the screen shows for one snapshot.
pub struct Dashboard {
    pub cpu_line: String,
    pub memory_line: String,
    pub rows: Vec<DisplayRow>,
}

/// `c` hundredths of a percent, as "12.34%".
pub open spec fn percent_text(c: nat) -> Seq<char> {
    centi_text(c) + "%"@
}

/// `kb` kibibytes, as mebibytes with two places: "12.34 MB".
pub open spec fn memory_text(kb: nat) -> Seq<char> {
    centi_text(mib_centi(kb)) + " MB"@
}

pub open spec fn cpu_summary(c: nat) -> Seq<char> {
    "CPU Usage: "@ + centi_text(c) + "%"@
}

pub open spec fn memory_summary(used_kb: nat, total_kb: nat) -> Seq<char> {
    "Memory Usage: "@ + centi_text(mib_centi(used_kb)) + " / "@ + centi_text(mib_centi(total_kb))
        + " MB"@
}

/// The row shows the process.
pub open spec fn row_shows(r: DisplayRow, p: ProcessSample) -> bool {
    &&& r.pid_text@ == digits_of(p.pid as nat)
    &&& r.name_text@ == p.name@
    &&& r.cpu_text@ == percent_text(p.cpu_centi as nat)
    &&& r.memory_text@ == memory_text(p.memory_kb as nat)
}

/// In the table, process `i` stands above process `j`: it uses more memory,
/// or as much and came first in the snapshot.
pub open spec fn shown_before(ps: Seq<ProcessSample>, i: int, j: int) -> bool {
    ||| ps[i].memory_kb > ps[j].memory_kb
    ||| (ps[i].memory_kb == ps[j].memory_kb && i < j)
}

/// `order` lists every index of `ps` once, by memory use from the largest
/// down, ties in the snapshot's order.
pub open spec fn is_memory_order(ps: Seq<ProcessSample>, order: Seq<usize>) -> bool {
    &&& order.len() == ps.len()
    &&& forall|a: int| 0 <= a < order.len() ==> order[a] < ps.len()
    &&& forall|i: usize| i < ps.len() ==> #[trigger] order.contains(i)
    &&& order.no_duplicates()
    &&& forall|a: int, b: int|
        0 <= a < b < order.len() ==> shown_before(ps, order[a] as int, order[b] as int)
}

/// The rows show the processes of `ps` in the order `order`.
pub open spec fn rows_follow(
    ps: Seq<ProcessSample>,
    order: Seq<usize>,
    rows: Seq<DisplayRow>,
) -> bool {
    &&& rows.len() == order.len()
    &&& forall|a: int| 0 <= a < rows.len() ==> row_shows(rows[a], ps[order[a] as int])
}

/// `d` is what the screen shows for `s`.
pub open spec fn presents(s: SystemSnapshot, d: Dashboard) -> bool {
    &&& d.cpu_line@ == cpu_summary(s.cpu_centi as nat)
    &&& d.memory_line@ == memory_summary(s.used_memory_kb as nat, s.total_memory_kb as nat)
    &&& exists|order: Seq<usize>|
        is_memory_order(s.processes@, order) && rows_follow(s.processes@, order, d.rows@)
}

/// The summary line of CPU usage: "CPU Usage: 12.34%".
pub fn cpu_usage_line(cpu_centi: u64) -> (r: String)
    ensures
        r@ == cpu_summary(cpu_centi as nat),
{
    let mut s = String::from_str("CPU Usage: ");
    push_centi(&mut s, cpu_centi);
    s.append("%");
    s
}

/// The summary line of memory use: "Memory Usage: 8192.00 / 16384.00 MB".
pub fn memory_usage_line(used_kb: u64, total_kb: u64) -> (r: String)
    ensures
        r@ == memory_summary(used_kb as nat, total_kb as nat),
{
    let mut s = String::from_str("Memory Usage: ");
    push_centi(&mut s, mib_centi_of(used_kb));
    s.append(" / ");
    push_centi(&mut s, mib_centi_of(total_kb));
    s.append(" MB");
    s
}

/// The table row of one process.
pub fn display_row(p: &ProcessSample) -> (r: DisplayRow)
    ensures
        row_shows(r, *p),
{
    let mut cpu = String::new();
    push_centi(&mut cpu, p.cpu_centi);
    cpu.append("%");
    let mut memory = String::new();
    push_centi(&mut memory, mib_centi_of(p.memory_kb));
    memory.append(" MB");
    proof {
        assert(cpu@ =~= percent_text(p.cpu_centi as nat));
        assert(memory@ =~= memory_text(p.memory_kb as nat));
    }
    DisplayRow {
        pid_text: decimal_text(p.pid as u64),
        name_text: p.name.clone(),
        cpu_text: cpu,
        memory_text: memory,
    }
}


/// The indices of `ps` by memory use from the largest down; processes that use
/// as much memory keep their order in `ps`. The comparison is on the numeric
/// memory use, never on its text.
pub fn memory_order(ps: &Vec<ProcessSample>) -> (order: Vec<usize>)
    ensures
        is_memory_order(ps@, order@),
{
    let n = ps.len();
    let mut order: Vec<usize> = Vec::new();
    let mut k: usize = 0;
    while k < n
        invariant
            n == ps@.len(),
            k <= n,
            order@.len() == k,
            forall|a: int| 0 <= a < order@.len() ==> order@[a] < k,
            forall|i: usize| i < k ==> #[trigger] order@.contains(i),
            order@.no_duplicates(),
            forall|a: int, b: int|
                0 <= a < b < order@.len() ==> shown_before(
                    ps@,
                    order@[a] as int,
                    order@[b] as int,
                ),
        decreases n - k,
    {
        let mut pos: usize = 0;
        while pos < k && ps[order[pos]].memory_kb >= ps[k].memory_kb
            invariant
                n == ps@.len(),
                k < n,
                pos <= k,
                order@.len() == k,
                forall|a: int| 0 <= a < order@.len() ==> order@[a] < k,
                forall|a: int| 0 <= a < pos ==> shown_before(ps@, order@[a] as int, k as int),
            decreases k - pos,
        {
            pos += 1;
        }
        proof {
            assert forall|a: int| pos <= a < k implies shown_before(
                ps@,
                k as int,
                order@[a] as int,
            ) by {
                if pos < a {
                    assert(shown_before(ps@, order@[pos as int] as int, order@[a] as int));
                }
            }
        }
        let ghost prev = order@;
        order.insert(pos, k);
        proof {
            assert(order@ == prev.insert(pos as int, k));
            assert forall|i: usize| i < k + 1 implies #[trigger] order@.contains(i) by {
                if i == k {
                    assert(order@[pos as int] == k);
                } else {
                    assert(prev.contains(i));
                    let a = choose|a: int| 0 <= a < prev.len() && prev[a] == i;
                    if a < pos {
                        assert(order@[a] == i);
                    } else {
                        assert(order@[a + 1] == i);
                    }
                }
            }
            assert(!prev.contains(k));
            assert forall|a: int, b: int| 0 <= a < b < order@.len() && order@[a] == order@[b] implies false by {
                if a < pos && b < pos {
                    assert(prev[a] == prev[b]);
                } else if a < pos && b > pos {
                    assert(prev[a] == prev[b - 1]);
                } else if a > pos {
                    assert(prev[a - 1] == prev[b - 1]);
                } else if a == pos {
                    assert(prev.contains(prev[b - 1]));
                } else {
                    assert(prev.contains(prev[a]));
                }
            }
        }
        k += 1;
    }
    order
}

/// The dashboard for one snapshot: the two summary lines and one row per
/// process, by memory use from the largest down.
pub fn transform(s: &SystemSnapshot) -> (d: Dashboard)
    ensures
        presents(*s, d),
{
    let order = memory_order(&s.processes);
    let mut rows: Vec<DisplayRow> = Vec::new();
    let mut a: usize = 0;
    while a < order.len()
        invariant
            is_memory_order(s.processes@, order@),
            a <= order@.len(),
            rows@.len() == a,
            forall|b: int| 0 <= b < a ==> row_shows(rows@[b], s.processes@[order@[b] as int]),
        decreases order@.len() - a,
    {
        rows.push(display_row(&s.processes[order[a]]));
        a += 1;
    }
    let d = Dashboard {
        cpu_line: cpu_usage_line(s.cpu_centi),
        memory_line: memory_usage_line(s.used_memory_kb, s.total_memory_kb),
        rows,
    };
    assert(rows_follow(s.processes@, order@, d.rows@));
    d
}

/// The two dashboards show the same text, cell by cell.
pub open spec fn same_text(d1: Dashboard, d2: Dashboard) -> bool {
    &&& d1.cpu_line@ == d2.cpu_line@
    &&& d1.memory_line@ == d2.memory_line@
    &&& d1.rows@.len() == d2.rows@.len()
    &&& forall|a: int|
        0 <= a < d1.rows@.len() ==> {
            &&& (#[trigger] d1.rows@[a]).pid_text@ == d2.rows@[a].pid_text@
            &&& d1.rows@[a].name_text@ == d2.rows@[a].name_text@
            &&& d1.rows@[a].cpu_text@ == d2.rows@[a].cpu_text@
            &&& d1.rows@[a].memory_text@ == d2.rows@[a].memory_text@
        }
}

proof fn lemma_order_prefix_equal(ps: Seq<ProcessSample>, o1: Seq<usize>, o2: Seq<usize>, k: int)
    requires
        is_memory_order(ps, o1),
        is_memory_order(ps, o2),
        0 <= k <= o1.len(),
    ensures
        forall|a: int| 0 <= a < k ==> o1[a] == o2[a],
    decreases k,
{
    if k > 0 {
        lemma_order_prefix_equal(ps, o1, o2, k - 1);
        let j = k - 1;
        if o1[j] != o2[j] {
            let x = o1[j];
            let y = o2[j];
            assert(o2.contains(x));
            let m = choose|m: int| 0 <= m < o2.len() && o2[m] == x;
            assert(o1.contains(y));
            let l = choose|l: int| 0 <= l < o1.len() && o1[l] == y;
            if m < j {
                assert(o1[m] == x);
            }
            if l < j {
                assert(o2[l] == y);
            }
            assert(shown_before(ps, y as int, x as int));
            assert(shown_before(ps, x as int, y as int));
        }
    }
}

/// Only one order lists the processes by memory use with ties in the
/// snapshot's order.
pub proof fn lemma_memory_order_unique(ps: Seq<ProcessSample>, o1: Seq<usize>, o2: Seq<usize>)
    requires
        is_memory_order(ps, o1),
        is_memory_order(ps, o2),
    ensures
        o1 == o2,
{
    lemma_order_prefix_equal(ps, o1, o2, o1.len() as int);
    assert(o1 =~= o2);
}

/// The dashboard is a function of the snapshot: two dashboards for the same
/// snapshot (two calls of `transform`, say) hold the same text in every cell.
pub proof fn lemma_presentation_deterministic(s: SystemSnapshot, d1: Dashboard, d2: Dashboard)
    requires
        presents(s, d1),
        presents(s, d2),
    ensures
        same_text(d1, d2),
{
    let o1 = choose|o: Seq<usize>| is_memory_order(s.processes@, o) && rows_follow(s.processes@, o, d1.rows@);
    let o2 = choose|o: Seq<usize>| is_memory_order(s.processes@, o) && rows_follow(s.processes@, o, d2.rows@);
    lemma_memory_order_unique(s.processes@, o1, o2);
    assert forall|a: int| 0 <= a < d1.rows@.len() implies {
            &&& (#[trigger] d1.rows@[a]).pid_text@ == d2.rows@[a].pid_text@
            &&& d1.rows@[a].name_text@ == d2.rows@[a].name_text@
            &&& d1.rows@[a].cpu_text@ == d2.rows@[a].cpu_text@
            &&& d1.rows@[a].memory_text@ == d2.rows@[a].memory_text@
        } by {
        assert(row_shows(d1.rows@[a], s.processes@[o1[a] as int]));
        assert(row_shows(d2.rows@[a], s.processes@[o2[a] as int]));
    }
}

/// The table has one row per process, each showing a distinct process, and
/// the memory use of the processes shown, in kibibytes and as the mebibytes
/// that the rows print, never grows from one row to the next.
pub proof fn lemma_rows_by_memory(s: SystemSnapshot, d: Dashboard)
    requires
        presents(s, d),
    ensures
        d.rows@.len() == s.processes@.len(),
        exists|order: Seq<usize>|
            {
                &&& order.len() == d.rows@.len()
                &&& order.no_duplicates()
                &&& forall|a: int|
                    0 <= a < order.len() ==> order[a] < s.processes@.len() && row_shows(
                        #[trigger] d.rows@[a],
                        s.processes@[order[a] as int],
                    )
                &&& forall|a: int, b: int|
                    0 <= a < b < order.len() ==> s.processes@[order[a] as int].memory_kb
                        >= s.processes@[order[b] as int].memory_kb && mib_centi(
                        s.processes@[order[a] as int].memory_kb as nat,
                    ) >= mib_centi(s.processes@[order[b] as int].memory_kb as nat)
            },
{
    let o = choose|o: Seq<usize>| is_memory_order(s.processes@, o) && rows_follow(s.processes@, o, d.rows@);
    assert forall|a: int, b: int| 0 <= a < b < o.len() implies s.processes@[o[a] as int].memory_kb
        >= s.processes@[o[b] as int].memory_kb && mib_centi(
        s.processes@[o[a] as int].memory_kb as nat,
    ) >= mib_centi(s.processes@[o[b] as int].memory_kb as nat) by {
        assert(shown_before(s.processes@, o[a] as int, o[b] as int));
        lemma_mib_centi_monotone(
            s.processes@[o[b] as int].memory_kb as nat,
            s.processes@[o[a] as int].memory_kb as nat,
        );
    }
}

} // verus!
