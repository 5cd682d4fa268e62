//! Rendering of the failure report a fired alert delivers. The exact
//! text is specified character for character: a priority-tagged header
//! with the device's metadata, one block per failed check listing at
//! most the first ten failed IPs with an overflow count, and a summary
//! of failed checks and affected IPs. The process wraps this text in
//! its delivery envelope and posts it; nothing about the report's
//! content is decided outside this module.

use crate::evaluate::{failure_view, CheckFailure, Device};
use crate::text::{dec_str, dec_u64, string_eq_str};
use vstd::prelude::*;

verus! {

/// At most this many failed IPs are listed per check.
pub const MAX_LISTED_IPS: u64 = 10;

/// The marker in front of the header for each priority tier; unknown
/// tiers share the default marker.
pub open spec fn priority_marker(p: Seq<char>) -> Seq<char> {
    if p == "critical"@ {
        "🔴"@
    } else if p == "high"@ {
        "🟠"@
    } else if p == "medium"@ {
        "🟡"@
    } else {
        "🔵"@
    }
}

/// How many IPs of a list of `n` are listed.
pub open spec fn shown_count(n: int) -> int {
    if n > 10 {
        10
    } else {
        n
    }
}

/// The tree connector of a listed IP; the last listed one closes the
/// branch.
pub open spec fn connector(last: bool) -> Seq<char> {
    if last {
        "│  └─"@
    } else {
        "│  ├─"@
    }
}

/// One listed IP line.
pub open spec fn ip_line(ip: Seq<char>, last: bool) -> Seq<char> {
    connector(last) + " ❌ "@ + ip + "\n"@
}

/// The lines of the first `upto` listed IPs.
pub open spec fn ip_lines(ips: Seq<Seq<char>>, upto: int) -> Seq<char>
    decreases upto,
{
    if upto <= 0 {
        Seq::empty()
    } else {
        ip_lines(ips, upto - 1) + ip_line(ips[upto - 1], upto == shown_count(ips.len() as int))
    }
}

/// The overflow suffix when more than ten IPs failed.
pub open spec fn overflow_line(n: int) -> Seq<char> {
    if n > 10 {
        "│  └─ ... "@ + dec_str((n - 10) as nat) + " more IPs\n"@
    } else {
        Seq::empty()
    }
}

/// The block one failed check is reported as: header, listed IPs,
/// overflow suffix.
pub open spec fn failure_block(f: (Seq<char>, u16, Seq<Seq<char>>)) -> Seq<char> {
    "┌─ 🔴 "@ + f.0 + " (Port："@ + dec_str(f.1 as nat) + ")\n"@ + ip_lines(
        f.2,
        shown_count(f.2.len() as int),
    ) + overflow_line(f.2.len() as int)
}

/// All failure blocks, separated by a bare branch line.
pub open spec fn failure_blocks(fs: Seq<(Seq<char>, u16, Seq<Seq<char>>)>) -> Seq<char>
    decreases fs.len(),
{
    if fs.len() == 0 {
        Seq::empty()
    } else if fs.len() == 1 {
        failure_block(fs[0])
    } else {
        failure_blocks(fs.drop_last()) + "│\n"@ + failure_block(fs.last())
    }
}

/// The total number of affected IPs: summed across failures, not
/// deduplicated.
pub open spec fn ip_total(fs: Seq<(Seq<char>, u16, Seq<Seq<char>>)>) -> nat
    decreases fs.len(),
{
    if fs.len() == 0 {
        0
    } else {
        ip_total(fs.drop_last()) + fs.last().2.len()
    }
}

/// The closing summary line.
pub open spec fn stats_line(fs: Seq<(Seq<char>, u16, Seq<Seq<char>>)>) -> Seq<char> {
    "└─ 📊 Stats："@ + dec_str(fs.len() as nat) + " checks failed | "@ + dec_str(ip_total(fs))
        + " IPs affected\n"@
}

/// The fenced detail section of the report.
pub open spec fn detail_text(fs: Seq<(Seq<char>, u16, Seq<Seq<char>>)>) -> Seq<char> {
    "```\n"@ + failure_blocks(fs) + stats_line(fs) + "```\n"@
}

/// The whole rendered report for one device.
pub open spec fn report_text(
    name: Seq<char>,
    location: Seq<char>,
    os: Seq<char>,
    group: Seq<char>,
    priority: Seq<char>,
    fs: Seq<(Seq<char>, u16, Seq<Seq<char>>)>,
) -> Seq<char> {
    priority_marker(priority) + " **"@ + name + "** Failure Alert\n\n> 📍 Location："@ + location
        + "\n> 💻 OS："@ + os + " | 🏷️ Group："@ + group + "\n> ⚠️ Priority："@ + priority
        + "\n\n**Failure Details**：\n"@ + detail_text(fs)
        + "\n---\n<font color=\"warning\">Recommendation：Check device power/network/service status</font>"@
}

fn render_priority_marker(priority: &String) -> (r: &'static str)
    ensures
        r@ == priority_marker(priority@),
{
    if string_eq_str(priority, "critical") {
        "🔴"
    } else if string_eq_str(priority, "high") {
        "🟠"
    } else if string_eq_str(priority, "medium") {
        "🟡"
    } else {
        "🔵"
    }
}

fn render_ip_block(ips: &Vec<String>) -> (r: String)
    ensures
        r@ == ip_lines(
            ips@.map_values(|s: String| s@),
            shown_count(ips@.len() as int),
        ) + overflow_line(ips@.len() as int),
{
    let ghost v = ips@.map_values(|s: String| s@);
    let mut out = String::new();
    let shown: usize = if ips.len() > 10 {
        10
    } else {
        ips.len()
    };
    let mut i: usize = 0;
    while i < shown
        invariant
            i <= shown,
            shown == shown_count(ips@.len() as int),
            v == ips@.map_values(|s: String| s@),
            out@ == ip_lines(v, i as int),
        decreases shown - i,
    {
        let last = i == shown - 1;
        if last {
            out.append("│  └─");
        } else {
            out.append("│  ├─");
        }
        out.append(" ❌ ");
        out.append(ips[i].as_str());
        out.append("\n");
        proof {
            assert(v[i as int] == ips@[i as int]@);
            assert(out@ =~= ip_lines(v, i as int) + ip_line(v[i as int], i + 1 == shown_count(
                v.len() as int,
            )));
        }
        i += 1;
    }
    if ips.len() > 10 {
        out.append("│  └─ ... ");
        out.append(dec_u64((ips.len() - 10) as u64).as_str());
        out.append(" more IPs\n");
        proof {
            assert(out@ =~= ip_lines(v, shown_count(v.len() as int)) + overflow_line(
                v.len() as int,
            ));
        }
    } else {
        proof {
            assert(out@ =~= ip_lines(v, shown_count(v.len() as int)) + overflow_line(
                v.len() as int,
            ));
        }
    }
    out
}

fn render_failure_block(f: &CheckFailure) -> (r: String)
    ensures
        r@ == failure_block(failure_view(*f)),
{
    let mut out = String::new();
    out.append("┌─ 🔴 ");
    out.append(f.check_name.as_str());
    out.append(" (Port：");
    out.append(dec_u64(f.port as u64).as_str());
    out.append(")\n");
    out.append(render_ip_block(&f.attempted_ips).as_str());
    proof {
        assert(out@ =~= failure_block(failure_view(*f)));
    }
    out
}

/// Renders the report for one failing device, exactly as `report_text`
/// lays it out.
pub fn render_report(device: &Device, failures: &Vec<CheckFailure>) -> (r: String)
    requires
        ip_total(failures@.map_values(|f: CheckFailure| failure_view(f))) <= u64::MAX,
    ensures
        r@ == report_text(
            device.name@,
            device.location@,
            device.os@,
            device.group@,
            device.priority@,
            failures@.map_values(|f: CheckFailure| failure_view(f)),
        ),
{
    let ghost fv = failures@.map_values(|f: CheckFailure| failure_view(f));
    let mut detail = String::new();
    detail.append("```\n");
    let mut i: usize = 0;
    while i < failures.len()
        invariant
            i <= failures@.len(),
            fv == failures@.map_values(|f: CheckFailure| failure_view(f)),
            detail@ == "```\n"@ + failure_blocks(fv.take(i as int)) + if i > 0 && i
                < failures@.len() { "│\n"@ } else { Seq::<char>::empty() },
        decreases failures@.len() - i,
    {
        let ghost pre = fv.take(i as int);
        proof {
            assert(fv.take(i + 1).drop_last() =~= pre);
            assert(fv.take(i + 1).last() == fv[i as int]);
            assert(fv[i as int] == failure_view(failures@[i as int]));
        }
        detail.append(render_failure_block(&failures[i]).as_str());
        if i + 1 < failures.len() {
            detail.append("│\n");
        }
        proof {
            if i == 0 {
                assert(failure_blocks(fv.take(1)) =~= failure_block(fv[0]));
            } else {
                assert(failure_blocks(fv.take(i + 1)) =~= failure_blocks(pre) + "│\n"@
                    + failure_block(fv[i as int]));
            }
            assert(detail@ =~= "```\n"@ + failure_blocks(fv.take(i + 1)) + if i + 1 > 0 && i + 1
                < failures@.len() { "│\n"@ } else { Seq::<char>::empty() });
        }
        i += 1;
    }
    proof {
        assert(fv.take(fv.len() as int) =~= fv);
        assert(detail@ =~= "```\n"@ + failure_blocks(fv));
    }
    let total = ip_total_count(failures);
    detail.append("└─ 📊 Stats：");
    detail.append(dec_u64(failures.len() as u64).as_str());
    detail.append(" checks failed | ");
    detail.append(dec_u64(total).as_str());
    detail.append(" IPs affected\n");
    detail.append("```\n");
    proof {
        assert(detail@ =~= detail_text(fv));
    }
    let mut out = String::new();
    out.append(render_priority_marker(&device.priority));
    out.append(" **");
    out.append(device.name.as_str());
    out.append("** Failure Alert\n\n> 📍 Location：");
    out.append(device.location.as_str());
    out.append("\n> 💻 OS：");
    out.append(device.os.as_str());
    out.append(" | 🏷️ Group：");
    out.append(device.group.as_str());
    out.append("\n> ⚠️ Priority：");
    out.append(device.priority.as_str());
    out.append("\n\n**Failure Details**：\n");
    out.append(detail.as_str());
    out.append(
        "\n---\n<font color=\"warning\">Recommendation：Check device power/network/service status</font>",
    );
    proof {
        assert(out@ =~= report_text(
            device.name@,
            device.location@,
            device.os@,
            device.group@,
            device.priority@,
            fv,
        ));
    }
    out
}

proof fn lemma_ip_total_take_step(fs: Seq<(Seq<char>, u16, Seq<Seq<char>>)>, i: int)
    requires
        0 <= i < fs.len(),
    ensures
        ip_total(fs.take(i + 1)) == ip_total(fs.take(i)) + fs[i].2.len(),
{
    assert(fs.take(i + 1).drop_last() =~= fs.take(i));
    assert(fs.take(i + 1).last() == fs[i]);
}

proof fn lemma_ip_total_take_le(fs: Seq<(Seq<char>, u16, Seq<Seq<char>>)>, i: int)
    requires
        0 <= i <= fs.len(),
    ensures
        ip_total(fs.take(i)) <= ip_total(fs),
    decreases fs.len() - i,
{
    if i == fs.len() {
        assert(fs.take(i) =~= fs);
    } else {
        lemma_ip_total_take_step(fs, i);
        lemma_ip_total_take_le(fs, i + 1);
    }
}

/// Counts the affected IPs across all failures of one report.
pub fn ip_total_count(failures: &Vec<CheckFailure>) -> (r: u64)
    requires
        ip_total(failures@.map_values(|f: CheckFailure| failure_view(f))) <= u64::MAX,
    ensures
        r == ip_total(failures@.map_values(|f: CheckFailure| failure_view(f))),
{
    let ghost fv = failures@.map_values(|f: CheckFailure| failure_view(f));
    let mut total: u64 = 0;
    let mut i: usize = 0;
    while i < failures.len()
        invariant
            i <= failures@.len(),
            fv == failures@.map_values(|f: CheckFailure| failure_view(f)),
            total == ip_total(fv.take(i as int)),
            ip_total(fv) <= u64::MAX,
        decreases failures@.len() - i,
    {
        proof {
            lemma_ip_total_take_step(fv, i as int);
            lemma_ip_total_take_le(fv, i + 1);
            assert(fv[i as int].2.len() == failures@[i as int].attempted_ips@.len());
        }
        total = total + failures[i].attempted_ips.len() as u64;
        i += 1;
    }
    proof {
        assert(fv.take(fv.len() as int) =~= fv);
    }
    total
}

} // verus!
