//! How the client shows what the supervisor answered.

use crate::protocol::{PortInfo, ProcessInfo};
use crate::text::{decimal, decimal_string, prefixed, push_decimal};
use crate::time::{Span, NANOS_PER_SEC};
use vstd::prelude::*;
use vstd::string::StringExecFns;

verus! {

/// The first second that the RFC 3339 format cannot show: the beginning of
/// the year 10000.
pub const RFC3339_END_SECS: u64 = 253_402_300_800;

/// The RFC 3339 text of the instant `secs` seconds and `nanos` nanoseconds
/// after the Unix epoch, as the `humantime` crate writes it.
pub uninterp spec fn rfc3339_text(secs: u64, nanos: u32) -> Seq<char>;

/// The text of a table with these rows of cells, the first row being its
/// header, as the `tabled` crate draws it.
pub uninterp spec fn table_text(rows: Seq<Seq<Seq<char>>>) -> Seq<char>;

/// Calls `humantime::format_rfc3339` on the instant `secs` seconds and
/// `nanos` nanoseconds after the Unix epoch and takes the text that the
/// result shows. The contract names that text. The instant must lie before
/// the year 10000, which is where the crate's formatting gives up.
#[verifier::external_body]
fn format_rfc3339(secs: u64, nanos: u32) -> (s: String)
    requires
        secs < RFC3339_END_SECS,
        nanos < NANOS_PER_SEC,
    ensures
        s@ == rfc3339_text(secs, nanos),
{
    let at = std::time::UNIX_EPOCH + std::time::Duration::new(secs, nanos);
    humantime::format_rfc3339(at).to_string()
}

/// Hands the rows to `tabled::builder::Builder`, one record each, builds
/// the table and takes the text that it shows. The contract names that text.
#[verifier::external_body]
fn render_table(rows: &Vec<Vec<String>>) -> (s: String)
    ensures
        s@ == table_text(rows.deep_view()),
{
    let mut builder = tabled::builder::Builder::default();
    for row in rows.iter() {
        builder.push_record(row.iter().map(|cell| cell.as_str()));
    }
    builder.build().to_string()
}

/// How a span of `secs` whole seconds is shown: in seconds below a minute,
/// in minutes below an hour, in hours and minutes below a day, and in days
/// and hours from then on.
pub open spec fn duration_text(secs: nat) -> Seq<char> {
    if secs < 60 {
        decimal(secs) + "s"@
    } else if secs < 3600 {
        decimal(secs / 60) + "m"@
    } else if secs < 86400 {
        decimal(secs / 3600) + "h "@ + decimal(secs % 3600 / 60) + "m"@
    } else {
        decimal(secs / 86400) + "d "@ + decimal(secs % 86400 / 3600) + "h"@
    }
}

/// Shows a span by its largest units.
pub fn format_duration(d: Span) -> (s: String)
    ensures
        s@ == duration_text((d@ / 1_000_000_000) as nat),
{
    let secs = d.as_secs();
    let mut s = String::new();
    if secs < 60 {
        push_decimal(&mut s, secs);
        s.append("s");
    } else if secs < 3600 {
        push_decimal(&mut s, secs / 60);
        s.append("m");
    } else if secs < 86400 {
        push_decimal(&mut s, secs / 3600);
        s.append("h ");
        push_decimal(&mut s, secs % 3600 / 60);
        s.append("m");
    } else {
        push_decimal(&mut s, secs / 86400);
        s.append("d ");
        push_decimal(&mut s, secs % 86400 / 3600);
        s.append("h");
    }
    s
}

/// Shows a failure.
pub fn format_error(err: &str) -> (s: String)
    ensures
        s@ == "Error: "@ + err@,
{
    prefixed("Error: ", err)
}

/// Shows a success.
pub fn format_success(msg: &str) -> (s: String)
    ensures
        s@ == "Success: "@ + msg@,
{
    prefixed("Success: ", msg)
}

/// The header of the table of processes.
pub open spec fn process_header() -> Seq<Seq<char>> {
    seq!["ID"@, "USER"@, "UPTIME"@, "CWD"@, "COMMAND"@]
}

/// The row that shows one process: its id, its owner, how long it has been
/// up, where it runs and what it runs.
pub open spec fn process_cells(p: ProcessInfo) -> Seq<Seq<char>> {
    seq![
        decimal(p.id as nat),
        p.user@,
        duration_text((p.uptime@ / 1_000_000_000) as nat),
        p.cwd@,
        p.cmd@,
    ]
}

/// The header of the table of ports.
pub open spec fn port_header() -> Seq<Seq<char>> {
    seq!["PORT"@, "USER"@, "STATUS"@, "ALLOCATED"@]
}

/// The row that shows one port: its number, its holder, whether it is in
/// use, and when it was allocated.
pub open spec fn port_cells(p: PortInfo) -> Seq<Seq<char>> {
    seq![
        decimal(p.port as nat),
        p.user@,
        if p.active {
            "ACTIVE"@
        } else {
            "IDLE"@
        },
        rfc3339_text(
            (p.allocated_at@ / 1_000_000_000) as u64,
            (p.allocated_at@ % 1_000_000_000) as u32,
        ),
    ]
}

/// The rows of the table of processes: the header, then one row for each
/// process in the order given.
pub open spec fn process_rows(processes: Seq<ProcessInfo>) -> Seq<Seq<Seq<char>>> {
    seq![process_header()] + processes.map_values(|p: ProcessInfo| process_cells(p))
}

/// The rows of the table of ports: the header, then one row for each port in
/// the order given.
pub open spec fn port_rows(ports: Seq<PortInfo>) -> Seq<Seq<Seq<char>>> {
    seq![port_header()] + ports.map_values(|p: PortInfo| port_cells(p))
}

/// Whether the allocation time of `p` can be shown: it lies before the year
/// 10000.
pub open spec fn showable(p: PortInfo) -> bool {
    p.allocated_at@ / 1_000_000_000 < RFC3339_END_SECS
}

/// The table of processes as text.
pub fn format_processes(processes: &[ProcessInfo]) -> (s: String)
    ensures
        s@ == table_text(process_rows(processes@)),
{
    let mut rows: Vec<Vec<String>> = Vec::new();
    let mut header: Vec<String> = Vec::new();
    header.push("ID".to_owned());
    header.push("USER".to_owned());
    header.push("UPTIME".to_owned());
    header.push("CWD".to_owned());
    header.push("COMMAND".to_owned());
    assert(header.deep_view() =~= process_header());
    rows.push(header);
    assert(rows.deep_view() =~= seq![process_header()]);
    let mut i: usize = 0;
    while i < processes.len()
        invariant
            i <= processes.len(),
            rows.deep_view() == process_rows(processes@.take(i as int)),
        decreases processes.len() - i,
    {
        let p = &processes[i];
        let mut row: Vec<String> = Vec::new();
        row.push(decimal_string(p.id as u64));
        row.push(p.user.clone());
        row.push(format_duration(p.uptime));
        row.push(p.cwd.clone());
        row.push(p.cmd.clone());
        assert(row.deep_view() =~= process_cells(*p));
        let ghost before = rows.deep_view();
        rows.push(row);
        proof {
            assert(rows.deep_view() =~= before.push(process_cells(*p)));
            assert(processes@.take(i + 1) == processes@.take(i as int).push(*p));
            assert(process_rows(processes@.take(i + 1)) =~= before.push(process_cells(*p)));
        }
        i += 1;
    }
    proof {
        assert(processes@.take(processes.len() as int) == processes@);
    }
    render_table(&rows)
}

/// The table of ports as text. Every allocation time must lie before the
/// year 10000.
pub fn format_ports(ports: &[PortInfo]) -> (s: String)
    requires
        forall|i: int| 0 <= i < ports@.len() ==> showable(#[trigger] ports@[i]),
    ensures
        s@ == table_text(port_rows(ports@)),
{
    let mut rows: Vec<Vec<String>> = Vec::new();
    let mut header: Vec<String> = Vec::new();
    header.push("PORT".to_owned());
    header.push("USER".to_owned());
    header.push("STATUS".to_owned());
    header.push("ALLOCATED".to_owned());
    assert(header.deep_view() =~= port_header());
    rows.push(header);
    assert(rows.deep_view() =~= seq![port_header()]);
    let mut i: usize = 0;
    while i < ports.len()
        invariant
            i <= ports.len(),
            forall|i: int| 0 <= i < ports@.len() ==> showable(#[trigger] ports@[i]),
            rows.deep_view() == port_rows(ports@.take(i as int)),
        decreases ports.len() - i,
    {
        let p = &ports[i];
        assert(showable(ports@[i as int]));
        let mut row: Vec<String> = Vec::new();
        row.push(decimal_string(p.port as u64));
        row.push(p.user.clone());
        if p.active {
            row.push("ACTIVE".to_owned());
        } else {
            row.push("IDLE".to_owned());
        }
        row.push(format_rfc3339(p.allocated_at.secs_since_epoch(), p.allocated_at.subsec_nanos()));
        assert(row.deep_view() =~= port_cells(*p));
        let ghost before = rows.deep_view();
        rows.push(row);
        proof {
            assert(rows.deep_view() =~= before.push(port_cells(*p)));
            assert(ports@.take(i + 1) == ports@.take(i as int).push(*p));
            assert(port_rows(ports@.take(i + 1)) =~= before.push(port_cells(*p)));
        }
        i += 1;
    }
    proof {
        assert(ports@.take(ports.len() as int) == ports@);
    }
    render_table(&rows)
}

} // verus!
