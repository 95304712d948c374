//! The human-readable report: one line per target and the closing count.

use vstd::prelude::*;
use vstd::string::*;
use crate::orchestrator::{count_healthy, Summary};
use crate::probe::{ProbeResult, Status};
use crate::text::{decimal, u64_to_decimal};

verus! {

/// Width of the target column.
pub const HOST_WIDTH: usize = 30;

/// `s` followed by spaces up to `width` characters; unchanged when longer.
pub open spec fn pad_right(s: Seq<char>, width: nat) -> Seq<char> {
    if s.len() >= width {
        s
    } else {
        s + Seq::new((width - s.len()) as nat, |i: int| ' ')
    }
}

/// `us` microseconds as milliseconds with one decimal, rounded half up.
pub open spec fn latency_text(us: u64) -> Seq<char> {
    let tenths = (us as nat + 50) / 100;
    decimal(tenths / 10) + "."@ + decimal(tenths % 10)
}

/// The detail column of a healthy target.
pub open spec fn healthy_detail(us: u64, retries: u32) -> Seq<char> {
    latency_text(us) + "ms"@ + if retries > 0 {
        " (retries: "@ + decimal(retries as nat) + ")"@
    } else {
        Seq::empty()
    }
}

/// The columns of one report line. The caller joins them with single spaces.
pub struct ReportLine {
    pub status: Status,
    /// `"[OK]  "` or `"[FAIL]"`.
    pub tag: String,
    /// The target, padded to the column width.
    pub host: String,
    /// Latency and retries when healthy; the error when not.
    pub detail: String,
}

/// `s` padded with spaces to `width` characters.
pub fn pad_to(s: &str, width: usize) -> (r: String)
    ensures
        r@ == pad_right(s@, width as nat),
{
    let mut r = String::from_str(s);
    let n = s.unicode_len();
    let mut k: usize = n;
    while k < width
        invariant
            n == s@.len(),
            n <= k || width <= n,
            k >= n,
            k < width ==> r@ == s@ + Seq::new((k - n) as nat, |i: int| ' '),
            k >= width && n < width ==> r@ == s@ + Seq::new((width - n) as nat, |i: int| ' '),
            n >= width ==> r@ == s@,
        decreases width - k,
    {
        r.append(" ");
        proof {
            reveal_strlit(" ");
            assert(s@ + Seq::new((k + 1 - n) as nat, |i: int| ' ') =~= s@ + Seq::new(
                (k - n) as nat,
                |i: int| ' ',
            ) + " "@);
        }
        k = k + 1;
    }
    if n >= width {
        assert(r@ == s@);
    } else if k == n {
        assert(r@ =~= s@ + Seq::new((width - n) as nat, |i: int| ' '));
    }
    r
}

/// Renders a latency given in microseconds as milliseconds with one decimal.
pub fn format_latency(us: u64) -> (r: String)
    ensures
        r@ == latency_text(us),
{
    let tenths: u64 = us / 100 + if us % 100 >= 50 { 1 } else { 0 };
    assert(tenths == (us as nat + 50) / 100);
    let mut s = u64_to_decimal(tenths / 10);
    s.append(".");
    let d = u64_to_decimal(tenths % 10);
    s.append(d.as_str());
    s
}

/// The report line of one target's result.
pub fn report_line(r: &ProbeResult) -> (line: ReportLine)
    ensures
        line.status == r.status,
        line.tag@ == if r.status == Status::Healthy {
            "[OK]  "@
        } else {
            "[FAIL]"@
        },
        line.host@ == pad_right(r.host@, HOST_WIDTH as nat),
        r.status == Status::Healthy ==> line.detail@ == healthy_detail(
            match r.latency_us {
                Some(us) => us,
                None => 0,
            },
            r.retries_used,
        ),
        r.status == Status::Unhealthy ==> line.detail@ == match r.error {
            Some(e) => e@,
            None => "unknown"@,
        },
{
    let host = pad_to(r.host.as_str(), HOST_WIDTH);
    match r.status {
        Status::Healthy => {
            let us = match r.latency_us {
                Some(us) => us,
                None => 0,
            };
            let mut detail = format_latency(us);
            detail.append("ms");
            if r.retries_used > 0 {
                detail.append(" (retries: ");
                let n = u64_to_decimal(r.retries_used as u64);
                detail.append(n.as_str());
                detail.append(")");
            }
            ReportLine { status: r.status, tag: String::from_str("[OK]  "), host, detail }
        },
        Status::Unhealthy => {
            let detail = match &r.error {
                Some(e) => e.clone(),
                None => String::from_str("unknown"),
            };
            ReportLine { status: r.status, tag: String::from_str("[FAIL]"), host, detail }
        },
    }
}

impl Summary {
    /// The closing count of the report: `"<healthy>/<total> healthy"`.
    pub fn counts_text(&self) -> (r: String)
        requires
            self.wf(),
        ensures
            r@ == decimal(count_healthy(self.results@)) + "/"@ + decimal(self.results.len() as nat)
                + " healthy"@,
    {
        let mut s = u64_to_decimal(self.healthy as u64);
        s.append("/");
        let t = u64_to_decimal(self.total as u64);
        s.append(t.as_str());
        s.append(" healthy");
        s
    }
}

} // verus!
