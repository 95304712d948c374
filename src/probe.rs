//! One target's probe: the outcome of each connect attempt, the retry policy
//! with its linear backoff, and the final per-target result.

use vstd::prelude::*;
use vstd::string::*;
use crate::text::{decimal, u64_to_decimal};

verus! {

/// Why a target's address could not be found.
pub enum ResolveError {
    /// The lookup itself failed, with the resolver's message.
    Lookup(String),
    /// The lookup succeeded but gave no address.
    NoAddresses,
}

/// What one connect attempt came to.
pub enum AttemptOutcome {
    /// Connected; the latency in microseconds.
    Connected(u64),
    /// The transport reported an error before the timeout, with its message.
    ConnectionRefused(String),
    /// The timeout, in milliseconds, elapsed first.
    Timeout(u64),
    /// The target's address could not be resolved.
    ResolutionFailed(ResolveError),
}

/// How a target ended.
#[derive(PartialEq, Eq, Structural, Clone, Copy, Debug)]
pub enum Status {
    Healthy,
    Unhealthy,
}

impl Status {
    /// The status as it is written in reports: `"ok"` or `"fail"`.
    pub fn as_str(&self) -> (r: &'static str)
        ensures
            r@ == status_text(*self),
    {
        match self {
            Status::Healthy => "ok",
            Status::Unhealthy => "fail",
        }
    }
}

/// The word a status is reported as.
pub open spec fn status_text(s: Status) -> Seq<char> {
    match s {
        Status::Healthy => "ok"@,
        Status::Unhealthy => "fail"@,
    }
}

/// The final record of one target.
pub struct ProbeResult {
    pub host: String,
    pub status: Status,
    /// Present only when healthy: microseconds to connect.
    pub latency_us: Option<u64>,
    /// Present only when unhealthy: what the last attempt came to.
    pub error: Option<String>,
    /// Retries consumed: the index of the last attempt made.
    pub retries_used: u32,
}

/// A `ProbeResult` with its strings as character sequences.
pub struct ProbeView {
    pub host: Seq<char>,
    pub status: Status,
    pub latency_us: Option<u64>,
    pub error: Option<Seq<char>>,
    pub retries_used: u32,
}

impl View for ProbeResult {
    type V = ProbeView;

    open spec fn view(&self) -> ProbeView {
        ProbeView {
            host: self.host@,
            status: self.status,
            latency_us: self.latency_us,
            error: match self.error {
                Some(e) => Some(e@),
                None => None,
            },
            retries_used: self.retries_used,
        }
    }
}

/// The result of a target that connected after `retries` retries.
pub open spec fn healthy_view(host: Seq<char>, latency_us: u64, retries: u32) -> ProbeView {
    ProbeView {
        host,
        status: Status::Healthy,
        latency_us: Some(latency_us),
        error: None,
        retries_used: retries,
    }
}

/// The result of a target whose every attempt failed, the last with `error`.
pub open spec fn unhealthy_view(host: Seq<char>, error: Seq<char>, retries: u32) -> ProbeView {
    ProbeView {
        host,
        status: Status::Unhealthy,
        latency_us: None,
        error: Some(error),
        retries_used: retries,
    }
}

/// The error text that a failed attempt leaves behind.
pub open spec fn failure_detail(o: AttemptOutcome) -> Seq<char> {
    match o {
        AttemptOutcome::Connected(_) => Seq::empty(),
        AttemptOutcome::ConnectionRefused(e) => "Connection refused: "@ + e@,
        AttemptOutcome::Timeout(ms) => "timeout ("@ + decimal(ms as nat) + "ms)"@,
        AttemptOutcome::ResolutionFailed(ResolveError::Lookup(e)) => "DNS error: "@ + e@,
        AttemptOutcome::ResolutionFailed(
            ResolveError::NoAddresses,
        ) => "DNS resolution failed: no addresses"@,
    }
}

/// Renders the error text of a failed attempt.
pub fn describe_failure(o: &AttemptOutcome) -> (r: String)
    requires
        !(o is Connected),
    ensures
        r@ == failure_detail(*o),
{
    match o {
        AttemptOutcome::Connected(_) => String::new(),
        AttemptOutcome::ConnectionRefused(e) => {
            let mut s = String::from_str("Connection refused: ");
            s.append(e.as_str());
            s
        },
        AttemptOutcome::Timeout(ms) => {
            let mut s = String::from_str("timeout (");
            let d = u64_to_decimal(*ms);
            s.append(d.as_str());
            s.append("ms)");
            s
        },
        AttemptOutcome::ResolutionFailed(ResolveError::Lookup(e)) => {
            let mut s = String::from_str("DNS error: ");
            s.append(e.as_str());
            s
        },
        AttemptOutcome::ResolutionFailed(ResolveError::NoAddresses) => String::from_str(
            "DNS resolution failed: no addresses",
        ),
    }
}

/// Milliseconds to wait before attempt `index`: `100 × index`, so none
/// before the first attempt.
pub fn backoff_ms(index: u32) -> (r: u64)
    ensures
        r == 100 * index,
{
    100 * index as u64
}

/// What the retry controller asks for next.
pub enum Step {
    /// Wait `backoff_ms`, then resolve and connect once more; this is
    /// attempt `index`, counting from zero.
    Attempt { index: u32, backoff_ms: u64 },
    /// The target is settled; its result is ready.
    Done,
}

/// The retry policy of one target: attempts `0..=max_retries`, stopping at
/// the first connection.
pub struct RetryController {
    pub host: String,
    pub max_retries: u32,
    /// Index of the attempt to come (or of the last one, once settled).
    pub attempt: u32,
    pub result: Option<ProbeResult>,
}

impl RetryController {
    /// The attempt index stays within the budget, and a settled result names
    /// this controller's target.
    pub open spec fn wf(&self) -> bool {
        &&& self.attempt <= self.max_retries
        &&& self.result matches Some(r) ==> r.host@ == self.host@
    }

    /// A controller for `host` that has made no attempt yet.
    pub fn new(host: String, max_retries: u32) -> (r: RetryController)
        ensures
            r.wf(),
            r.host@ == host@,
            r.max_retries == max_retries,
            r.attempt == 0,
            r.result is None,
    {
        RetryController { host, max_retries, attempt: 0, result: None }
    }

    /// The next thing to do: another attempt, after its backoff, or nothing.
    pub fn next_step(&self) -> (r: Step)
        requires
            self.wf(),
        ensures
            self.result is Some ==> r is Done,
            self.result is None ==> r == (Step::Attempt {
                index: self.attempt,
                backoff_ms: (100 * self.attempt) as u64,
            }),
    {
        if self.result.is_some() {
            Step::Done
        } else {
            Step::Attempt { index: self.attempt, backoff_ms: backoff_ms(self.attempt) }
        }
    }

    /// Takes in what the current attempt came to. A connection settles the
    /// target healthy; a failure on the last allowed attempt settles it
    /// unhealthy with that failure's text; any other failure moves on to the
    /// next attempt.
    pub fn record(&mut self, outcome: &AttemptOutcome)
        requires
            old(self).wf(),
            old(self).result is None,
        ensures
            final(self).wf(),
            final(self).host@ == old(self).host@,
            final(self).max_retries == old(self).max_retries,
            match *outcome {
                AttemptOutcome::Connected(l) => {
                    &&& final(self).attempt == old(self).attempt
                    &&& final(self).result matches Some(r) && r@ == healthy_view(
                        old(self).host@,
                        l,
                        old(self).attempt,
                    )
                },
                _ => if old(self).attempt == old(self).max_retries {
                    &&& final(self).attempt == old(self).attempt
                    &&& final(self).result matches Some(r) && r@ == unhealthy_view(
                        old(self).host@,
                        failure_detail(*outcome),
                        old(self).attempt,
                    )
                } else {
                    &&& final(self).attempt == old(self).attempt + 1
                    &&& final(self).result is None
                },
            },
    {
        match outcome {
            AttemptOutcome::Connected(l) => {
                self.result = Some(
                    ProbeResult {
                        host: self.host.clone(),
                        status: Status::Healthy,
                        latency_us: Some(*l),
                        error: None,
                        retries_used: self.attempt,
                    },
                );
            },
            _ => {
                if self.attempt == self.max_retries {
                    let e = describe_failure(outcome);
                    self.result = Some(
                        ProbeResult {
                            host: self.host.clone(),
                            status: Status::Unhealthy,
                            latency_us: None,
                            error: Some(e),
                            retries_used: self.attempt,
                        },
                    );
                } else {
                    self.attempt = self.attempt + 1;
                }
            },
        }
    }

    /// Whether the target is settled.
    pub fn is_done(&self) -> (r: bool)
        ensures
            r == self.result is Some,
    {
        self.result.is_some()
    }

    /// The settled result.
    pub fn into_result(self) -> (r: ProbeResult)
        requires
            self.result is Some,
        ensures
            Some(r) == self.result,
    {
        self.result.unwrap()
    }
}

/// The result of probing `host` with retry budget `max` when attempt `k`
/// comes to `outs[k]`, starting at attempt `i`; `None` if the attempts
/// asked for run past `outs`.
pub open spec fn settle_from(host: Seq<char>, max: u32, outs: Seq<AttemptOutcome>, i: u32) -> Option<
    ProbeView,
>
    decreases max - i,
{
    if i >= outs.len() || i > max {
        None
    } else {
        match outs[i as int] {
            AttemptOutcome::Connected(l) => Some(healthy_view(host, l, i)),
            _ => if i >= max {
                Some(unhealthy_view(host, failure_detail(outs[i as int]), i))
            } else {
                settle_from(host, max, outs, (i + 1) as u32)
            },
        }
    }
}

/// The result of probing `host` with retry budget `max` when attempt `k`
/// comes to `outs[k]`.
pub open spec fn settle(host: Seq<char>, max: u32, outs: Seq<AttemptOutcome>) -> Option<ProbeView> {
    settle_from(host, max, outs, 0)
}

/// Runs the retry policy of `host` over recorded attempt outcomes, attempt
/// `k` coming to `outcomes[k]`. `None` when the policy asks for more
/// attempts than were recorded.
pub fn probe_with_outcomes(host: &str, max_retries: u32, outcomes: &Vec<AttemptOutcome>) -> (r:
    Option<ProbeResult>)
    ensures
        r matches Some(p) ==> settle(host@, max_retries, outcomes@) == Some(p@),
        r is None ==> settle(host@, max_retries, outcomes@) is None,
{
    let ghost h = host@;
    let mut c = RetryController::new(String::from_str(host), max_retries);
    while !c.is_done()
        invariant
            c.wf(),
            c.host@ == h,
            h == host@,
            c.max_retries == max_retries,
            c.result is None ==> settle(h, max_retries, outcomes@) == settle_from(
                h,
                max_retries,
                outcomes@,
                c.attempt,
            ),
            c.result matches Some(p) ==> settle(h, max_retries, outcomes@) == Some(p@),
        decreases max_retries - c.attempt + if c.result is None { 1int } else { 0int },
    {
        let i = c.attempt;
        if i as usize >= outcomes.len() {
            assert(settle_from(h, max_retries, outcomes@, i) is None);
            return None;
        }
        c.record(&outcomes[i as usize]);
    }
    Some(c.into_result())
}

proof fn lemma_skip_failures(host: Seq<char>, max: u32, outs: Seq<AttemptOutcome>, k: u32, i: u32)
    requires
        k <= i <= max,
        i < outs.len(),
        forall|j: int| k <= j < i ==> !(#[trigger] outs[j] is Connected),
    ensures
        settle_from(host, max, outs, k) == settle_from(host, max, outs, i),
    decreases i - k,
{
    if k < i {
        lemma_skip_failures(host, max, outs, (k + 1) as u32, i);
    }
}

/// A target whose first connection comes on attempt `i`, within the retry
/// budget, ends healthy with `i` retries used and that attempt's latency.
pub proof fn lemma_first_connection_settles(
    host: Seq<char>,
    max: u32,
    outs: Seq<AttemptOutcome>,
    i: u32,
)
    requires
        i <= max,
        i < outs.len(),
        outs[i as int] is Connected,
        forall|j: int| 0 <= j < i ==> !(#[trigger] outs[j] is Connected),
    ensures
        settle(host, max, outs) == Some(healthy_view(host, outs[i as int]->Connected_0, i)),
{
    lemma_skip_failures(host, max, outs, 0, i);
}

/// A target whose every allowed attempt fails ends unhealthy, with the whole
/// retry budget used and the last attempt's failure as its error.
pub proof fn lemma_all_failures_settle(host: Seq<char>, max: u32, outs: Seq<AttemptOutcome>)
    requires
        max < outs.len(),
        forall|j: int| 0 <= j <= max ==> !(#[trigger] outs[j] is Connected),
    ensures
        settle(host, max, outs) == Some(
            unhealthy_view(host, failure_detail(outs[max as int]), max),
        ),
{
    lemma_skip_failures(host, max, outs, 0, max);
}

proof fn lemma_reachable_from(host: Seq<char>, max: u32, outs: Seq<AttemptOutcome>, k: u32, i: u32)
    requires
        k <= i <= max,
        i < outs.len(),
        outs[i as int] is Connected,
    ensures
        settle_from(host, max, outs, k) matches Some(v) && v.status == Status::Healthy,
    decreases i - k,
{
    if k < i && !(outs[k as int] is Connected) {
        lemma_reachable_from(host, max, outs, (k + 1) as u32, i);
    }
}

/// A target that accepts a connection within the retry budget ends healthy
/// on every run: two runs with the same settings, each reaching it, both
/// report it healthy, whatever the other attempts of either run came to.
pub proof fn lemma_reachable_healthy_every_run(
    host: Seq<char>,
    max: u32,
    first: Seq<AttemptOutcome>,
    second: Seq<AttemptOutcome>,
    i: u32,
    j: u32,
)
    requires
        i <= max,
        j <= max,
        i < first.len(),
        j < second.len(),
        first[i as int] is Connected,
        second[j as int] is Connected,
    ensures
        settle(host, max, first) matches Some(v) && v.status == Status::Healthy,
        settle(host, max, second) matches Some(v) && v.status == Status::Healthy,
{
    lemma_reachable_from(host, max, first, 0, i);
    lemma_reachable_from(host, max, second, 0, j);
}

} // verus!
