//! The guard for runs that users ask for: a run in progress is reused, and a
//! new run is accepted at most once per cooldown.

use vstd::prelude::*;

use crate::text::same_text;
use crate::time::{utc_nanos, TimeSpan, UtcTime};

verus! {

/// What the guard answers to a request for a run.
#[derive(Clone, Debug, PartialEq, Eq)]
pub enum ManualRunDecision {
    /// A new run was started under the requested id.
    Accepted { run_id: String },
    /// A run is already in progress; the caller joins it.
    Reused { run_id: String },
    /// The cooldown since the last accepted run has not passed yet.
    RateLimited { retry_after_seconds: u64 },
}

/// A decision, with run ids as character sequences.
pub ghost enum Decision {
    Accepted(Seq<char>),
    Reused(Seq<char>),
    RateLimited(int),
}

impl View for ManualRunDecision {
    type V = Decision;

    open spec fn view(&self) -> Decision {
        match self {
            ManualRunDecision::Accepted { run_id } => Decision::Accepted(run_id@),
            ManualRunDecision::Reused { run_id } => Decision::Reused(run_id@),
            ManualRunDecision::RateLimited { retry_after_seconds } => Decision::RateLimited(
                *retry_after_seconds as int,
            ),
        }
    }
}

/// The state of a guard: its cooldown in nanoseconds, the run in progress and
/// when the last run was accepted.
pub ghost struct GateState {
    pub cooldown: int,
    pub active_run: Option<Seq<char>>,
    pub last_accepted: Option<UtcTime>,
}

/// Nanoseconds from `earlier` to `later`, negative when `later` is the
/// earlier one.
pub open spec fn elapsed_nanos(earlier: UtcTime, later: UtcTime) -> int {
    utc_nanos(later) - utc_nanos(earlier)
}

/// The whole milliseconds in `nanos` nanoseconds, rounded toward zero, as
/// `TimeDelta::num_milliseconds` counts them.
pub open spec fn whole_millis(nanos: int) -> int {
    if nanos >= 0 {
        nanos / 1_000_000
    } else {
        -((-nanos) / 1_000_000)
    }
}

/// The seconds a refused caller is told to wait: what is left of the
/// cooldown (all of it when the clock went backwards), in whole
/// milliseconds, rounded up to whole seconds.
pub open spec fn retry_after(cooldown: int, elapsed: int) -> int {
    let remaining = if elapsed < 0 {
        cooldown
    } else {
        cooldown - elapsed
    };
    let millis = if whole_millis(remaining) > 0 {
        whole_millis(remaining)
    } else {
        0
    };
    (millis + 999) / 1000
}

/// The state and the decision after a request at `now` for a run with id
/// `run_id`.
pub open spec fn request_step(g: GateState, now: UtcTime, run_id: Seq<char>) -> (
    GateState,
    Decision,
) {
    match g.active_run {
        Some(active) => (g, Decision::Reused(active)),
        None => {
            if g.last_accepted is Some && elapsed_nanos(g.last_accepted->0, now) < g.cooldown {
                (g, Decision::RateLimited(retry_after(g.cooldown, elapsed_nanos(g.last_accepted->0, now))))
            } else {
                (
                    GateState { cooldown: g.cooldown, active_run: Some(run_id), last_accepted: Some(now) },
                    Decision::Accepted(run_id),
                )
            }
        },
    }
}

/// The state after the run with id `run_id` finished.
pub open spec fn finish_step(g: GateState, run_id: Seq<char>) -> GateState {
    if g.active_run == Some(run_id) {
        GateState { active_run: None, ..g }
    } else {
        g
    }
}

/// While a run is in progress, every request is answered with that run and
/// leaves the guard as it was.
pub proof fn law_active_run_is_reused(g: GateState, now: UtcTime, run_id: Seq<char>)
    requires
        g.active_run is Some,
    ensures
        request_step(g, now, run_id) == (g, Decision::Reused(g.active_run->0)),
{
}

/// A refused request leaves the guard as it was.
pub proof fn law_refusal_changes_nothing(g: GateState, now: UtcTime, run_id: Seq<char>)
    requires
        request_step(g, now, run_id).1 is RateLimited,
    ensures
        request_step(g, now, run_id).0 == g,
{
}

/// Finishing a run other than the one in progress changes nothing.
pub proof fn law_finishing_another_run_changes_nothing(g: GateState, run_id: Seq<char>)
    requires
        g.active_run != Some(run_id),
    ensures
        finish_step(g, run_id) == g,
{
}

/// The wait a refused caller is told covers what is left of the cooldown, in
/// whole milliseconds, and overshoots it by less than a second.
pub proof fn law_retry_after_covers_the_rest(cooldown: int, elapsed: int)
    requires
        0 <= elapsed < cooldown,
    ensures
        whole_millis(cooldown - elapsed) <= retry_after(cooldown, elapsed) * 1000 < whole_millis(
            cooldown - elapsed,
        ) + 1000,
{
}

/// Once a run has been accepted at `accepted_at` and has finished, a request
/// before the cooldown has passed is refused, with a wait that covers the
/// rest of the cooldown; a request once it has passed starts a new run.
pub proof fn law_cooldown_between_accepted_runs(
    g: GateState,
    accepted_at: UtcTime,
    first: Seq<char>,
    now: UtcTime,
    second: Seq<char>,
)
    requires
        g.active_run is None,
        request_step(g, accepted_at, first).1 == Decision::Accepted(first),
        utc_nanos(accepted_at) <= utc_nanos(now),
    ensures
        ({
            let done = finish_step(request_step(g, accepted_at, first).0, first);
            let elapsed = elapsed_nanos(accepted_at, now);
            if elapsed < g.cooldown {
                &&& request_step(done, now, second) == (done, Decision::RateLimited(
                    retry_after(g.cooldown, elapsed),
                ))
                &&& whole_millis(g.cooldown - elapsed) <= retry_after(g.cooldown, elapsed) * 1000
                &&& retry_after(g.cooldown, elapsed) * 1000 < whole_millis(g.cooldown - elapsed) + 1000
            } else {
                request_step(done, now, second).1 == Decision::Accepted(second)
            }
        }),
{
    let elapsed = elapsed_nanos(accepted_at, now);
    if elapsed < g.cooldown {
        law_retry_after_covers_the_rest(g.cooldown, elapsed);
    }
}

/// One call on the guard: a request at an instant for a run id, or the end
/// of the run with an id. `ManualRunGate::request` and `finish` change the
/// state exactly as `call_step` says, so a sequence of them goes through the
/// states that `state_after` gives.
pub ghost enum GateCall {
    Request(UtcTime, Seq<char>),
    Finish(Seq<char>),
}

/// The instant of a request.
pub open spec fn call_time(c: GateCall) -> UtcTime {
    match c {
        GateCall::Request(now, _) => now,
        GateCall::Finish(_) => UtcTime { secs: 0, nanos: 0 },
    }
}

/// The run id of a request.
pub open spec fn call_run_id(c: GateCall) -> Seq<char> {
    match c {
        GateCall::Request(_, id) => id,
        GateCall::Finish(id) => id,
    }
}

/// The state after one call.
pub open spec fn call_step(g: GateState, c: GateCall) -> GateState {
    match c {
        GateCall::Request(now, id) => request_step(g, now, id).0,
        GateCall::Finish(id) => finish_step(g, id),
    }
}

/// The state after the calls `calls`, one after the other, from `g`.
pub open spec fn state_after(g: GateState, calls: Seq<GateCall>) -> GateState
    decreases calls.len(),
{
    if calls.len() == 0 {
        g
    } else {
        call_step(state_after(g, calls.drop_last()), calls.last())
    }
}

/// The answer to call `k` of `calls`, made from `g`; nothing for an end of
/// a run.
pub open spec fn answer_at(g: GateState, calls: Seq<GateCall>, k: int) -> Option<Decision> {
    match calls[k] {
        GateCall::Request(now, id) => Some(request_step(state_after(g, calls.take(k)), now, id).1),
        GateCall::Finish(_) => None,
    }
}

proof fn lemma_state_after_step(g: GateState, calls: Seq<GateCall>, k: int)
    requires
        0 <= k < calls.len(),
    ensures
        state_after(g, calls.take(k + 1)) == call_step(state_after(g, calls.take(k)), calls[k]),
{
    assert(calls.take(k + 1).drop_last() =~= calls.take(k));
    assert(calls.take(k + 1).last() == calls[k]);
}

proof fn lemma_last_accepted_not_before(g: GateState, calls: Seq<GateCall>, i: int, k: int)
    requires
        g.cooldown >= 0,
        0 <= i < k <= calls.len(),
        answer_at(g, calls, i) matches Some(Decision::Accepted(_)),
    ensures
        state_after(g, calls.take(k)).last_accepted matches Some(l) && utc_nanos(l) >= utc_nanos(
            call_time(calls[i]),
        ),
    decreases k - i,
{
    lemma_state_after_step(g, calls, k - 1);
    lemma_cooldown_kept(g, calls, k - 1);
    let before = state_after(g, calls.take(k - 1));
    if k > i + 1 {
        lemma_last_accepted_not_before(g, calls, i, k - 1);
        match calls[k - 1] {
            GateCall::Request(now, id) => {
                let step = request_step(before, now, id);
                if step.0 != before {
                    assert(step.0.last_accepted == Some(now));
                    assert(elapsed_nanos(before.last_accepted->0, now) >= before.cooldown);
                }
            },
            GateCall::Finish(id) => {},
        }
    } else {
        match calls[i] {
            GateCall::Request(now, id) => {
                assert(request_step(before, now, id).1 is Accepted);
                assert(request_step(before, now, id).0.last_accepted == Some(now));
            },
            GateCall::Finish(_) => {},
        }
    }
}

/// Of any two requests that start a run, the later one comes at least a
/// cooldown after the earlier one, whatever calls come before, between and
/// after them.
pub proof fn law_one_accepted_run_per_cooldown(g: GateState, calls: Seq<GateCall>, i: int, j: int)
    requires
        g.cooldown >= 0,
        0 <= i < j < calls.len(),
        answer_at(g, calls, i) matches Some(Decision::Accepted(_)),
        answer_at(g, calls, j) matches Some(Decision::Accepted(_)),
    ensures
        elapsed_nanos(call_time(calls[i]), call_time(calls[j])) >= g.cooldown,
{
    lemma_last_accepted_not_before(g, calls, i, j);
    lemma_cooldown_kept(g, calls, j);
    let before = state_after(g, calls.take(j));
    match calls[j] {
        GateCall::Request(now, id) => {
            assert(request_step(before, now, id).1 is Accepted);
            assert(before.active_run is None);
            assert(elapsed_nanos(before.last_accepted->0, now) >= before.cooldown);
        },
        GateCall::Finish(_) => {},
    }
}

proof fn lemma_run_stays_active(g: GateState, calls: Seq<GateCall>, i: int, k: int, a: Seq<char>)
    requires
        0 <= i < k <= calls.len(),
        answer_at(g, calls, i) == Some(Decision::Accepted(a)),
        forall|m: int| i < m < k ==> calls[m] != GateCall::Finish(a),
    ensures
        state_after(g, calls.take(k)).active_run == Some(a),
    decreases k - i,
{
    lemma_state_after_step(g, calls, k - 1);
    if k > i + 1 {
        lemma_run_stays_active(g, calls, i, k - 1, a);
    }
}

/// Once a request has started run `a`, every request until `a` finishes is
/// answered with `a`.
pub proof fn law_accepted_run_is_reused_until_it_finishes(
    g: GateState,
    calls: Seq<GateCall>,
    i: int,
    k: int,
    a: Seq<char>,
)
    requires
        0 <= i < k < calls.len(),
        answer_at(g, calls, i) == Some(Decision::Accepted(a)),
        forall|m: int| i < m < k ==> calls[m] != GateCall::Finish(a),
        calls[k] is Request,
    ensures
        answer_at(g, calls, k) == Some(Decision::Reused(a)),
{
    lemma_run_stays_active(g, calls, i, k, a);
}

proof fn lemma_last_accepted_is_a_request(g: GateState, calls: Seq<GateCall>, k: int)
    requires
        g.last_accepted is None,
        0 <= k <= calls.len(),
    ensures
        state_after(g, calls.take(k)).last_accepted matches Some(l) ==> exists|a: int|
            0 <= a < k && #[trigger] calls[a] is Request && call_time(calls[a]) == l,
    decreases k,
{
    if k == 0 {
        assert(calls.take(0) =~= Seq::<GateCall>::empty());
    } else {
        lemma_state_after_step(g, calls, k - 1);
        lemma_last_accepted_is_a_request(g, calls, k - 1);
        let before = state_after(g, calls.take(k - 1));
        let after = state_after(g, calls.take(k));
        if after.last_accepted is Some && after.last_accepted != before.last_accepted {
            assert(calls[k - 1] is Request);
        }
    }
}

proof fn lemma_state_held_while_refused(g: GateState, calls: Seq<GateCall>, r: int, k: int)
    requires
        0 <= r < k <= calls.len(),
        answer_at(g, calls, r) matches Some(Decision::RateLimited(_)),
        forall|m: int| r < m < k ==> !(#[trigger] answer_at(g, calls, m) matches Some(Decision::Accepted(_))),
    ensures
        state_after(g, calls.take(k)) == state_after(g, calls.take(r)),
    decreases k - r,
{
    lemma_state_after_step(g, calls, k - 1);
    let at_r = state_after(g, calls.take(r));
    assert(at_r.active_run is None);
    if k > r + 1 {
        lemma_state_held_while_refused(g, calls, r, k - 1);
        assert(!(answer_at(g, calls, k - 1) matches Some(Decision::Accepted(_))));
    }
}

proof fn lemma_whole_millis_wait(remaining: int, s: int)
    requires
        remaining > 0,
        remaining % 1_000_000 == 0,
        s == (remaining / 1_000_000 + 999) / 1000,
    ensures
        s * 1_000_000_000 >= remaining,
        s >= 1,
{
    assert(remaining == (remaining / 1_000_000) * 1_000_000) by (nonlinear_arith)
        requires
            remaining % 1_000_000 == 0,
    ;
    let ms = remaining / 1_000_000;
    assert(ms >= 1) by (nonlinear_arith)
        requires
            remaining == ms * 1_000_000,
            remaining > 0,
    ;
    assert(s * 1000 >= ms) by (nonlinear_arith)
        requires
            s == (ms + 999) / 1000,
            ms >= 1,
    ;
    assert(s * 1_000_000_000 >= remaining) by (nonlinear_arith)
        requires
            s * 1000 >= ms,
            remaining == ms * 1_000_000,
    ;
}

proof fn lemma_wait_bounded(remaining: int, cooldown: int)
    requires
        0 < remaining <= cooldown,
    ensures
        (remaining / 1_000_000 + 999) / 1000 <= (cooldown / 1_000_000 + 999) / 1000,
{
    assert(remaining / 1_000_000 <= cooldown / 1_000_000) by (nonlinear_arith)
        requires
            0 < remaining <= cooldown,
    ;
    assert((remaining / 1_000_000 + 999) / 1000 <= (cooldown / 1_000_000 + 999) / 1000)
        by (nonlinear_arith)
        requires
            0 <= remaining / 1_000_000 <= cooldown / 1_000_000,
    ;
}

/// With a cooldown and request instants in whole milliseconds and a clock
/// that never goes back, the wait a refused caller is told is at least one
/// second and at most the cooldown rounded up to seconds, and a request once
/// that wait is over starts a new run, whatever ends of runs and refused
/// requests come in between.
pub proof fn law_waiting_the_told_time_is_enough(
    g: GateState,
    calls: Seq<GateCall>,
    r: int,
    q: int,
    s: int,
)
    requires
        g.last_accepted is None,
        g.cooldown > 0,
        g.cooldown % 1_000_000 == 0,
        forall|k: int|
            0 <= k < calls.len() && #[trigger] calls[k] is Request ==> utc_nanos(call_time(calls[k]))
                % 1_000_000 == 0,
        forall|k: int, l: int|
            0 <= k < l < calls.len() && #[trigger] calls[k] is Request && #[trigger] calls[l] is Request
                ==> utc_nanos(call_time(calls[k])) <= utc_nanos(call_time(calls[l])),
        0 <= r < q < calls.len(),
        answer_at(g, calls, r) == Some(Decision::RateLimited(s)),
        forall|m: int| r < m < q ==> !(#[trigger] answer_at(g, calls, m) matches Some(Decision::Accepted(_))),
        calls[q] is Request,
        utc_nanos(call_time(calls[q])) >= utc_nanos(call_time(calls[r])) + s * 1_000_000_000,
    ensures
        1 <= s <= (g.cooldown / 1_000_000 + 999) / 1000,
        answer_at(g, calls, q) == Some(Decision::Accepted(call_run_id(calls[q]))),
{
    let at_r = state_after(g, calls.take(r));
    lemma_last_accepted_is_a_request(g, calls, r);
    lemma_state_held_while_refused(g, calls, r, q);
    assert(calls[r] is Request);
    let l = at_r.last_accepted->0;
    let a = choose|a: int| 0 <= a < r && #[trigger] calls[a] is Request && call_time(calls[a]) == l;
    assert(calls[a] is Request && calls[r] is Request);
    let tr = call_time(calls[r]);
    let elapsed = elapsed_nanos(l, tr);
    assert(elapsed >= 0);
    let remaining = g.cooldown - elapsed;
    assert(remaining % 1_000_000 == 0) by (nonlinear_arith)
        requires
            g.cooldown % 1_000_000 == 0,
            utc_nanos(l) % 1_000_000 == 0,
            utc_nanos(tr) % 1_000_000 == 0,
            remaining == g.cooldown - (utc_nanos(tr) - utc_nanos(l)),
    ;
    assert(at_r.cooldown == g.cooldown) by {
        lemma_cooldown_kept(g, calls, r);
    }
    assert(s == (remaining / 1_000_000 + 999) / 1000);
    lemma_whole_millis_wait(remaining, s);
    lemma_wait_bounded(remaining, g.cooldown);
}

proof fn lemma_cooldown_kept(g: GateState, calls: Seq<GateCall>, k: int)
    requires
        0 <= k <= calls.len(),
    ensures
        state_after(g, calls.take(k)).cooldown == g.cooldown,
    decreases k,
{
    if k == 0 {
        assert(calls.take(0) =~= Seq::<GateCall>::empty());
    } else {
        lemma_state_after_step(g, calls, k - 1);
        lemma_cooldown_kept(g, calls, k - 1);
    }
}

struct ManualRunState {
    active_run_id: Option<String>,
    last_accepted_at: Option<UtcTime>,
}

/// Admits runs that users ask for.
pub struct ManualRunGate {
    cooldown: TimeSpan,
    state: ManualRunState,
}

impl ManualRunGate {
    /// The state of the guard.
    pub closed spec fn gate_state(&self) -> GateState {
        GateState {
            cooldown: self.cooldown.total_nanos(),
            active_run: match self.state.active_run_id {
                Some(id) => Some(id@),
                None => None,
            },
            last_accepted: self.state.last_accepted_at,
        }
    }

    /// A guard with no run in progress and none accepted yet.
    pub fn new(cooldown: TimeSpan) -> (r: ManualRunGate)
        ensures
            r.gate_state() == (GateState {
                cooldown: cooldown.total_nanos(),
                active_run: None,
                last_accepted: None,
            }),
    {
        ManualRunGate {
            cooldown,
            state: ManualRunState { active_run_id: None, last_accepted_at: None },
        }
    }

    /// Answers a request at `now` for a run with id `run_id`: the run in
    /// progress if there is one, a refusal while the cooldown since the last
    /// accepted run lasts, and otherwise a new run under `run_id`.
    pub fn request(&mut self, now: UtcTime, run_id: String) -> (r: ManualRunDecision)
        ensures
            (final(self).gate_state(), r@) == request_step(old(self).gate_state(), now, run_id@),
    {
        match &self.state.active_run_id {
            Some(active) => {
                return ManualRunDecision::Reused { run_id: active.clone() };
            },
            None => {},
        }
        match self.state.last_accepted_at {
            Some(last) => {
                let elapsed: i128 = ((now.secs as i128) - (last.secs as i128)) * 1_000_000_000 + ((
                now.nanos as i128) - (last.nanos as i128));
                let cooldown = self.cooldown.as_nanos();
                if elapsed < cooldown {
                    let remaining: i128 = if elapsed < 0 {
                        cooldown
                    } else {
                        cooldown - elapsed
                    };
                    let millis: u64 = if remaining >= 1_000_000 {
                        (remaining / 1_000_000) as u64
                    } else {
                        0
                    };
                    let seconds: u64 = millis / 1000 + if millis % 1000 == 0 {
                        0
                    } else {
                        1
                    };
                    proof {
                        assert(seconds == (millis + 999) / 1000);
                    }
                    return ManualRunDecision::RateLimited { retry_after_seconds: seconds };
                }
            },
            None => {},
        }
        self.state.active_run_id = Some(run_id.clone());
        self.state.last_accepted_at = Some(now);
        ManualRunDecision::Accepted { run_id }
    }

    /// Marks the run with id `run_id` as finished; the run in progress ends
    /// when it is that run.
    pub fn finish(&mut self, run_id: &str)
        ensures
            final(self).gate_state() == finish_step(old(self).gate_state(), run_id@),
    {
        let ends = match &self.state.active_run_id {
            Some(active) => same_text(active.as_str(), run_id),
            None => false,
        };
        if ends {
            self.state.active_run_id = None;
        }
    }
}

} // verus!
