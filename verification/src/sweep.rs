//! The due-set scanner and the greeting dispatcher.
//!
//! A sweep takes a snapshot of the stored users, keeps those whose birthday
//! is today and whose cool-down has elapsed, and then works through them one
//! at a time: the caller sends each greeting over the chat transport and
//! reports back whether the send succeeded. Only a successful send produces
//! a write that advances the user's cool-down marker; a failed send leaves
//! the user eligible for the next sweep and is recorded in the report.

use vstd::prelude::*;
use crate::models::{Date, User};

verus! {

/// How far a successful greeting advances the cool-down marker: one day
/// plus a small safety margin, so the user stays excluded for the rest of
/// today but is long since eligible at next year's occurrence.
pub const COOLDOWN_SECS: u64 = 24 * 60 * 60 + 100;

/// The user is due for a greeting: the birthday matches today and the
/// cool-down marker has elapsed.
pub open spec fn is_due(u: User, today: Date, now: u64) -> bool {
    u.birth.day == today.day && u.birth.month == today.month && u.last_greeted_timestamp <= now
}

/// The due users of a snapshot, in snapshot order.
pub open spec fn due_seq(s: Seq<User>, today: Date, now: u64) -> Seq<User>
    decreases s.len(),
{
    if s.len() == 0 {
        Seq::empty()
    } else {
        let rest = due_seq(s.drop_first(), today, now);
        if is_due(s[0], today, now) {
            seq![s[0]] + rest
        } else {
            rest
        }
    }
}

/// A user stands in the due set exactly when it stands in the snapshot,
/// its birthday matches today, and its cool-down has elapsed. In
/// particular, a user whose marker lies in the future is never included,
/// however often the sweep is re-run.
pub proof fn lemma_due_seq_membership(s: Seq<User>, today: Date, now: u64, u: User)
    ensures
        due_seq(s, today, now).contains(u) <==> s.contains(u) && is_due(u, today, now),
    decreases s.len(),
{
    if s.len() > 0 {
        let rest = due_seq(s.drop_first(), today, now);
        lemma_due_seq_membership(s.drop_first(), today, now, u);
        assert(s.contains(u) <==> u == s[0] || s.drop_first().contains(u)) by {
            if s.contains(u) {
                let i = choose|i: int| 0 <= i < s.len() && s[i] == u;
                if i > 0 {
                    assert(s.drop_first()[i - 1] == u);
                }
            }
            if s.drop_first().contains(u) {
                let i = choose|i: int| 0 <= i < s.drop_first().len() && s.drop_first()[i] == u;
                assert(s[i + 1] == u);
            }
        }
        if is_due(s[0], today, now) {
            let whole = seq![s[0]] + rest;
            assert(whole.contains(u) <==> u == s[0] || rest.contains(u)) by {
                if whole.contains(u) {
                    let i = choose|i: int| 0 <= i < whole.len() && whole[i] == u;
                    if i == 0 {
                        assert(whole[0] == s[0]);
                    } else {
                        assert(rest[i - 1] == u);
                        assert(rest.contains(u));
                    }
                }
                if u == s[0] {
                    assert(whole[0] == u);
                    assert(whole.contains(u));
                }
                if rest.contains(u) {
                    let i = choose|i: int| 0 <= i < rest.len() && rest[i] == u;
                    assert(whole[i + 1] == u);
                    assert(whole.contains(u));
                }
            }
        }
    }
}

/// The cool-down marker is the sole gate against duplicate greetings: a
/// user whose marker lies past `now` is never in the due set, while a
/// user in the snapshot whose birthday matches today and whose marker has
/// elapsed always is.
pub proof fn lemma_cooldown_gate(s: Seq<User>, u: User, today: Date, now: u64)
    ensures
        now < u.last_greeted_timestamp ==> !due_seq(s, today, now).contains(u),
        s.contains(u) && u.birth.day == today.day && u.birth.month == today.month
            && u.last_greeted_timestamp <= now ==> due_seq(s, today, now).contains(u),
{
    lemma_due_seq_membership(s, today, now, u);
}

/// Decides `is_due`.
fn check_due(u: &User, today: Date, now: u64) -> (r: bool)
    ensures
        r == is_due(*u, today, now),
{
    u.birth.day == today.day && u.birth.month == today.month && u.last_greeted_timestamp <= now
}

/// Filters a store snapshot down to the users due today.
pub fn find_due(snapshot: Vec<User>, today: Date, now: u64) -> (r: Vec<User>)
    ensures
        r@ == due_seq(snapshot@, today, now),
{
    let ghost orig = snapshot@;
    let mut rest = snapshot;
    let mut r: Vec<User> = Vec::new();
    while rest.len() > 0
        invariant
            due_seq(orig, today, now) =~= r@ + due_seq(rest@, today, now),
        decreases rest.len(),
    {
        let ghost before = rest@;
        let u = rest.remove(0);
        proof {
            assert(rest@ =~= before.drop_first());
        }
        if check_due(&u, today, now) {
            r.push(u);
        }
    }
    proof {
        assert(due_seq(orig, today, now) =~= r@);
    }
    r
}

/// The record written back after a successful greeting: the same user with
/// the cool-down marker advanced past today.
pub open spec fn spec_advance(u: User, now: u64) -> User {
    User { last_greeted_timestamp: (now + COOLDOWN_SECS) as u64, ..u }
}

/// The greeting text for a user's handle.
pub open spec fn greeting_of(name: Seq<char>) -> Seq<char> {
    "Happy birthday, @"@ + name
}

/// Builds the greeting text for a user's handle.
pub fn greeting_text(username: &str) -> (r: String)
    ensures
        r@ == greeting_of(username@),
{
    let mut r = String::from_str("Happy birthday, @");
    r.append(username);
    r
}

/// One greeting ready to send.
pub struct Greeting {
    pub chat_id: i64,
    pub text: String,
}

/// One sweep in progress: the due users still to be attempted in order
/// (the next target is the first element), the number of greetings sent,
/// and the ids of users whose send failed.
pub struct SweepState {
    pub pending: Vec<User>,
    pub sent: u64,
    pub failed: Vec<i64>,
}

impl SweepState {
    /// The sent counter can still count every pending user.
    pub open spec fn wf(self) -> bool {
        self.sent + self.pending@.len() <= u64::MAX
    }

    /// Starts a sweep over a store snapshot: the due set becomes the work
    /// list, nothing sent and nothing failed yet.
    pub fn start(snapshot: Vec<User>, today: Date, now: u64) -> (st: SweepState)
        ensures
            st.pending@ == due_seq(snapshot@, today, now),
            st.sent == 0,
            st.failed@ == Seq::<i64>::empty(),
            st.wf(),
    {
        let pending = find_due(snapshot, today, now);
        let failed: Vec<i64> = Vec::new();
        proof {
            broadcast use vstd::std_specs::vec::axiom_spec_len;

            assert(failed@ =~= Seq::<i64>::empty());
            assert(pending.len() == pending@.len());
        }
        SweepState { pending, sent: 0, failed }
    }

    /// The greeting for the next pending user, or `None` when the sweep is
    /// done.
    pub fn next_greeting(&self) -> (g: Option<Greeting>)
        ensures
            match g {
                None => self.pending@.len() == 0,
                Some(g) => {
                    &&& self.pending@.len() > 0
                    &&& g.chat_id == self.pending@[0].chat_id
                    &&& g.text@ == greeting_of(self.pending@[0].username@)
                },
            },
    {
        if self.pending.len() == 0 {
            None
        } else {
            let u = &self.pending[0];
            Some(Greeting { chat_id: u.chat_id, text: greeting_text(u.username.as_str()) })
        }
    }

    /// Records that the greeting to the next pending user was sent, and
    /// returns that user's record with the marker advanced; the caller
    /// must upsert it. The advance never precedes the send: this is only
    /// called after the send succeeded.
    pub fn record_success(&mut self, now: u64) -> (w: User)
        requires
            old(self).wf(),
            old(self).pending@.len() > 0,
            now + COOLDOWN_SECS <= u64::MAX,
        ensures
            w == spec_advance(old(self).pending@[0], now),
            final(self).pending@ == old(self).pending@.drop_first(),
            final(self).sent == old(self).sent + 1,
            final(self).failed == old(self).failed,
            final(self).wf(),
    {
        let mut u = self.pending.remove(0);
        proof {
            assert(self.pending@ =~= old(self).pending@.drop_first());
        }
        u.last_greeted_timestamp = now + COOLDOWN_SECS;
        self.sent = self.sent + 1;
        u
    }

    /// Records that the greeting to the next pending user could not be
    /// sent: no write happens, the user stays eligible for the next sweep,
    /// and the failure is reported; the sweep goes on with the rest.
    pub fn record_failure(&mut self)
        requires
            old(self).wf(),
            old(self).pending@.len() > 0,
        ensures
            final(self).pending@ == old(self).pending@.drop_first(),
            final(self).sent == old(self).sent,
            final(self).failed@ == old(self).failed@.push(old(self).pending@[0].id),
            final(self).wf(),
    {
        let u = self.pending.remove(0);
        proof {
            assert(self.pending@ =~= old(self).pending@.drop_first());
        }
        self.failed.push(u.id);
    }
}

/// The records a whole sweep writes back, given the due set and the
/// outcome of each send attempt: one advanced record per successful send.
pub open spec fn sweep_writes(due: Seq<User>, ok: Seq<bool>, now: u64) -> Seq<User>
    decreases due.len(),
{
    if due.len() == 0 {
        Seq::empty()
    } else {
        let tail = if ok.len() > 0 {
            ok.drop_first()
        } else {
            ok
        };
        let rest = sweep_writes(due.drop_first(), tail, now);
        if ok.len() > 0 && ok[0] {
            seq![spec_advance(due[0], now)] + rest
        } else {
            rest
        }
    }
}

/// The ids a whole sweep reports as failed, given the due set and the
/// outcome of each send attempt.
pub open spec fn sweep_failed_ids(due: Seq<User>, ok: Seq<bool>) -> Seq<i64>
    decreases due.len(),
{
    if due.len() == 0 {
        Seq::empty()
    } else {
        let tail = if ok.len() > 0 {
            ok.drop_first()
        } else {
            ok
        };
        let rest = sweep_failed_ids(due.drop_first(), tail);
        if ok.len() > 0 && ok[0] {
            rest
        } else {
            seq![due[0].id] + rest
        }
    }
}

/// The failed-id list a sweep accumulates, stepping through the due set
/// from the front as `record_success` and `record_failure` do.
pub open spec fn sweep_failed_after(
    pending: Seq<User>,
    failed: Seq<i64>,
    ok: Seq<bool>,
) -> Seq<i64>
    decreases pending.len(),
{
    if pending.len() == 0 || ok.len() == 0 {
        failed
    } else {
        let next = if ok[0] {
            failed
        } else {
            failed.push(pending[0].id)
        };
        sweep_failed_after(pending.drop_first(), next, ok.drop_first())
    }
}

/// Stepping through the whole due set accumulates exactly the failed ids
/// of the declarative model: the state machine realizes it.
pub proof fn lemma_sweep_run_failed(pending: Seq<User>, failed: Seq<i64>, ok: Seq<bool>)
    requires
        ok.len() == pending.len(),
    ensures
        sweep_failed_after(pending, failed, ok) == failed + sweep_failed_ids(pending, ok),
    decreases pending.len(),
{
    if pending.len() == 0 {
        assert(failed + Seq::<i64>::empty() =~= failed);
    } else {
        let rest = sweep_failed_ids(pending.drop_first(), ok.drop_first());
        if ok[0] {
            lemma_sweep_run_failed(pending.drop_first(), failed, ok.drop_first());
        } else {
            lemma_sweep_run_failed(
                pending.drop_first(),
                failed.push(pending[0].id),
                ok.drop_first(),
            );
            assert(failed.push(pending[0].id) + rest =~= failed + (seq![pending[0].id] + rest));
        }
    }
}

/// Every due user is accounted for at the end of a sweep: one write per
/// successful send plus one reported failure per failed send cover the
/// whole due set. A partial failure never aborts the rest.
pub proof fn lemma_sweep_accounts_for_all(due: Seq<User>, ok: Seq<bool>, now: u64)
    requires
        ok.len() == due.len(),
    ensures
        sweep_writes(due, ok, now).len() + sweep_failed_ids(due, ok).len() == due.len(),
    decreases due.len(),
{
    if due.len() > 0 {
        lemma_sweep_accounts_for_all(due.drop_first(), ok.drop_first(), now);
    }
}

/// Every record a sweep writes is the advanced record of some due user
/// whose send succeeded.
pub proof fn lemma_sweep_writes_from(due: Seq<User>, ok: Seq<bool>, now: u64, w: User)
    requires
        ok.len() == due.len(),
        sweep_writes(due, ok, now).contains(w),
    ensures
        exists|j: int| 0 <= j < due.len() && ok[j] && w == spec_advance(due[j], now),
    decreases due.len(),
{
    if due.len() > 0 {
        let rest = sweep_writes(due.drop_first(), ok.drop_first(), now);
        if ok[0] && w == spec_advance(due[0], now) {
            assert(0 <= 0 < due.len() && ok[0] && w == spec_advance(due[0], now));
        } else {
            assert(rest.contains(w)) by {
                let i = choose|i: int|
                    0 <= i < sweep_writes(due, ok, now).len() && sweep_writes(due, ok, now)[i]
                        == w;
                if ok[0] {
                    assert(rest[i - 1] == w);
                }
            }
            lemma_sweep_writes_from(due.drop_first(), ok.drop_first(), now, w);
            let j = choose|j: int|
                0 <= j < due.drop_first().len() && ok.drop_first()[j] && w == spec_advance(
                    due.drop_first()[j],
                    now,
                );
            assert(0 <= j + 1 < due.len() && ok[j + 1] && w == spec_advance(due[j + 1], now));
        }
    }
}

/// Each due user's outcome shows up in the sweep's effect: a successful
/// send leaves its advanced record among the writes, a failed one leaves
/// its id in the report.
pub proof fn lemma_sweep_outcome(due: Seq<User>, ok: Seq<bool>, now: u64, k: int)
    requires
        ok.len() == due.len(),
        0 <= k < due.len(),
    ensures
        ok[k] ==> sweep_writes(due, ok, now).contains(spec_advance(due[k], now)),
        !ok[k] ==> sweep_failed_ids(due, ok).contains(due[k].id),
    decreases due.len(),
{
    if k == 0 {
        if ok[0] {
            assert(sweep_writes(due, ok, now)[0] == spec_advance(due[0], now));
        } else {
            assert(sweep_failed_ids(due, ok)[0] == due[0].id);
        }
    } else {
        lemma_sweep_outcome(due.drop_first(), ok.drop_first(), now, k - 1);
        if ok[k] {
            let rest = sweep_writes(due.drop_first(), ok.drop_first(), now);
            let i = choose|i: int| 0 <= i < rest.len() && rest[i] == spec_advance(due[k], now);
            if ok[0] {
                assert(sweep_writes(due, ok, now)[i + 1] == spec_advance(due[k], now));
            }
        } else {
            let rest = sweep_failed_ids(due.drop_first(), ok.drop_first());
            let i = choose|i: int| 0 <= i < rest.len() && rest[i] == due[k].id;
            if !ok[0] {
                assert(sweep_failed_ids(due, ok)[i + 1] == due[k].id);
            }
        }
    }
}

/// Re-running a sweep immediately with the same day and time finds none of
/// the users the first run processed successfully: every written record's
/// marker now lies past `now`, so the second run's due set over those
/// records is empty, and at most one greeting per originally due user is
/// sent.
pub proof fn lemma_sweep_safety(due: Seq<User>, ok: Seq<bool>, today: Date, now: u64)
    requires
        ok.len() == due.len(),
        now + COOLDOWN_SECS <= u64::MAX,
    ensures
        due_seq(sweep_writes(due, ok, now), today, now) =~= Seq::<User>::empty(),
{
    let writes = sweep_writes(due, ok, now);
    let second = due_seq(writes, today, now);
    if second.len() > 0 {
        let u = second[0];
        assert(second.contains(u));
        lemma_due_seq_membership(writes, today, now, u);
        lemma_sweep_writes_from(due, ok, now, u);
        let j = choose|j: int| 0 <= j < due.len() && ok[j] && u == spec_advance(due[j], now);
        assert(u.last_greeted_timestamp == now + COOLDOWN_SECS);
        assert(!is_due(u, today, now));
    }
}

/// If the messenger fails for one due user and succeeds for another in the
/// same sweep, the successful user's advanced record is written, the failed
/// user's record is never written (its marker does not advance), and the
/// sweep still completes, reporting the failed user's id.
pub proof fn lemma_partial_failure_isolation(
    due: Seq<User>,
    ok: Seq<bool>,
    now: u64,
    i: int,
    j: int,
)
    requires
        ok.len() == due.len(),
        0 <= i < due.len(),
        0 <= j < due.len(),
        !ok[i],
        ok[j],
        forall|k: int| 0 <= k < due.len() && k != i ==> due[k].id != due[i].id,
    ensures
        sweep_writes(due, ok, now).contains(spec_advance(due[j], now)),
        sweep_failed_ids(due, ok).contains(due[i].id),
        forall|k: int|
            0 <= k < sweep_writes(due, ok, now).len() ==> sweep_writes(due, ok, now)[k].id
                != due[i].id,
{
    lemma_sweep_outcome(due, ok, now, j);
    lemma_sweep_outcome(due, ok, now, i);
    let writes = sweep_writes(due, ok, now);
    assert forall|k: int| 0 <= k < writes.len() implies writes[k].id != due[i].id by {
        assert(writes.contains(writes[k]));
        lemma_sweep_writes_from(due, ok, now, writes[k]);
        let m = choose|m: int|
            0 <= m < due.len() && ok[m] && writes[k] == spec_advance(due[m], now);
        assert(m != i);
    }
}

} // verus!
