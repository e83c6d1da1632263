//! What the scheduler guarantees, stated over its mathematical model and
//! proved: the order of its visits, when it ticks, and what a failure
//! leaves untouched.

use crate::coin::{same_balances, CoinView};
use crate::contract::ContractWithDataView;
use crate::scheduler::{Action, EventView, Outcome, PhaseView, SchedulerView};
use vstd::arithmetic::div_mod::{lemma_mod_multiples_vanish, lemma_small_mod};
use vstd::multiset::{axiom_multiset_add, axiom_multiset_empty, lemma_multiset_empty_len};
use vstd::prelude::*;
use vstd::seq_lib::{lemma_multiset_commutative, lemma_seq_union_to_multiset_commutative};

verus! {

/// The contract visited `k` cycles after the one at `start`, on a ring of
/// `n` contracts.
pub open spec fn turn(start: nat, n: nat, k: nat) -> nat {
    (start + k) % n
}

/// The first `len` visits of a ring of `n` contracts that starts at
/// `start`.
pub open spec fn ring(start: nat, n: nat, len: nat) -> Seq<nat> {
    Seq::new(len, |k: int| turn(start, n, k as nat))
}

impl SchedulerView {
    /// The event opens a cycle: the scheduler is idle and is woken.
    pub open spec fn starts_cycle(self, event: EventView) -> bool {
        self.phase is Idle && event is Wake
    }

    /// The scheduler after a sequence of events.
    pub open spec fn run(self, events: Seq<EventView>) -> SchedulerView
        decreases events.len(),
    {
        if events.len() == 0 {
            self
        } else {
            self.step(events.first()).0.run(events.drop_first())
        }
    }

    /// The contracts that the cycles opened by a sequence of events visit,
    /// in the order of the cycles.
    pub open spec fn visits(self, events: Seq<EventView>) -> Seq<nat>
        decreases events.len(),
    {
        if events.len() == 0 {
            Seq::empty()
        } else {
            let later = self.step(events.first()).0.visits(events.drop_first());
            if self.starts_cycle(events.first()) {
                seq![self.cursor] + later
            } else {
                later
            }
        }
    }

    /// Same registry: as many contracts, each of the same kind, on the
    /// same chain, at the same address, in the same order; and the same
    /// chains.
    pub open spec fn same_registry(self, other: SchedulerView) -> bool {
        &&& self.contracts.len() == other.contracts.len()
        &&& self.chains == other.chains
        &&& self.policy == other.policy
        &&& forall|i: int|
            0 <= i < self.contracts.len() ==> {
                &&& (#[trigger] self.contracts[i]).ctype == other.contracts[i].ctype
                &&& self.contracts[i].chain_prefix == other.contracts[i].chain_prefix
                &&& self.contracts[i].address == other.contracts[i].address
            }
    }
}

/// A number below twice the modulus is reduced by at most one subtraction.
proof fn lemma_wrap(x: int, n: int)
    requires
        0 < n,
        0 <= x < 2 * n,
    ensures
        x % n == if x < n {
            x
        } else {
            x - n
        },
{
    if x < n {
        lemma_small_mod(x as nat, n as nat);
    } else {
        lemma_small_mod((x - n) as nat, n as nat);
        lemma_mod_multiples_vanish(1, x - n, n);
        assert(n * 1 + (x - n) == x);
    }
}

/// A step keeps the scheduler well formed and never touches the registry:
/// the contracts stay what and where they are, in their order. Only what
/// is stored for a contract can change, and only the position of the
/// cursor and the phase besides.
pub proof fn lemma_step_keeps_registry(s: SchedulerView, event: EventView)
    requires
        s.wf(),
    ensures
        s.step(event).0.wf(),
        s.step(event).0.same_registry(s),
{
    let after = s.step(event).0;
    match (s.phase, event) {
        (PhaseView::Ticking { subject, state, balances }, EventView::Ticked) => {
            assert forall|i: int| 0 <= i < after.contracts.len() implies {
                &&& (#[trigger] after.contracts[i]).ctype == s.contracts[i].ctype
                &&& after.contracts[i].chain_prefix == s.contracts[i].chain_prefix
                &&& after.contracts[i].address == s.contracts[i].address
            } by {}
        },
        _ => {},
    }
}

/// Round robin, the order. Whatever happens in the cycles (queries that
/// fail, ticks that fail or go through, events out of turn), the cycle
/// that is opened `k` cycles from now visits the contract `k` places after
/// the cursor on the ring: the visits are the registry's order, rotated.
pub proof fn lemma_visits_rotate(s: SchedulerView, events: Seq<EventView>, k: int)
    requires
        s.wf(),
        0 <= k < s.visits(events).len(),
    ensures
        s.visits(events)[k] == turn(s.cursor, s.contracts.len(), k as nat),
    decreases events.len(),
{
    let n = s.contracts.len();
    let after = s.step(events.first()).0;
    let later = after.visits(events.drop_first());
    lemma_step_keeps_registry(s, events.first());
    if s.starts_cycle(events.first()) {
        if k == 0 {
            lemma_small_mod(s.cursor, n);
        } else {
            lemma_visits_rotate(after, events.drop_first(), k - 1);
            if s.cursor + 1 < n {
                assert(after.cursor + (k - 1) == s.cursor + k);
            } else {
                lemma_mod_multiples_vanish(1, k - 1, n as int);
                assert(n * 1 + (k - 1) == s.cursor + k);
            }
        }
    } else {
        assert(after.cursor == s.cursor);
        lemma_visits_rotate(after, events.drop_first(), k);
    }
}

/// One round of the ring visits every contract once.
proof fn lemma_one_round(start: nat, n: nat, actor: nat)
    requires
        start < n,
        actor < n,
    ensures
        ring(start, n, n).to_multiset().count(actor) == 1,
{
    let r = ring(start, n, n);
    assert forall|i: int, j: int| 0 <= i < r.len() && 0 <= j < r.len() && i != j implies r[i]
        != r[j] by {
        lemma_wrap(start + i, n as int);
        lemma_wrap(start + j, n as int);
    }
    r.lemma_multiset_has_no_duplicates();
    let at: int = if actor >= start {
        actor - start
    } else {
        actor + n - start
    };
    lemma_wrap(start + at, n as int);
    assert(r[at] == actor);
    r.to_multiset_ensures();
    assert(r.contains(actor));
}

/// `m` rounds of the ring visit every contract `m` times.
proof fn lemma_rounds(start: nat, n: nat, m: nat, actor: nat)
    requires
        start < n,
        actor < n,
    ensures
        ring(start, n, m * n).to_multiset().count(actor) == m,
    decreases m,
{
    if m == 0 {
        let none = ring(start, n, 0);
        assert(m * n == 0) by (nonlinear_arith)
            requires
                m == 0,
        ;
        none.to_multiset_ensures();
        lemma_multiset_empty_len(none.to_multiset());
        axiom_multiset_empty(actor);
    } else {
        let before = ((m - 1) * n) as nat;
        assert(m * n == before + n) by (nonlinear_arith)
            requires
                m >= 1,
                before == (m - 1) * n,
        ;
        let head = ring(start, n, before);
        let tail = ring(start, n, n);
        let all = ring(start, n, m * n);
        assert(all =~= head + tail) by {
            assert forall|k: int| before <= k < all.len() implies all[k] == tail[k - before] by {
                lemma_mod_multiples_vanish(m - 1, start + (k - before), n as int);
                assert(n * (m - 1) == before) by (nonlinear_arith)
                    requires
                        before == (m - 1) * n,
                ;
            }
        }
        lemma_multiset_commutative(head, tail);
        axiom_multiset_add(head.to_multiset(), tail.to_multiset(), actor);
        lemma_rounds(start, n, (m - 1) as nat, actor);
        lemma_one_round(start, n, actor);
    }
}

/// Round robin, the share. Over any run that opens `m` times as many
/// cycles as there are contracts, every contract is visited exactly `m`
/// times.
pub proof fn lemma_fair_share(s: SchedulerView, events: Seq<EventView>, m: nat, actor: nat)
    requires
        s.wf(),
        s.visits(events).len() == m * s.contracts.len(),
        actor < s.contracts.len(),
    ensures
        s.visits(events).to_multiset().count(actor) == m,
{
    let n = s.contracts.len();
    let seen = s.visits(events);
    assert(seen =~= ring(s.cursor, n, m * n)) by {
        assert forall|k: int| 0 <= k < seen.len() implies seen[k] == ring(s.cursor, n, m * n)[k] by {
            lemma_visits_rotate(s, events, k);
        }
    }
    lemma_rounds(s.cursor, n, m, actor);
}

/// Change detection. An observation with the stored bytes and the stored
/// coins, in whatever order the coins come, is no change. One byte that
/// differs, bytes more or fewer, or one coin that occurs more or less
/// often than it is stored, is a change.
pub proof fn lemma_change_detection(
    stored: ContractWithDataView,
    state: Seq<u8>,
    balances: Seq<CoinView>,
)
    ensures
        state == stored.state && balances.to_multiset() == stored.balances.to_multiset()
            ==> !stored.changed(state, balances),
        state.len() != stored.state.len() ==> stored.changed(state, balances),
        (exists|i: int| 0 <= i < state.len() && state[i] != stored.state[i]) ==> stored.changed(
            state,
            balances,
        ),
        (exists|coin: CoinView|
            balances.to_multiset().count(coin) != stored.balances.to_multiset().count(coin))
            ==> stored.changed(state, balances),
{
}

/// The order of a balance list is of no account: the two halves of a list
/// swapped, or the whole list reversed, are the same balances.
pub proof fn lemma_order_is_ignored(a: Seq<CoinView>, b: Seq<CoinView>)
    ensures
        same_balances(a + b, b + a),
        same_balances(a, a.reverse()),
{
    lemma_seq_union_to_multiset_commutative(a, b);
    a.lemma_reverse_to_multiset();
}

/// The first tick. While nothing is stored for a contract, any observation
/// that is not empty is a change, so it is answered with a tick.
pub proof fn lemma_first_observation_ticks(
    s: SchedulerView,
    subject: nat,
    state: Seq<u8>,
    balances: Seq<CoinView>,
)
    requires
        s.wf(),
        s.phase == (PhaseView::QueryingBalances { subject, state }),
        !s.contracts[subject as int].has_snapshot(),
        state.len() > 0 || balances.len() > 0,
    ensures
        s.step(EventView::Balances(balances)).1 == Ok::<Action, crate::scheduler::StepError>(
            Action::Tick { subject: subject as usize },
        ),
{
    let stored = s.contracts[subject as int];
    if state.len() == 0 {
        balances.to_multiset_ensures();
        stored.balances.to_multiset_ensures();
    }
}

/// A failed query. It ends the cycle with the long pause and changes
/// nothing else: what is stored stays, and the cursor stays, so the next
/// cycle visits the contract whose turn it is anyway.
pub proof fn lemma_failed_query_changes_nothing(s: SchedulerView)
    requires
        s.wf(),
        s.phase is QueryingState || s.phase is QueryingBalances,
    ensures
        s.step(EventView::QueryFailed).0 == (SchedulerView { phase: PhaseView::Idle, ..s }),
        s.step(EventView::QueryFailed).1 matches Ok(Action::Sleep { seconds, outcome, .. }) && (seconds
            == s.policy.error_cooldown && outcome == Outcome::QueryFailed),
        s.step(EventView::QueryFailed).0.visits(seq![EventView::Wake]) == seq![s.cursor],
{
    let after = s.step(EventView::QueryFailed).0;
    let wake = seq![EventView::Wake];
    assert(wake.first() == EventView::Wake);
    assert(after.step(EventView::Wake).0.visits(wake.drop_first()) =~= Seq::<nat>::empty());
    assert(after.visits(wake) =~= seq![s.cursor]);
}

/// A failed tick. It stores nothing, so the change is still there: when
/// the contract is next observed as it was, it is ticked again. The
/// failure is worth an alert only if something was stored before.
pub proof fn lemma_failed_tick_is_retried(s: SchedulerView, later: SchedulerView)
    requires
        s.wf(),
        later.wf(),
        s.phase is Ticking,
        later.phase == (PhaseView::QueryingBalances {
            subject: s.phase->Ticking_subject,
            state: s.phase->Ticking_state,
        }),
        later.contracts.len() == s.contracts.len(),
        later.contracts[s.phase->Ticking_subject as int] == s.step(
            EventView::TickFailed,
        ).0.contracts[s.phase->Ticking_subject as int],
    ensures
        s.step(EventView::TickFailed).0.contracts == s.contracts,
        s.step(EventView::TickFailed).1 == Ok::<Action, crate::scheduler::StepError>(
            Action::Sleep {
                seconds: s.policy.poll_interval,
                subject: s.phase->Ticking_subject as usize,
                outcome: Outcome::TickFailed {
                    escalate: s.contracts[s.phase->Ticking_subject as int].has_snapshot(),
                },
            },
        ),
        later.step(EventView::Balances(s.phase->Ticking_balances)).1 == Ok::<
            Action,
            crate::scheduler::StepError,
        >(Action::Tick { subject: s.phase->Ticking_subject as usize }),
{
}

/// A tick that went through stores the observation, and the same
/// observation is then no change.
pub proof fn lemma_tick_settles(s: SchedulerView)
    requires
        s.wf(),
        s.phase is Ticking,
    ensures
        s.step(EventView::Ticked).0.contracts[s.phase->Ticking_subject as int]
            == s.contracts[s.phase->Ticking_subject as int].recorded(
            s.phase->Ticking_state,
            s.phase->Ticking_balances,
        ),
        !s.step(EventView::Ticked).0.contracts[s.phase->Ticking_subject as int].changed(
            s.phase->Ticking_state,
            s.phase->Ticking_balances,
        ),
{
}

/// Contracts without state. Their state is never asked for, and a tick of
/// one of them always answers balances that are not the stored ones.
pub proof fn lemma_stateless_kinds(s: SchedulerView, event: EventView)
    requires
        s.wf(),
    ensures
        s.step(event).1 matches Ok(Action::QueryState { subject })
            ==> s.contracts[subject as int].ctype.has_state(),
        s.step(event).1 matches Ok(Action::Tick { subject }) ==> (!s.contracts[subject as int].ctype.has_state()
            ==> (event matches EventView::Balances(balances) && !same_balances(
            balances,
            s.contracts[subject as int].balances,
        ))),
{
    match (s.phase, event) {
        (PhaseView::QueryingBalances { subject, state }, EventView::Balances(balances)) => {
            if !s.contracts[subject as int].ctype.has_state() {
                assert(state =~= s.contracts[subject as int].state);
            }
        },
        _ => {},
    }
}

} // verus!
