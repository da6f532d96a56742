//! The store as mathematics: what each operation does to the two tables,
//! stated over sequences of row views, and the lemmas on sequences that the
//! proofs of the operations rest on.

use crate::rows::{AlertRow, CronRow};
use vstd::prelude::*;

verus! {

/// The state of a store: both tables, in insertion order, and the identifiers
/// that the next insertions get.
pub struct StoreView {
    pub alerts: Seq<AlertRow>,
    pub cron_alerts: Seq<CronRow>,
    pub next_alert_id: i64,
    pub next_cron_id: i64,
}

// ---------------------------------------------------------------------------
// Price alerts
// ---------------------------------------------------------------------------

/// The row that a new price alert starts as: not suppressed, with a cooldown
/// that ends at its creation.
pub open spec fn new_alert(
    id: i64,
    public_key: Seq<char>,
    chat_id: i64,
    coin: Seq<char>,
    token: Seq<char>,
    price: u64,
    now: i64,
) -> AlertRow {
    AlertRow {
        id,
        public_key,
        chat_id,
        coin,
        token,
        price,
        alerted: false,
        created_at: now,
        updated_at: now,
        cooldown_until: Some(now),
    }
}

/// Whether `r` is not suppressed and its target lies in `[lower, upper]`.
pub open spec fn is_open_in(r: AlertRow, lower: u64, upper: u64) -> bool {
    !r.alerted && lower <= r.price <= upper
}

/// The alerts that are not suppressed and whose target lies in
/// `[lower, upper]`.
pub open spec fn find_matching(rows: Seq<AlertRow>, lower: u64, upper: u64) -> Seq<AlertRow> {
    rows.filter(|r: AlertRow| is_open_in(r, lower, upper))
}

/// The alerts of one chat.
pub open spec fn alerts_for_chat(rows: Seq<AlertRow>, chat_id: i64) -> Seq<AlertRow> {
    rows.filter(|r: AlertRow| r.chat_id == chat_id)
}

/// Whether some alert has the identifier `id`.
pub open spec fn has_alert(rows: Seq<AlertRow>, id: i64) -> bool {
    exists|i: int| 0 <= i < rows.len() && (#[trigger] rows[i]).id == id
}

/// `r`, suppressed until `until`.
pub open spec fn cooled(r: AlertRow, until: i64) -> AlertRow {
    AlertRow { alerted: true, cooldown_until: Some(until), ..r }
}

/// The table after the alert `id` is suppressed until `until`.
pub open spec fn apply_cooldown(rows: Seq<AlertRow>, id: i64, until: i64) -> Seq<AlertRow> {
    rows.map_values(
        |r: AlertRow|
            if r.id == id {
                cooled(r, until)
            } else {
                r
            },
    )
}

/// The identifiers of the alerts, in order.
pub open spec fn alert_ids(rows: Seq<AlertRow>) -> Seq<i64> {
    rows.map_values(|r: AlertRow| r.id)
}

/// The table after every alert whose identifier is among `ids` is suppressed
/// until `until`.
pub open spec fn apply_cooldowns(rows: Seq<AlertRow>, ids: Seq<i64>, until: i64) -> Seq<AlertRow> {
    rows.map_values(
        |r: AlertRow|
            if ids.contains(r.id) {
                cooled(r, until)
            } else {
                r
            },
    )
}

/// Whether the cooldown of `r` ended before `now`.
pub open spec fn is_expired(r: AlertRow, now: i64) -> bool {
    r.cooldown_until matches Some(t) && t < now
}

/// `r` with its suppression and its cooldown cleared.
pub open spec fn cleared(r: AlertRow) -> AlertRow {
    AlertRow { alerted: false, cooldown_until: None, ..r }
}

/// The table after a sweep at `now`: every alert whose cooldown ended before
/// `now` is cleared, the others are as they were.
pub open spec fn expire_cooldowns(rows: Seq<AlertRow>, now: i64) -> Seq<AlertRow> {
    rows.map_values(
        |r: AlertRow|
            if is_expired(r, now) {
                cleared(r)
            } else {
                r
            },
    )
}

/// How many alerts a sweep at `now` clears.
pub open spec fn expired_count(rows: Seq<AlertRow>, now: i64) -> nat {
    rows.filter(|r: AlertRow| is_expired(r, now)).len()
}

/// The tokens of the alerts, in order, with repetitions.
pub open spec fn alert_tokens(rows: Seq<AlertRow>) -> Seq<Seq<char>> {
    rows.map_values(|r: AlertRow| r.token)
}

/// Whether `r`, if it is suppressed, has a cooldown that a sweep can end.
pub open spec fn can_be_released(r: AlertRow) -> bool {
    r.alerted ==> r.cooldown_until is Some
}

/// The invariant of the price-alert table: identifiers are positive, below
/// the next one to assign, and ascending; a suppressed alert has a cooldown.
pub open spec fn alerts_wf(rows: Seq<AlertRow>, next_id: i64) -> bool {
    &&& 1 <= next_id
    &&& forall|i: int| 0 <= i < rows.len() ==> 1 <= (#[trigger] rows[i]).id < next_id
    &&& forall|i: int, j: int|
        0 <= i < j < rows.len() ==> (#[trigger] rows[i]).id < (#[trigger] rows[j]).id
    &&& forall|i: int| 0 <= i < rows.len() ==> can_be_released(#[trigger] rows[i])
}

// ---------------------------------------------------------------------------
// Cron alerts
// ---------------------------------------------------------------------------

/// The row that a new cron alert starts as: active, never triggered.
pub open spec fn new_cron(
    id: i64,
    chat_id: i64,
    coin: Seq<char>,
    token: Seq<char>,
    cron_schedule: Seq<char>,
    next_trigger: i64,
    now: i64,
) -> CronRow {
    CronRow {
        id,
        chat_id,
        coin,
        token,
        cron_schedule,
        is_active: true,
        created_at: now,
        updated_at: now,
        last_triggered: None,
        next_trigger: Some(next_trigger),
    }
}

/// Whether `r` is active and its next fire time has come at `now`.
pub open spec fn is_due(r: CronRow, now: i64) -> bool {
    r.is_active && (r.next_trigger matches Some(t) && t <= now)
}

/// The active alerts.
pub open spec fn active_crons(rows: Seq<CronRow>) -> Seq<CronRow> {
    rows.filter(|r: CronRow| r.is_active)
}

/// The active alerts of one chat.
pub open spec fn active_crons_for_chat(rows: Seq<CronRow>, chat_id: i64) -> Seq<CronRow> {
    rows.filter(|r: CronRow| r.is_active && r.chat_id == chat_id)
}

/// The active alerts that are due at `now`.
pub open spec fn due_crons(rows: Seq<CronRow>, now: i64) -> Seq<CronRow> {
    rows.filter(|r: CronRow| is_due(r, now))
}

/// Whether some cron alert has the identifier `id`.
pub open spec fn has_cron(rows: Seq<CronRow>, id: i64) -> bool {
    exists|i: int| 0 <= i < rows.len() && (#[trigger] rows[i]).id == id
}

/// `r` after it fired at `now` and was rescheduled to `next_trigger`.
pub open spec fn fired(r: CronRow, next_trigger: i64, now: i64) -> CronRow {
    CronRow { last_triggered: Some(now), next_trigger: Some(next_trigger), updated_at: now, ..r }
}

/// The table after the alert `id` fired at `now`.
pub open spec fn mark_fired(rows: Seq<CronRow>, id: i64, next_trigger: i64, now: i64) -> Seq<
    CronRow,
> {
    rows.map_values(
        |r: CronRow|
            if r.id == id {
                fired(r, next_trigger, now)
            } else {
                r
            },
    )
}

/// `r` after it was deactivated at `now`.
pub open spec fn deactivated(r: CronRow, now: i64) -> CronRow {
    CronRow { is_active: false, updated_at: now, ..r }
}

/// The table after the alert `id` was deactivated at `now`.
pub open spec fn deactivate(rows: Seq<CronRow>, id: i64, now: i64) -> Seq<CronRow> {
    rows.map_values(
        |r: CronRow|
            if r.id == id {
                deactivated(r, now)
            } else {
                r
            },
    )
}

/// The table without the alert `id`.
pub open spec fn delete(rows: Seq<CronRow>, id: i64) -> Seq<CronRow> {
    rows.filter(|r: CronRow| r.id != id)
}

/// Whether `r`, if it is active, has a next fire time.
pub open spec fn can_come_due(r: CronRow) -> bool {
    r.is_active ==> r.next_trigger is Some
}

/// The invariant of the cron-alert table: identifiers are positive, below the
/// next one to assign, and ascending; an active alert has a next fire time.
pub open spec fn crons_wf(rows: Seq<CronRow>, next_id: i64) -> bool {
    &&& 1 <= next_id
    &&& forall|i: int| 0 <= i < rows.len() ==> 1 <= (#[trigger] rows[i]).id < next_id
    &&& forall|i: int, j: int|
        0 <= i < j < rows.len() ==> (#[trigger] rows[i]).id < (#[trigger] rows[j]).id
    &&& forall|i: int| 0 <= i < rows.len() ==> can_come_due(#[trigger] rows[i])
}

impl StoreView {
    /// The invariant of a store.
    pub open spec fn wf(self) -> bool {
        &&& alerts_wf(self.alerts, self.next_alert_id)
        &&& crons_wf(self.cron_alerts, self.next_cron_id)
    }

    /// A store with no alerts.
    pub open spec fn empty() -> StoreView {
        StoreView {
            alerts: Seq::empty(),
            cron_alerts: Seq::empty(),
            next_alert_id: 1,
            next_cron_id: 1,
        }
    }
}

// ---------------------------------------------------------------------------
// Sequences
// ---------------------------------------------------------------------------

/// `s` without repetitions: each value stays where it first occurs.
pub open spec fn distinct<A>(s: Seq<A>) -> Seq<A>
    decreases s.len(),
{
    if s.len() == 0 {
        s
    } else if distinct(s.drop_last()).contains(s.last()) {
        distinct(s.drop_last())
    } else {
        distinct(s.drop_last()).push(s.last())
    }
}

/// `distinct(s)` holds no value twice, and holds exactly the values of `s`.
pub proof fn lemma_distinct<A>(s: Seq<A>)
    ensures
        distinct(s).no_duplicates(),
        distinct(s).to_set() == s.to_set(),
    decreases s.len(),
{
    if s.len() > 0 {
        let init = s.drop_last();
        lemma_distinct(init);
        let d = distinct(init);
        assert forall|x: A| #[trigger] distinct(s).to_set().contains(x) == s.to_set().contains(
            x,
        ) by {
            if s.contains(x) {
                let i = choose|i: int| 0 <= i < s.len() && s[i] == x;
                if i < s.len() - 1 {
                    assert(init[i] == x);
                    assert(init.to_set().contains(x));
                    assert(d.contains(x));
                    let j = choose|j: int| 0 <= j < d.len() && d[j] == x;
                    assert(distinct(s)[j] == x);
                } else if d.contains(x) {
                } else {
                    assert(distinct(s)[d.len() as int] == x);
                }
            }
            if distinct(s).contains(x) {
                let j = choose|j: int| 0 <= j < distinct(s).len() && distinct(s)[j] == x;
                if j < d.len() {
                    assert(d[j] == x);
                    assert(d.to_set().contains(x));
                    assert(init.contains(x));
                    let i = choose|i: int| 0 <= i < init.len() && init[i] == x;
                    assert(s[i] == x);
                } else {
                    assert(s[s.len() - 1] == x);
                }
            }
        }
        assert(distinct(s).to_set() =~= s.to_set());
    } else {
        assert(distinct(s).to_set() =~= s.to_set());
    }
}

/// The first element of `s` of which `p` holds.
pub open spec fn first_match<A>(s: Seq<A>, p: spec_fn(A) -> bool) -> Option<A>
    decreases s.len(),
{
    if s.len() == 0 {
        None
    } else if p(s.first()) {
        Some(s.first())
    } else {
        first_match(s.drop_first(), p)
    }
}

/// The first match of `s` is its first match from `i` on, where `p` holds of
/// no element before `i`.
pub proof fn lemma_first_match_skip<A>(s: Seq<A>, p: spec_fn(A) -> bool, i: int)
    requires
        0 <= i <= s.len(),
        forall|k: int| 0 <= k < i ==> !p(#[trigger] s[k]),
    ensures
        first_match(s, p) == first_match(s.skip(i), p),
    decreases i,
{
    if i == 0 {
        assert(s.skip(0) =~= s);
    } else {
        lemma_first_match_skip(s, p, i - 1);
        let rest = s.skip(i - 1);
        assert(rest.first() == s[i - 1]);
        assert(rest.drop_first() =~= s.skip(i));
    }
}

/// Filtering by two predicates that agree on every value gives the same.
pub proof fn lemma_filter_agree<A>(s: Seq<A>, p: spec_fn(A) -> bool, q: spec_fn(A) -> bool)
    requires
        forall|x: A| #[trigger] p(x) == q(x),
    ensures
        s.filter(p) == s.filter(q),
    decreases s.len(),
{
    reveal(Seq::filter);
    if s.len() > 0 {
        lemma_filter_agree(s.drop_last(), p, q);
    }
}

/// Filtering by a predicate that holds of every element changes nothing.
pub proof fn lemma_filter_all<A>(s: Seq<A>, p: spec_fn(A) -> bool)
    requires
        forall|i: int| 0 <= i < s.len() ==> p(#[trigger] s[i]),
    ensures
        s.filter(p) == s,
    decreases s.len(),
{
    reveal(Seq::filter);
    if s.len() > 0 {
        lemma_filter_all(s.drop_last(), p);
        assert(s.drop_last().push(s.last()) =~= s);
    }
}

/// Filtering out one value of `key`, where `key` ascends strictly along `s`,
/// removes the one element that has it.
pub proof fn lemma_filter_out_one<A>(s: Seq<A>, key: spec_fn(A) -> i64, i: int)
    requires
        0 <= i < s.len(),
        forall|a: int, b: int| 0 <= a < b < s.len() ==> key(#[trigger] s[a]) < key(#[trigger] s[b]),
    ensures
        s.filter(|x: A| key(x) != key(s[i])) == s.remove(i),
    decreases s.len(),
{
    reveal(Seq::filter);
    let other = |x: A| key(x) != key(s[i]);
    let init = s.drop_last();
    if i == s.len() - 1 {
        assert forall|k: int| 0 <= k < init.len() implies other(#[trigger] init[k]) by {
            assert(key(s[k]) < key(s[i]));
        }
        lemma_filter_all(init, other);
        assert(s.remove(i) =~= init);
    } else {
        assert(init[i] == s[i]);
        lemma_filter_out_one(init, key, i);
        assert(key(s[i]) < key(s[s.len() - 1]));
        assert(s.remove(i) =~= init.remove(i).push(s.last()));
    }
}

/// Filtering keeps a strictly ascending key strictly ascending.
pub proof fn lemma_filter_ascending<A>(s: Seq<A>, p: spec_fn(A) -> bool, key: spec_fn(A) -> i64)
    requires
        forall|a: int, b: int| 0 <= a < b < s.len() ==> key(#[trigger] s[a]) < key(#[trigger] s[b]),
    ensures
        forall|a: int, b: int|
            0 <= a < b < s.filter(p).len() ==> key(#[trigger] s.filter(p)[a]) < key(
                #[trigger] s.filter(p)[b],
            ),
    decreases s.len(),
{
    reveal(Seq::filter);
    if s.len() > 0 {
        let init = s.drop_last();
        let kept = init.filter(p);
        lemma_filter_ascending(init, p, key);
        if p(s.last()) {
            assert forall|a: int, b: int| 0 <= a < b < s.filter(p).len() implies key(
                #[trigger] s.filter(p)[a],
            ) < key(#[trigger] s.filter(p)[b]) by {
                if b == kept.len() {
                    assert(kept.contains(kept[a]));
                    init.lemma_filter_contains_rev(p, kept[a]);
                    let i = choose|i: int| 0 <= i < init.len() && init[i] == kept[a];
                    assert(key(s[i]) < key(s[s.len() - 1]));
                } else {
                    assert(key(kept[a]) < key(kept[b]));
                }
            }
        }
    }
}

// ---------------------------------------------------------------------------
// Cooldowns of several alerts
// ---------------------------------------------------------------------------

/// Suppressing one more alert, the next of `ids`, after the first `n`.
pub proof fn lemma_apply_cooldowns_next(rows: Seq<AlertRow>, ids: Seq<i64>, n: int, until: i64)
    requires
        0 <= n < ids.len(),
    ensures
        apply_cooldown(apply_cooldowns(rows, ids.take(n), until), ids[n], until)
            == apply_cooldowns(rows, ids.take(n + 1), until),
        has_alert(apply_cooldowns(rows, ids.take(n), until), ids[n]) <==> has_alert(rows, ids[n]),
{
    let shorter = ids.take(n);
    let longer = ids.take(n + 1);
    let before = apply_cooldowns(rows, shorter, until);
    let step = apply_cooldown(before, ids[n], until);
    let after = apply_cooldowns(rows, longer, until);
    assert(longer =~= shorter.push(ids[n]));
    assert forall|k: int| 0 <= k < rows.len() implies #[trigger] step[k] == after[k] by {
        let id = rows[k].id;
        if shorter.contains(id) {
            let j = choose|j: int| 0 <= j < shorter.len() && shorter[j] == id;
            assert(longer[j] == id);
        } else if id == ids[n] {
            assert(longer[n] == id);
        } else if longer.contains(id) {
            let j = choose|j: int| 0 <= j < longer.len() && longer[j] == id;
            assert(shorter[j] == id);
        }
    }
    assert(step =~= after);
    if has_alert(before, ids[n]) {
        let k = choose|k: int| 0 <= k < before.len() && (#[trigger] before[k]).id == ids[n];
        assert(rows[k].id == ids[n]);
    }
    if has_alert(rows, ids[n]) {
        let k = choose|k: int| 0 <= k < rows.len() && (#[trigger] rows[k]).id == ids[n];
        assert(before[k].id == ids[n]);
    }
}

} // verus!
