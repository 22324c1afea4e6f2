//! What holds of deliveries: each is queued once, none is lost, a lease never
//! outlives its controller, and what was acknowledged stays so.
use vstd::prelude::*;
use crate::dispatch;
use crate::fault::FaultKind;
use crate::fault;
use crate::json::JsonV;
use crate::json;
use crate::records;
use crate::state;
use crate::text;
use crate::textmap::Texts;

verus! {

/// No two deliveries have the same key.
pub open spec fn keys_differ(deliveries: Seq<JsonV>) -> bool {
    forall|i: int, j: int|
        0 <= i < j < deliveries.len() ==> #[trigger] deliveries[i].string("source_key"@)
            != #[trigger] deliveries[j].string("source_key"@)
}

proof fn lemma_fresh_key(
    token: Seq<char>,
    key: Seq<char>,
    source: Seq<char>,
    kind: Seq<char>,
    project: Seq<char>,
    status: Seq<char>,
    summary: Seq<char>,
    action: JsonV,
    priority: JsonV,
    role: Seq<char>,
    created: JsonV,
    now: Seq<char>,
)
    ensures
        ({
            let made = dispatch::fresh_delivery(
                token,
                key,
                source,
                kind,
                project,
                status,
                summary,
                action,
                priority,
                role,
                created,
                now,
            );
            &&& made.string("source_key"@) == key
            &&& made.string("state"@) == "pending"@
            &&& made.at("attempts"@) == JsonV::Int(0)
            &&& made.at("assigned_controller"@) is Null
        }),
{
    reveal_strlit("id");
    reveal_strlit("source_key");
    reveal_strlit("source");
    reveal_strlit("kind");
    reveal_strlit("project");
    reveal_strlit("status");
    reveal_strlit("summary");
    reveal_strlit("action");
    reveal_strlit("priority");
    reveal_strlit("preferred_role");
    reveal_strlit("state");
    reveal_strlit("assigned_controller");
    reveal_strlit("lease_expires_at_ms");
    reveal_strlit("attempts");
    reveal_strlit("created_at");
    reveal_strlit("updated_at");
    reveal_strlit("last_error");
    assert("source_key"@.len() == 10 && "source_key"@[0] == 's');
    assert("created_at"@[0] == 'c' && "updated_at"@[0] == 'u' && "last_error"@[0] == 'l');
    assert("state"@.len() == 5 && "attempts"@.len() == 8 && "priority"@.len() == 8);
    assert("attempts"@[0] == 'a' && "priority"@[0] == 'p');
    assert("assigned_controller"@.len() == 19 && "lease_expires_at_ms"@.len() == 19);
    assert("assigned_controller"@[0] == 'a' && "lease_expires_at_ms"@[0] == 'l');
}

proof fn lemma_push_keys(deliveries: Seq<JsonV>, made: JsonV)
    requires
        keys_differ(deliveries),
        !dispatch::has_key(deliveries, made.string("source_key"@)),
    ensures
        keys_differ(deliveries.push(made)),
{
    let all = deliveries.push(made);
    assert forall|i: int, j: int| 0 <= i < j < all.len() implies #[trigger] all[i].string(
        "source_key"@,
    ) != #[trigger] all[j].string("source_key"@) by {
        assert(all[i] == deliveries[i]);
        if j < deliveries.len() {
            assert(all[j] == deliveries[j]);
        } else {
            assert(deliveries[i].string("source_key"@) != made.string("source_key"@));
        }
    }
}

proof fn lemma_inbox_step(
    deliveries: Seq<JsonV>,
    inbox: Seq<JsonV>,
    offset: int,
    count: int,
    tokens: Seq<Seq<char>>,
    now: Seq<char>,
)
    ensures
        deliveries.is_prefix_of(
            dispatch::with_inbox(deliveries, inbox, offset, count, tokens, now),
        ),
        keys_differ(deliveries) ==> keys_differ(
            dispatch::with_inbox(deliveries, inbox, offset, count, tokens, now),
        ),
        forall|i: int|
            0 <= offset <= i < count ==> #[trigger] dispatch::has_key(
                dispatch::with_inbox(deliveries, inbox, offset, count, tokens, now),
                dispatch::inbox_key(i),
            ),
    decreases count,
{
    let all = dispatch::with_inbox(deliveries, inbox, offset, count, tokens, now);
    if count > offset && count > 0 {
        lemma_inbox_step(deliveries, inbox, offset, count - 1, tokens, now);
        let rest = dispatch::with_inbox(deliveries, inbox, offset, count - 1, tokens, now);
        let entry = inbox[count - 1];
        let kind = entry.string("type"@);
        let status = entry.string("status"@);
        lemma_fresh_key(
            tokens[count - 1],
            dispatch::inbox_key(count - 1),
            "inbox"@,
            kind,
            entry.string("project"@),
            status,
            entry.string("summary"@),
            JsonV::Null,
            JsonV::Int(dispatch::inbox_rank(kind, status, entry)),
            dispatch::role_for(kind, status),
            dispatch::member_or(entry, "ts"@, JsonV::Text(now)),
            now,
        );
        if !dispatch::has_key(rest, dispatch::inbox_key(count - 1)) {
            let made = dispatch::inbox_delivery(count - 1, entry, tokens[count - 1], now);
            if keys_differ(deliveries) {
                lemma_push_keys(rest, made);
            }
            assert(all[rest.len() as int].string("source_key"@) == dispatch::inbox_key(count - 1));
        }
        assert forall|i: int| 0 <= offset <= i < count implies #[trigger] dispatch::has_key(
            all,
            dispatch::inbox_key(i),
        ) by {
            if i < count - 1 {
                assert(dispatch::has_key(rest, dispatch::inbox_key(i)));
                let k = choose|k: int|
                    0 <= k < rest.len() && #[trigger] rest[k].string("source_key"@)
                        == dispatch::inbox_key(i);
                assert(all[k] == rest[k]);
                assert(all[k].string("source_key"@) == dispatch::inbox_key(i));
            }
        }
    }
}

proof fn lemma_attention_step(
    deliveries: Seq<JsonV>,
    attention: Seq<JsonV>,
    active: JsonV,
    count: int,
    tokens: Seq<Seq<char>>,
    now: Seq<char>,
)
    ensures
        deliveries.is_prefix_of(
            dispatch::with_attention(deliveries, attention, active, count, tokens, now),
        ),
        keys_differ(deliveries) ==> keys_differ(
            dispatch::with_attention(deliveries, attention, active, count, tokens, now),
        ),
    decreases count,
{
    if count > 0 {
        lemma_attention_step(deliveries, attention, active, count - 1, tokens, now);
        let rest = dispatch::with_attention(
            deliveries,
            attention,
            active,
            count - 1,
            tokens,
            now,
        );
        let item = attention[count - 1];
        if dispatch::is_queued(rest, item, active) {
            let key = dispatch::source_key_of(item)->0;
            let kind = item.string("kind"@);
            lemma_fresh_key(
                tokens[count - 1],
                key,
                "attention"@,
                kind,
                item.string("project"@),
                kind,
                item.string("reason"@),
                item.at("action"@),
                dispatch::member_or(item, "priority"@, JsonV::Int(50)),
                dispatch::role_for(kind, ""@),
                dispatch::member_or(item, "created_at"@, JsonV::Text(now)),
                now,
            );
            if keys_differ(deliveries) {
                lemma_push_keys(
                    rest,
                    dispatch::attention_delivery(item, key, tokens[count - 1], now),
                );
            }
        }
    }
}

/// A reconciliation keeps every delivery as it is and in its place, and never
/// queues a key a second time.
pub proof fn law_each_key_is_queued_once(
    inbox: Seq<JsonV>,
    attention: Seq<JsonV>,
    cursor: JsonV,
    deliveries: Seq<JsonV>,
    tokens: Seq<Seq<char>>,
    now: Seq<char>,
)
    ensures
        deliveries.is_prefix_of(
            dispatch::reconciled(inbox, attention, cursor, deliveries, tokens, now),
        ),
        keys_differ(deliveries) ==> keys_differ(
            dispatch::reconciled(inbox, attention, cursor, deliveries, tokens, now),
        ),
{
    let offset = dispatch::offset_of(cursor, inbox.len() as int);
    let first = dispatch::with_inbox(
        deliveries,
        inbox,
        offset,
        inbox.len() as int,
        tokens,
        now,
    );
    lemma_inbox_step(deliveries, inbox, offset, inbox.len() as int, tokens, now);
    lemma_attention_step(
        first,
        attention,
        cursor.at("attention_active"@),
        attention.len() as int,
        tokens.skip(inbox.len() as int),
        now,
    );
}

/// Every entry of the inbox behind the cursor has a delivery after a
/// reconciliation.
pub proof fn law_every_new_entry_is_queued(
    inbox: Seq<JsonV>,
    attention: Seq<JsonV>,
    cursor: JsonV,
    deliveries: Seq<JsonV>,
    tokens: Seq<Seq<char>>,
    now: Seq<char>,
    i: int,
)
    requires
        dispatch::offset_of(cursor, inbox.len() as int) <= i < inbox.len(),
    ensures
        dispatch::has_key(
            dispatch::reconciled(inbox, attention, cursor, deliveries, tokens, now),
            dispatch::inbox_key(i),
        ),
{
    let offset = dispatch::offset_of(cursor, inbox.len() as int);
    let first = dispatch::with_inbox(
        deliveries,
        inbox,
        offset,
        inbox.len() as int,
        tokens,
        now,
    );
    lemma_inbox_step(deliveries, inbox, offset, inbox.len() as int, tokens, now);
    lemma_attention_step(
        first,
        attention,
        cursor.at("attention_active"@),
        attention.len() as int,
        tokens.skip(inbox.len() as int),
        now,
    );
    let all = dispatch::reconciled(inbox, attention, cursor, deliveries, tokens, now);
    assert(dispatch::has_key(first, dispatch::inbox_key(i)));
    let k = choose|k: int|
        0 <= k < first.len() && #[trigger] first[k].string("source_key"@) == dispatch::inbox_key(i);
    assert(all[k] == first[k]);
}

/// A key of an entry of the attention queue is among its keys.
proof fn lemma_key_listed(attention: Seq<JsonV>, i: int)
    requires
        0 <= i < attention.len(),
        dispatch::source_key_of(attention[i]) is Some,
    ensures
        dispatch::source_keys(attention).contains(dispatch::source_key_of(attention[i])->0),
    decreases attention.len(),
{
    let rest = attention.drop_last();
    let keys = dispatch::source_keys(attention);
    if i == attention.len() - 1 {
        assert(keys.last() == dispatch::source_key_of(attention[i])->0);
        assert(keys[keys.len() - 1] == keys.last());
    } else {
        lemma_key_listed(rest, i);
        let before = dispatch::source_keys(rest);
        let k = choose|k: int|
            0 <= k < before.len() && before[k] == dispatch::source_key_of(attention[i])->0;
        assert(keys[k] == before[k]);
    }
}

/// A reconciliation that finds nothing new queues nothing: what was read from
/// the inbox, and what was active in the attention queue, is queued once.
pub proof fn law_reconcile_is_idempotent(
    inbox: Seq<JsonV>,
    attention: Seq<JsonV>,
    cursor: JsonV,
    deliveries: Seq<JsonV>,
    tokens: Seq<Seq<char>>,
    now: Seq<char>,
)
    requires
        inbox.len() <= u64::MAX,
    ensures
        dispatch::reconciled(
            inbox,
            attention,
            dispatch::cursor_after(cursor, inbox, attention),
            deliveries,
            tokens,
            now,
        ) == deliveries,
{
    let after = dispatch::cursor_after(cursor, inbox, attention);
    reveal_strlit("inbox_offset");
    reveal_strlit("attention_active");
    assert("inbox_offset"@.len() != "attention_active"@.len());
    assert(dispatch::offset_of(after, inbox.len() as int) == inbox.len());
    assert(dispatch::with_inbox(
        deliveries,
        inbox,
        inbox.len() as int,
        inbox.len() as int,
        tokens,
        now,
    ) == deliveries);
    let keys = dispatch::source_keys(attention);
    let active = after.at("attention_active"@);
    assert forall|k: int| 0 <= k < keys.len() implies dispatch::lists_text(
        active,
        #[trigger] keys[k],
    ) by {
        assert(active.items()[k].as_text() == Some(keys[k]));
    }
    lemma_listed_not_queued(
        deliveries,
        attention,
        active,
        attention.len() as int,
        tokens.skip(inbox.len() as int),
        now,
    );
}

/// The members that a lease is about differ in name.
proof fn lemma_lease_members()
    ensures
        "state"@ != "assigned_controller"@,
        "state"@ != "lease_expires_at_ms"@,
        "state"@ != "attempts"@,
        "state"@ != "updated_at"@,
        "state"@ != "last_error"@,
        "state"@ != "acknowledged_at"@,
        "assigned_controller"@ != "lease_expires_at_ms"@,
        "assigned_controller"@ != "attempts"@,
        "assigned_controller"@ != "updated_at"@,
        "assigned_controller"@ != "last_error"@,
        "lease_expires_at_ms"@ != "attempts"@,
        "lease_expires_at_ms"@ != "updated_at"@,
        "lease_expires_at_ms"@ != "last_error"@,
        "id"@ != "state"@,
        "id"@ != "assigned_controller"@,
        "id"@ != "lease_expires_at_ms"@,
        "id"@ != "attempts"@,
        "id"@ != "updated_at"@,
        "id"@ != "acknowledged_at"@,
        "pending"@ != "leased"@,
        "pending"@ != "acknowledged"@,
        "leased"@ != "acknowledged"@,
{
    reveal_strlit("id");
    reveal_strlit("state");
    reveal_strlit("assigned_controller");
    reveal_strlit("lease_expires_at_ms");
    reveal_strlit("attempts");
    reveal_strlit("updated_at");
    reveal_strlit("last_error");
    reveal_strlit("acknowledged_at");
    reveal_strlit("pending");
    reveal_strlit("leased");
    reveal_strlit("acknowledged");
    assert("assigned_controller"@[0] == 'a' && "lease_expires_at_ms"@[0] == 'l');
    assert("attempts"@.len() == 8 && "updated_at"@.len() == 10);
    assert("last_error"@.len() == 10 && "acknowledged_at"@.len() == 15);
    assert("state"@.len() == 5 && "id"@.len() == 2);
    assert("pending"@.len() == 7 && "leased"@.len() == 6 && "acknowledged"@.len() == 12);
}

/// After lapsed leases were taken back, every leased delivery has time left
/// and a controller that is there; those taken back wait again without a
/// controller; all others are as they were.
pub proof fn law_no_lapsed_lease_stays(
    deliveries: Seq<JsonV>,
    controllers: Seq<JsonV>,
    runtime: JsonV,
    current: int,
    i: int,
)
    requires
        0 <= i < deliveries.len(),
    ensures
        ({
            let after = dispatch::swept(deliveries, controllers, runtime, current)[i];
            &&& after.string("state"@) == "leased"@ ==> dispatch::lease_end(after) > current
                && dispatch::holder_live(after, controllers, runtime)
            &&& dispatch::lapsed(deliveries[i], controllers, runtime, current) ==> after.string(
                "state"@,
            ) == "pending"@ && after.at("assigned_controller"@) is Null
            &&& !dispatch::lapsed(deliveries[i], controllers, runtime, current) ==> after
                == deliveries[i]
        }),
{
    lemma_lease_members();
}

/// A delivery that is pending and of the highest priority is picked, where
/// any is pending.
pub proof fn law_most_urgent_is_picked(deliveries: Seq<JsonV>)
    ensures
        match dispatch::next_pending(deliveries) {
            Some(i) => 0 <= i < deliveries.len() && deliveries[i].string("state"@) == "pending"@
                && forall|k: int|
                0 <= k < deliveries.len() && deliveries[k].string("state"@) == "pending"@
                    ==> dispatch::priority_of(#[trigger] deliveries[k]) <= dispatch::priority_of(
                    deliveries[i],
                ),
            None => forall|k: int|
                0 <= k < deliveries.len() ==> #[trigger] deliveries[k].string("state"@)
                    != "pending"@,
        },
    decreases deliveries.len(),
{
    if deliveries.len() > 0 {
        let rest = deliveries.drop_last();
        law_most_urgent_is_picked(rest);
        assert forall|k: int| 0 <= k < rest.len() implies rest[k] == deliveries[k] by {}
        match dispatch::next_pending(deliveries) {
            Some(i) => {
                assert forall|k: int|
                    0 <= k < deliveries.len() && deliveries[k].string("state"@)
                        == "pending"@ implies dispatch::priority_of(#[trigger] deliveries[k])
                    <= dispatch::priority_of(deliveries[i]) by {
                    if k < rest.len() {
                        assert(rest[k].string("state"@) == "pending"@);
                        assert(dispatch::priority_of(rest[k]) == dispatch::priority_of(
                            deliveries[k],
                        ));
                    }
                }
            },
            None => {
                assert forall|k: int| 0 <= k < deliveries.len() implies #[trigger] deliveries[k].string(
                    "state"@,
                ) != "pending"@ by {
                    if k < rest.len() {
                        assert(rest[k].string("state"@) != "pending"@);
                    }
                }
            },
        }
    }
}

proof fn lemma_rank_order(
    a: (int, int, Seq<char>),
    b: (int, int, Seq<char>),
    c: (int, int, Seq<char>),
)
    ensures
        !dispatch::rank_before(a, a),
        dispatch::rank_before(a, b) && !dispatch::rank_before(c, b) ==> !dispatch::rank_before(
            c,
            a,
        ),
{
    text::lemma_before_irreflexive(a.2);
    if text::before(a.2, b.2) && text::before(c.2, a.2) {
        text::lemma_before_transitive(c.2, a.2, b.2);
    }
}

/// The controller that is chosen is ready, and no controller that is ready
/// ranks before it; where none is chosen, none is ready.
pub proof fn law_best_controller_is_chosen(
    controllers: Seq<JsonV>,
    runtime: JsonV,
    preferred: Seq<char>,
)
    ensures
        match dispatch::chosen(controllers, runtime, preferred) {
            Some(i) => 0 <= i < controllers.len() && dispatch::is_ready(controllers[i], runtime)
                && forall|k: int|
                0 <= k < controllers.len() && dispatch::is_ready(controllers[k], runtime)
                    ==> !dispatch::rank_before(
                    dispatch::rank_of(#[trigger] controllers[k], preferred),
                    dispatch::rank_of(controllers[i], preferred),
                ),
            None => forall|k: int|
                0 <= k < controllers.len() ==> !dispatch::is_ready(
                    #[trigger] controllers[k],
                    runtime,
                ),
        },
    decreases controllers.len(),
{
    if controllers.len() > 0 {
        let rest = controllers.drop_last();
        let last = controllers.last();
        law_best_controller_is_chosen(rest, runtime, preferred);
        assert forall|k: int| 0 <= k < rest.len() implies rest[k] == controllers[k] by {}
        match dispatch::chosen(controllers, runtime, preferred) {
            Some(i) => {
                assert forall|k: int|
                    0 <= k < controllers.len() && dispatch::is_ready(
                        controllers[k],
                        runtime,
                    ) implies !dispatch::rank_before(
                    dispatch::rank_of(#[trigger] controllers[k], preferred),
                    dispatch::rank_of(controllers[i], preferred),
                ) by {
                    let own = dispatch::rank_of(controllers[i], preferred);
                    let other = dispatch::rank_of(controllers[k], preferred);
                    lemma_rank_order(own, own, other);
                    if k < rest.len() {
                        assert(dispatch::is_ready(rest[k], runtime));
                        match dispatch::chosen(rest, runtime, preferred) {
                            Some(b) => {
                                let held = dispatch::rank_of(rest[b], preferred);
                                assert(!dispatch::rank_before(
                                    dispatch::rank_of(rest[k], preferred),
                                    held,
                                ));
                                lemma_rank_order(own, held, other);
                            },
                            None => {
                                assert(!dispatch::is_ready(rest[k], runtime));
                            },
                        }
                    }
                }
            },
            None => {
                assert forall|k: int| 0 <= k < controllers.len() implies !dispatch::is_ready(
                    #[trigger] controllers[k],
                    runtime,
                ) by {
                    if k < rest.len() {
                        assert(!dispatch::is_ready(rest[k], runtime));
                    }
                }
            },
        }
    }
}

/// A lease touches no delivery that is acknowledged, and changes none but
/// those whose lease has lapsed and the one that it hands out; that one was
/// waiting, and is in the hands of its controller for five minutes.
pub proof fn law_lease_hands_out_one(
    controllers: Seq<JsonV>,
    deliveries: Seq<JsonV>,
    runtime: JsonV,
    current: int,
    now: Seq<char>,
    i: int,
)
    requires
        0 <= i < deliveries.len(),
        dispatch::lease_outcome(controllers, deliveries, runtime, current, now) is Ok,
        i64::MIN <= current + dispatch::LEASE_MS <= i64::MAX,
    ensures
        ({
            let outcome = dispatch::lease_outcome(
                controllers,
                deliveries,
                runtime,
                current,
                now,
            )->Ok_0;
            let before = deliveries[i];
            let after = outcome.deliveries[i];
            &&& outcome.deliveries.len() == deliveries.len()
            &&& before.string("state"@) == "acknowledged"@ ==> after == before
            &&& after.string("state"@) == "leased"@ && after != before ==> outcome.taken is Some
                && outcome.taken->0.id == before.string("id"@) && dispatch::lease_end(after)
                == current + dispatch::LEASE_MS
            &&& outcome.taken is None ==> outcome.controllers == controllers
        }),
{
    lemma_lease_members();
    reveal_strlit("pending");
    let waiting = dispatch::swept(deliveries, controllers, runtime, current);
    law_no_lapsed_lease_stays(deliveries, controllers, runtime, current, i);
    law_most_urgent_is_picked(waiting);
    match dispatch::matched(controllers, waiting, runtime) {
        None => {},
        Some(m) => {
            assert(waiting[m.delivery].string("state"@) == "pending"@);
            assert(waiting[m.delivery].string("state"@).len() > 0);
            law_no_lapsed_lease_stays(deliveries, controllers, runtime, current, m.delivery);
        },
    }
}

/// A controller that could not be told loses the delivery at once, and the
/// reason is kept; one that was told keeps it.
pub proof fn law_failed_notice_returns_the_delivery(
    delivery: JsonV,
    words: Seq<char>,
    now: Seq<char>,
)
    requires
        records::takes_members(delivery),
    ensures
        ({
            let failed = dispatch::notified(delivery, Some(words), now);
            &&& failed.string("state"@) == "pending"@
            &&& failed.at("assigned_controller"@) is Null
            &&& failed.string("last_error"@) == words
        }),
        dispatch::notified(delivery, None, now).string("state"@) == delivery.string("state"@),
{
    lemma_lease_members();
    reveal_strlit("notified_at");
    reveal_strlit("state");
    reveal_strlit("updated_at");
    reveal_strlit("last_error");
    assert("notified_at"@.len() == 11 && "state"@.len() == 5);
    assert("updated_at"@[0] == 'u' && "last_error"@[0] == 'l');
}

/// What was acknowledged stays so: it holds no lease, is not swept, and is
/// picked from no list.
pub proof fn law_acknowledged_is_final(
    delivery: JsonV,
    now: Seq<char>,
    controllers: Seq<JsonV>,
    runtime: JsonV,
    current: int,
    deliveries: Seq<JsonV>,
    i: int,
)
    requires
        records::takes_members(delivery),
        0 <= i < deliveries.len(),
        deliveries[i] == dispatch::acknowledged(delivery, now),
    ensures
        ({
            let done = dispatch::acknowledged(delivery, now);
            &&& done.string("state"@) == "acknowledged"@
            &&& done.at("lease_expires_at_ms"@) is Null
            &&& dispatch::swept_one(done, controllers, runtime, current) == done
            &&& dispatch::next_pending(deliveries) != Some(i)
        }),
{
    lemma_lease_members();
    reveal_strlit("acknowledged_at");
    reveal_strlit("lease_expires_at_ms");
    law_most_urgent_is_picked(deliveries);
    assert("acknowledged_at"@.len() == 15 && "lease_expires_at_ms"@.len() == 19);
}

/// The deliveries of a state after one was acknowledged, as they were written.
pub open spec fn acknowledged_in(files: Texts, id: Seq<char>, now: Seq<char>) -> Seq<JsonV> {
    let deliveries = state::deliveries_of(files);
    match dispatch::acknowledged_list(deliveries, id, now) {
        Some(list) => list,
        None => deliveries,
    }
}

/// An acknowledgement succeeds if and only if the delivery is there and leased
/// or acknowledged. It then is acknowledged and holds no lease, and no other
/// delivery is touched; one that was acknowledged, and a refusal, leave the
/// files as they are.
pub proof fn law_acknowledgement_is_of_one(files: Texts, id: Seq<char>, now: Seq<char>)
    ensures
        ({
            let before = state::deliveries_of(files);
            let found = records::first_where(before, dispatch::with_id(id));
            let list = acknowledged_in(files, id, now);
            let outcome = dispatch::acknowledgement(files, id, now);
            &&& outcome.1 is Ok <==> found is Some && (before[found->0].string("state"@)
                == "leased"@ || before[found->0].string("state"@) == "acknowledged"@)
            &&& outcome.1 is Ok ==> list[found->0].string("state"@) == "acknowledged"@
            &&& outcome.1 is Ok && before[found->0].string("state"@) == "leased"@
                ==> list[found->0].at("lease_expires_at_ms"@) is Null
            &&& list.len() == before.len()
            &&& forall|k: int|
                0 <= k < before.len() && Some(k) != found ==> #[trigger] list[k] == before[k]
            &&& outcome.1 is Err || before[found->0].string("state"@) == "acknowledged"@
                ==> outcome.0 == files
        }),
{
    lemma_lease_members();
    reveal_strlit("leased");
    reveal_strlit("acknowledged_at");
    reveal_strlit("lease_expires_at_ms");
    assert("acknowledged_at"@.len() == 15 && "lease_expires_at_ms"@.len() == 19);
    let before = state::deliveries_of(files);
    records::lemma_first_where(before, dispatch::with_id(id));
    match records::first_where(before, dispatch::with_id(id)) {
        Some(i) => {
            if before[i].string("state"@) == "leased"@ {
                assert(before[i].string("state"@).len() > 0);
            }
        },
        None => {},
    }
}

/// After an acknowledgement a release is refused, another acknowledgement is
/// accepted, and neither changes a file. What is asked of the files is what
/// `acknowledge` ensures of them.
pub proof fn law_no_release_after_acknowledgement(
    files: Texts,
    id: Seq<char>,
    now: Seq<char>,
    later: Seq<char>,
)
    requires
        dispatch::acknowledgement(files, id, now).1 is Ok,
        dispatch::reads_deliveries(
            dispatch::acknowledgement(files, id, now).0,
            dispatch::acknowledged_list(state::deliveries_of(files), id, now),
        ),
    ensures
        ({
            let after = dispatch::acknowledgement(files, id, now).0;
            &&& dispatch::releasing(after, id, later) == (
                after,
                Err::<(), fault::FaultV>(fault::plain(FaultKind::AlreadyAcknowledged)),
            )
            &&& dispatch::acknowledgement(after, id, later) == (
                after,
                Ok::<(), fault::FaultV>(()),
            )
        }),
{
    lemma_lease_members();
    law_acknowledgement_is_of_one(files, id, now);
    json::lemma_alike_itself(JsonV::Array(state::deliveries_of(files)));
    reveal_strlit("acknowledged_at");
    assert("acknowledged_at"@.len() == 15);
    let wanted = dispatch::with_id(id);
    let before = state::deliveries_of(files);
    let list = acknowledged_in(files, id, now);
    let read = state::deliveries_of(dispatch::acknowledgement(files, id, now).0);
    records::lemma_first_where(before, wanted);
    let i = records::first_where(before, wanted)->0;
    reveal_strlit("leased");
    reveal_strlit("id");
    if before[i].string("state"@) == "leased"@ {
        assert(before[i].string("state"@).len() > 0);
    }
    assert(list[i].string("id"@) == id);
    assert forall|k: int| 0 <= k < i implies !wanted(#[trigger] list[k]) by {
        assert(list[k] == before[k]);
    }
    records::lemma_first_where_is(list, wanted, i);
    assert forall|k: int| 0 <= k < list.len() implies wanted(#[trigger] list[k]) == wanted(
        read[k],
    ) by {
        json::lemma_alike_members(list[k], read[k], "id"@);
    }
    records::lemma_first_where_same(list, read, wanted);
    json::lemma_alike_members(list[i], read[i], "state"@);
}

/// The deliveries that were added so far wait for a controller, were never
/// leased, and have keys that no delivery before them has.
pub open spec fn adds_fresh(before: Seq<JsonV>, after: Seq<JsonV>) -> bool {
    &&& before.is_prefix_of(after)
    &&& forall|k: int|
        before.len() <= k < after.len() ==> {
            &&& (#[trigger] after[k]).string("state"@) == "pending"@
            &&& after[k].at("attempts"@) == JsonV::Int(0)
            &&& after[k].at("assigned_controller"@) is Null
        }
    &&& forall|j: int, k: int|
        0 <= j < k && before.len() <= k < after.len() ==> (#[trigger] after[j]).string(
            "source_key"@,
        ) != (#[trigger] after[k]).string("source_key"@)
}

proof fn lemma_adds_one(before: Seq<JsonV>, after: Seq<JsonV>, made: JsonV)
    requires
        adds_fresh(before, after),
        made.string("state"@) == "pending"@,
        made.at("attempts"@) == JsonV::Int(0),
        made.at("assigned_controller"@) is Null,
        !dispatch::has_key(after, made.string("source_key"@)),
    ensures
        adds_fresh(before, after.push(made)),
{
    let more = after.push(made);
    assert forall|j: int, k: int|
        0 <= j < k && before.len() <= k < more.len() implies (#[trigger] more[j]).string(
        "source_key"@,
    ) != (#[trigger] more[k]).string("source_key"@) by {
        assert(more[j] == after[j]);
        if k == after.len() {
            assert(after[j].string("source_key"@) != made.string("source_key"@));
        } else {
            assert(more[k] == after[k]);
        }
    }
}

proof fn lemma_inbox_adds_fresh(
    deliveries: Seq<JsonV>,
    inbox: Seq<JsonV>,
    offset: int,
    count: int,
    tokens: Seq<Seq<char>>,
    now: Seq<char>,
)
    ensures
        adds_fresh(
            deliveries,
            dispatch::with_inbox(deliveries, inbox, offset, count, tokens, now),
        ),
    decreases count,
{
    if count > offset && count > 0 {
        lemma_inbox_adds_fresh(deliveries, inbox, offset, count - 1, tokens, now);
        let rest = dispatch::with_inbox(deliveries, inbox, offset, count - 1, tokens, now);
        let entry = inbox[count - 1];
        let kind = entry.string("type"@);
        let status = entry.string("status"@);
        lemma_fresh_key(
            tokens[count - 1],
            dispatch::inbox_key(count - 1),
            "inbox"@,
            kind,
            entry.string("project"@),
            status,
            entry.string("summary"@),
            JsonV::Null,
            JsonV::Int(dispatch::inbox_rank(kind, status, entry)),
            dispatch::role_for(kind, status),
            dispatch::member_or(entry, "ts"@, JsonV::Text(now)),
            now,
        );
        if !dispatch::has_key(rest, dispatch::inbox_key(count - 1)) {
            lemma_adds_one(
                deliveries,
                rest,
                dispatch::inbox_delivery(count - 1, entry, tokens[count - 1], now),
            );
        }
    }
}

proof fn lemma_attention_adds_fresh(
    start: Seq<JsonV>,
    deliveries: Seq<JsonV>,
    attention: Seq<JsonV>,
    active: JsonV,
    count: int,
    tokens: Seq<Seq<char>>,
    now: Seq<char>,
)
    requires
        adds_fresh(start, deliveries),
    ensures
        adds_fresh(
            start,
            dispatch::with_attention(deliveries, attention, active, count, tokens, now),
        ),
    decreases count,
{
    if count > 0 {
        lemma_attention_adds_fresh(
            start,
            deliveries,
            attention,
            active,
            count - 1,
            tokens,
            now,
        );
        let rest = dispatch::with_attention(
            deliveries,
            attention,
            active,
            count - 1,
            tokens,
            now,
        );
        let item = attention[count - 1];
        if dispatch::is_queued(rest, item, active) {
            let key = dispatch::source_key_of(item)->0;
            let kind = item.string("kind"@);
            lemma_fresh_key(
                tokens[count - 1],
                key,
                "attention"@,
                kind,
                item.string("project"@),
                kind,
                item.string("reason"@),
                item.at("action"@),
                dispatch::member_or(item, "priority"@, JsonV::Int(50)),
                dispatch::role_for(kind, ""@),
                dispatch::member_or(item, "created_at"@, JsonV::Text(now)),
                now,
            );
            lemma_adds_one(
                start,
                rest,
                dispatch::attention_delivery(item, key, tokens[count - 1], now),
            );
        }
    }
}

/// What a reconciliation adds is fresh: it keeps every delivery in its place,
/// and what it adds waits for a controller, was never leased, and has a key
/// that neither an earlier delivery nor another new one has.
pub proof fn law_reconcile_adds_fresh_deliveries(
    files: Texts,
    tokens: Seq<Seq<char>>,
    now: Seq<char>,
)
    ensures
        adds_fresh(
            state::deliveries_of(files),
            dispatch::reconciled_of(files, tokens, now),
        ),
{
    let inbox = state::inbox_of(files);
    let attention = state::list_of(files, "attention.json"@);
    let cursor = dispatch::cursor_of(files);
    let before = state::deliveries_of(files);
    let offset = dispatch::offset_of(cursor, inbox.len() as int);
    lemma_inbox_adds_fresh(before, inbox, offset, inbox.len() as int, tokens, now);
    let first = dispatch::with_inbox(before, inbox, offset, inbox.len() as int, tokens, now);
    lemma_attention_adds_fresh(
        before,
        first,
        attention,
        cursor.at("attention_active"@),
        attention.len() as int,
        tokens.skip(inbox.len() as int),
        now,
    );
}

/// A second reconciliation of a state in which nothing has come in adds
/// nothing: it gives the deliveries that are there. What is asked of the files
/// is what `reconcile` ensures of them.
pub proof fn law_second_reconcile_adds_nothing(
    files: Texts,
    tokens: Seq<Seq<char>>,
    now: Seq<char>,
    later_tokens: Seq<Seq<char>>,
    later: Seq<char>,
)
    requires
        state::inbox_of(files).len() <= u64::MAX,
        state::read_as(
            dispatch::cursor_following(files),
            dispatch::cursor_of(
                dispatch::with_reconciled(
                    files,
                    dispatch::reconciled_of(files, tokens, now),
                ),
            ),
        ),
    ensures
        ({
            let after = dispatch::with_reconciled(
                files,
                dispatch::reconciled_of(files, tokens, now),
            );
            &&& dispatch::reconciled_of(after, later_tokens, later) == state::deliveries_of(after)
            &&& records::takes_members(dispatch::cursor_of(after))
            &&& dispatch::cursor_of(after).at("inbox_offset"@).as_u64() == Some(
                state::inbox_of(files).len() as int,
            )
        }),
{
    let after = dispatch::with_reconciled(files, dispatch::reconciled_of(files, tokens, now));
    let inbox = state::inbox_of(files);
    let attention = state::list_of(files, "attention.json"@);
    let written = dispatch::cursor_following(files);
    let read = dispatch::cursor_of(after);
    reveal_strlit("deliveries.json");
    reveal_strlit("delivery-state.json");
    reveal_strlit("attention.json");
    reveal_strlit("inbox.jsonl");
    assert("deliveries.json"@.len() == 15 && "delivery-state.json"@.len() == 19);
    assert("attention.json"@.len() == 14 && "inbox.jsonl"@.len() == 11);
    assert(state::inbox_of(after) == inbox);
    assert(state::list_of(after, "attention.json"@) == attention);
    reveal_strlit("inbox_offset");
    reveal_strlit("attention_active");
    assert("inbox_offset"@.len() != "attention_active"@.len());
    assert(written.at("inbox_offset"@) == JsonV::Int(inbox.len() as int));
    assert(written.at("attention_active"@) == json::text_array(
        dispatch::source_keys(attention),
    ));
    json::lemma_alike_members(written, read, "inbox_offset"@);
    json::lemma_alike_members(written, read, "attention_active"@);
    assert(dispatch::offset_of(read, inbox.len() as int) == inbox.len());
    let keys = dispatch::source_keys(attention);
    let active = read.at("attention_active"@);
    assert forall|k: int| 0 <= k < keys.len() implies dispatch::lists_text(
        active,
        #[trigger] keys[k],
    ) by {
        let items = json::text_array(keys).items();
        assert(json::alike(items[k], active.items()[k]));
        assert(active.items()[k].as_text() == Some(keys[k]));
    }
    let deliveries = state::deliveries_of(after);
    assert(dispatch::with_inbox(
        deliveries,
        inbox,
        inbox.len() as int,
        inbox.len() as int,
        later_tokens,
        later,
    ) == deliveries);
    lemma_listed_not_queued(
        deliveries,
        attention,
        active,
        attention.len() as int,
        later_tokens.skip(inbox.len() as int),
        later,
    );
}

proof fn lemma_listed_not_queued(
    deliveries: Seq<JsonV>,
    attention: Seq<JsonV>,
    active: JsonV,
    count: int,
    tokens: Seq<Seq<char>>,
    now: Seq<char>,
)
    requires
        forall|k: int|
            0 <= k < dispatch::source_keys(attention).len() ==> dispatch::lists_text(
                active,
                #[trigger] dispatch::source_keys(attention)[k],
            ),
        count <= attention.len(),
    ensures
        dispatch::with_attention(deliveries, attention, active, count, tokens, now) == deliveries,
    decreases count,
{
    if count > 0 {
        lemma_listed_not_queued(deliveries, attention, active, count - 1, tokens, now);
        let item = attention[count - 1];
        if dispatch::source_key_of(item) is Some {
            lemma_key_listed(attention, count - 1);
            let keys = dispatch::source_keys(attention);
            let k = choose|k: int|
                0 <= k < keys.len() && keys[k] == dispatch::source_key_of(item)->0;
            assert(dispatch::lists_text(active, keys[k]));
        }
    }
}

} // verus!
