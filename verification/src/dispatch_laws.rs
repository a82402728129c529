use vstd::prelude::*;

use crate::dispatch::{
    batch_dispatched, chain, dispatched, escaped, escaped_char, idempotency_key_of, is_key_mark, normalized_action,
    pair_key, ActionModel, ResultModel,
};
use crate::table::{
    key_index, lemma_get_after_put, lemma_key_index, lemma_key_index_is, lemma_key_index_none, table_get, table_put,
};

verus! {

/// Two outcomes of one run: they differ at most in the id of the action and
/// in the mark of a replay.
pub open spec fn same_run(a: ResultModel, b: ResultModel) -> bool {
    &&& a.thread_id == b.thread_id
    &&& a.turn_id == b.turn_id
    &&& a.status == b.status
    &&& a.workspace_id == b.workspace_id
    &&& a.dedupe_key == b.dedupe_key
    &&& a.error == b.error
}

/// Whatever `store` keeps, `later` keeps as it is.
pub open spec fn store_extends(store: Seq<(Seq<char>, ResultModel)>, later: Seq<(Seq<char>, ResultModel)>) -> bool {
    forall|key: Seq<char>| (#[trigger] table_get(store, key)) is Some ==> table_get(later, key) == table_get(store, key)
}

/// Putting a value under a key that the table does not hold leaves what is
/// under every other key, and the value under the key.
pub proof fn lemma_put_absent<T>(s: Seq<(Seq<char>, T)>, key: Seq<char>, value: T, other: Seq<char>)
    requires
        table_get(s, key) is None,
    ensures
        table_get(table_put(s, key, value), other) == if other == key {
            Some(value)
        } else {
            table_get(s, other)
        },
{
    lemma_key_index(s, key);
    lemma_get_after_put(s, key, value);
    if other != key {
        let t = table_put(s, key, value);
        crate::table::lemma_put_new(s, key, value);
        let p = crate::table::place_of(s, key);
        lemma_key_index(s, other);
        match key_index(s, other) {
            Some(k) => {
                let k1 = if k < p { k } else { k + 1 };
                assert(t[k1] == s[k]);
                assert forall|j: int| 0 <= j < k1 implies t[j].0 != other by {
                    if j < p {
                        assert(t[j] == s[j]);
                    } else if j > p {
                        assert(t[j] == s[j - 1]);
                    }
                }
                lemma_key_index_is(t, other, k1);
            },
            None => {
                assert forall|j: int| 0 <= j < t.len() implies t[j].0 != other by {
                    if j < p {
                        assert(t[j] == s[j]);
                    } else if j > p {
                        assert(t[j] == s[j - 1]);
                    }
                }
                lemma_key_index_none(t, other);
            },
        }
    }
}

/// A dispatch never changes an outcome that the store keeps.
pub proof fn lemma_dispatched_extends(
    store: Seq<(Seq<char>, ResultModel)>,
    action: ActionModel,
    result: ResultModel,
    next_store: Seq<(Seq<char>, ResultModel)>,
)
    requires
        dispatched(store, action, result, next_store),
    ensures
        store_extends(store, next_store),
{
    match normalized_action(action) {
        Ok(normal) => {
            if table_get(store, idempotency_key_of(normal)) is None {
                assert forall|key: Seq<char>| (#[trigger] table_get(store, key)) is Some implies table_get(
                    next_store,
                    key,
                ) == table_get(store, key) by {
                    lemma_put_absent(store, idempotency_key_of(normal), result, key);
                }
            }
        },
        Err(_) => {},
    }
}

/// After the dispatch of an action with a normal form the store keeps, under
/// the action's key, an outcome of the same run as the one handed out.
pub proof fn lemma_dispatched_keeps(
    store: Seq<(Seq<char>, ResultModel)>,
    action: ActionModel,
    result: ResultModel,
    next_store: Seq<(Seq<char>, ResultModel)>,
)
    requires
        dispatched(store, action, result, next_store),
        normalized_action(action) is Ok,
    ensures
        table_get(next_store, idempotency_key_of(normalized_action(action)->Ok_0)) is Some,
        same_run(table_get(next_store, idempotency_key_of(normalized_action(action)->Ok_0))->0, result),
{
    let normal = normalized_action(action)->Ok_0;
    if table_get(store, idempotency_key_of(normal)) is None {
        lemma_put_absent(store, idempotency_key_of(normal), result, idempotency_key_of(normal));
    }
}

/// Dispatch is idempotent: of two actions with the same workspace and
/// dedupe token, the later one gets the outcome of the earlier one again,
/// marked as a replay, whatever was dispatched in between.
pub proof fn lemma_dispatch_idempotent(
    store: Seq<(Seq<char>, ResultModel)>,
    first: ActionModel,
    first_result: ResultModel,
    after_first: Seq<(Seq<char>, ResultModel)>,
    before_second: Seq<(Seq<char>, ResultModel)>,
    second: ActionModel,
    second_result: ResultModel,
    after_second: Seq<(Seq<char>, ResultModel)>,
)
    requires
        dispatched(store, first, first_result, after_first),
        store_extends(after_first, before_second),
        dispatched(before_second, second, second_result, after_second),
        normalized_action(first) is Ok,
        normalized_action(second) is Ok,
        normalized_action(first)->Ok_0.workspace_id == normalized_action(second)->Ok_0.workspace_id,
        normalized_action(first)->Ok_0.dedupe_token == normalized_action(second)->Ok_0.dedupe_token,
    ensures
        same_run(first_result, second_result),
        second_result.idempotent_replay,
        second_result.action_id == normalized_action(second)->Ok_0.action_id,
        after_second == before_second,
{
    lemma_dispatched_keeps(store, first, first_result, after_first);
    let key = idempotency_key_of(normalized_action(first)->Ok_0);
    assert(table_get(after_first, key) is Some);
    assert(table_get(before_second, key) == table_get(after_first, key));
}

/// Along the dispatches of a batch the store only grows.
pub proof fn lemma_chain_extends(
    stores: Seq<Seq<(Seq<char>, ResultModel)>>,
    store: Seq<(Seq<char>, ResultModel)>,
    actions: Seq<ActionModel>,
    results: Seq<ResultModel>,
    next_store: Seq<(Seq<char>, ResultModel)>,
    from: int,
    to: int,
)
    requires
        chain(stores, store, actions, results, next_store),
        0 <= from <= to <= actions.len(),
    ensures
        store_extends(stores[from], stores[to]),
    decreases to - from,
{
    if from < to {
        lemma_chain_extends(stores, store, actions, results, next_store, from, to - 1);
        lemma_dispatched_extends(stores[to - 1], actions[to - 1], results[to - 1], stores[to]);
        assert forall|key: Seq<char>| (#[trigger] table_get(stores[from], key)) is Some implies table_get(
            stores[to],
            key,
        ) == table_get(stores[from], key) by {
            assert(table_get(stores[to - 1], key) == table_get(stores[from], key));
        }
    }
}

/// Within one batch, of two actions with the same workspace and dedupe
/// token the later one gets the outcome of the earlier one again, marked as
/// a replay.
pub proof fn lemma_batch_idempotent(
    store: Seq<(Seq<char>, ResultModel)>,
    actions: Seq<ActionModel>,
    results: Seq<ResultModel>,
    next_store: Seq<(Seq<char>, ResultModel)>,
    earlier: int,
    later: int,
)
    requires
        batch_dispatched(store, actions, results, next_store),
        0 <= earlier < later < actions.len(),
        normalized_action(actions[earlier]) is Ok,
        normalized_action(actions[later]) is Ok,
        normalized_action(actions[earlier])->Ok_0.workspace_id == normalized_action(actions[later])->Ok_0.workspace_id,
        normalized_action(actions[earlier])->Ok_0.dedupe_token == normalized_action(actions[later])->Ok_0.dedupe_token,
    ensures
        same_run(results[earlier], results[later]),
        results[later].idempotent_replay,
{
    let stores = choose|stores: Seq<Seq<(Seq<char>, ResultModel)>>| #[trigger]
        chain(stores, store, actions, results, next_store);
    lemma_chain_extends(stores, store, actions, results, next_store, earlier + 1, later);
    lemma_dispatch_idempotent(
        stores[earlier],
        actions[earlier],
        results[earlier],
        stores[earlier + 1],
        stores[later],
        actions[later],
        results[later],
        stores[later + 1],
    );
}

/// A batch hands out one outcome for each action, in the order of the
/// actions, and never changes an outcome that the store kept.
pub proof fn lemma_batch_in_order(
    store: Seq<(Seq<char>, ResultModel)>,
    actions: Seq<ActionModel>,
    results: Seq<ResultModel>,
    next_store: Seq<(Seq<char>, ResultModel)>,
)
    requires
        batch_dispatched(store, actions, results, next_store),
    ensures
        results.len() == actions.len(),
        store_extends(store, next_store),
{
    let stores = choose|stores: Seq<Seq<(Seq<char>, ResultModel)>>| #[trigger]
        chain(stores, store, actions, results, next_store);
    lemma_chain_extends(stores, store, actions, results, next_store, 0, actions.len() as int);
}

/// What a key holds of a workspace id does not begin with a bare colon.
proof fn lemma_escaped_head(text: Seq<char>)
    requires
        text.len() > 0,
    ensures
        escaped(text).len() > 0,
        escaped(text)[0] != ':',
        escaped(text) == escaped_char(text[0]) + escaped(text.drop_first()),
{
}

/// Two keys are the same only where the workspace ids and the dedupe
/// tokens are: no workspace and token share the key of another pair.
pub proof fn lemma_pair_key_injective(
    workspace_a: Seq<char>,
    token_a: Seq<char>,
    workspace_b: Seq<char>,
    token_b: Seq<char>,
)
    requires
        pair_key(workspace_a, token_a) == pair_key(workspace_b, token_b),
    ensures
        workspace_a == workspace_b,
        token_a == token_b,
    decreases workspace_a.len(),
{
    reveal(pair_key);
    reveal_strlit(":");
    let key_a = pair_key(workspace_a, token_a);
    let key_b = pair_key(workspace_b, token_b);
    assert(":"@.len() == 1 && ":"@[0] == ':');
    if workspace_a.len() == 0 {
        assert(key_a[0] == ':');
        if workspace_b.len() > 0 {
            lemma_escaped_head(workspace_b);
            assert(key_b[0] == escaped(workspace_b)[0]);
        }
        assert(workspace_a =~= workspace_b);
        assert(token_a =~= key_a.subrange(1, key_a.len() as int));
        assert(token_b =~= key_b.subrange(1, key_b.len() as int));
    } else {
        lemma_escaped_head(workspace_a);
        assert(key_a[0] == escaped(workspace_a)[0]);
        if workspace_b.len() == 0 {
            assert(key_b[0] == ':');
        }
        lemma_escaped_head(workspace_b);
        assert(key_b[0] == escaped(workspace_b)[0]);
        let a = workspace_a[0];
        let b = workspace_b[0];
        let rest_a = pair_key(workspace_a.drop_first(), token_a);
        let rest_b = pair_key(workspace_b.drop_first(), token_b);
        assert(key_a =~= escaped_char(a) + rest_a);
        assert(key_b =~= escaped_char(b) + rest_b);
        if is_key_mark(a) {
            assert(key_a[0] == '\\' && key_a[1] == a);
            assert(is_key_mark(b));
            assert(key_b[1] == b);
            assert(rest_a =~= key_a.subrange(2, key_a.len() as int));
            assert(rest_b =~= key_b.subrange(2, key_b.len() as int));
        } else {
            assert(key_a[0] == a);
            assert(!is_key_mark(b));
            assert(key_b[0] == b);
            assert(rest_a =~= key_a.subrange(1, key_a.len() as int));
            assert(rest_b =~= key_b.subrange(1, key_b.len() as int));
        }
        lemma_pair_key_injective(workspace_a.drop_first(), token_a, workspace_b.drop_first(), token_b);
        assert(workspace_a =~= seq![a] + workspace_a.drop_first());
        assert(workspace_b =~= seq![b] + workspace_b.drop_first());
    }
}

/// A workspace id without colon and backslash stands in a key as it is.
pub proof fn lemma_plain_workspace_key(workspace_id: Seq<char>, token: Seq<char>)
    requires
        forall|i: int| 0 <= i < workspace_id.len() ==> !is_key_mark(#[trigger] workspace_id[i]),
    ensures
        pair_key(workspace_id, token) == workspace_id + ":"@ + token,
{
    reveal(pair_key);
    lemma_plain_escaped(workspace_id);
}

/// What a key holds of a workspace id without colon and backslash is the id.
proof fn lemma_plain_escaped(text: Seq<char>)
    requires
        forall|i: int| 0 <= i < text.len() ==> !is_key_mark(#[trigger] text[i]),
    ensures
        escaped(text) == text,
    decreases text.len(),
{
    if text.len() > 0 {
        let rest = text.drop_first();
        assert forall|i: int| 0 <= i < rest.len() implies !is_key_mark(#[trigger] rest[i]) by {
            assert(rest[i] == text[i + 1]);
        }
        lemma_plain_escaped(rest);
        assert(escaped(text) =~= text);
    } else {
        assert(escaped(text) =~= text);
    }
}

} // verus!
