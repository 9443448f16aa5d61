//! The relay's global guarantees, stated and proved over the contracts
//! of the registry and server operations.

use vstd::prelude::*;

use crate::registry::broadcast_step;
use crate::registry::deregister_step;
use crate::registry::Registry;
use crate::server::connect_step;
use crate::server::Server;

verus! {

/// Law: a well-formed registry never holds two entries with the same
/// identifier — after any number of registrations, the table has as
/// many distinct identifiers as it has entries.
pub proof fn lemma_registered_ids_distinct(r: Registry)
    requires
        r.wf(),
    ensures
        r.ids().no_duplicates(),
        r.ids().len() == r.count(),
{
    assert forall|i: int, j: int|
        0 <= i < r.ids().len() && 0 <= j < r.ids().len() && i != j implies r.ids()[i] != r.ids()[j] by {
        if i < j {
            assert(r.handles()[i].id() != r.handles()[j].id());
        } else {
            assert(r.handles()[j].id() != r.handles()[i].id());
        }
    }
}

/// Law: broadcasts reach every queue in the order they were invoked.
/// After a run of broadcasts, every connection registered throughout
/// holds its old queue followed by exactly one copy of each message,
/// in the order the broadcasts ran — no duplicate, no drop.
pub proof fn lemma_broadcast_run(states: Seq<Registry>, msgs: Seq<Seq<char>>)
    requires
        states.len() == msgs.len() + 1,
        forall|k: int|
            0 <= k < msgs.len() ==> broadcast_step(states[k], states[k + 1], #[trigger] msgs[k]),
    ensures
        forall|id: u64| #[trigger] states.last().has_id(id) == states.first().has_id(id),
        forall|id: u64|
            states.first().has_id(id) ==> #[trigger] states.last().queue_of(id) == states.first().queue_of(
                id,
            ) + msgs,
    decreases msgs.len(),
{
    if msgs.len() == 0 {
        assert(states.last() == states.first());
        assert forall|id: u64| states.first().has_id(id) implies #[trigger] states.last().queue_of(
            id,
        ) == states.first().queue_of(id) + msgs by {
            assert(states.first().queue_of(id) + msgs =~= states.first().queue_of(id));
        }
    } else {
        let n = msgs.len() as int;
        let prefix_states = states.drop_last();
        let prefix_msgs = msgs.drop_last();
        assert forall|k: int| 0 <= k < prefix_msgs.len() implies broadcast_step(
            prefix_states[k],
            prefix_states[k + 1],
            #[trigger] prefix_msgs[k],
        ) by {
            assert(prefix_msgs[k] == msgs[k]);
            assert(prefix_states[k] == states[k]);
            assert(prefix_states[k + 1] == states[k + 1]);
        }
        lemma_broadcast_run(prefix_states, prefix_msgs);
        let mid = states[n - 1];
        let last = states[n];
        assert(prefix_states.last() == mid);
        assert(broadcast_step(mid, last, msgs[n - 1]));
        assert forall|id: u64| states.first().has_id(id) implies #[trigger] last.queue_of(id)
            == states.first().queue_of(id) + msgs by {
            assert(mid.has_id(id) == states.first().has_id(id));
            assert(mid.queue_of(id) == states.first().queue_of(id) + prefix_msgs);
            assert(last.queue_of(id) == mid.queue_of(id).push(msgs[n - 1]));
            assert((states.first().queue_of(id) + prefix_msgs).push(msgs[n - 1])
                =~= states.first().queue_of(id) + msgs);
        }
    }
}

/// Law: once a connection is deregistered, a later broadcast cannot
/// enqueue to it — its identifier is simply no longer in the table.
pub proof fn lemma_no_delivery_after_disconnect(r0: Registry, r1: Registry, r2: Registry, id: u64, m: Seq<char>)
    requires
        deregister_step(r0, r1, id),
        broadcast_step(r1, r2, m),
    ensures
        !r1.has_id(id),
        !r2.has_id(id),
{
    assert(r2.has_id(id) == r1.has_id(id));
}

/// Law: a run of N back-to-back connects adds exactly N entries to the
/// registry, under N pairwise-distinct identifiers, every one of them
/// still registered once the whole run completes.
pub proof fn lemma_connect_run(states: Seq<Server>, ids: Seq<u64>)
    requires
        states.len() == ids.len() + 1,
        forall|k: int| 0 <= k < ids.len() ==> connect_step(states[k], states[k + 1], #[trigger] ids[k]),
    ensures
        ids.no_duplicates(),
        states.last().count() == states.first().count() + ids.len(),
        forall|k: int| 0 <= k < ids.len() ==> states.last().has_id(#[trigger] ids[k]),
    decreases ids.len(),
{
    if ids.len() > 0 {
        let n = ids.len() as int;
        let prefix_states = states.drop_last();
        let prefix_ids = ids.drop_last();
        assert forall|k: int| 0 <= k < prefix_ids.len() implies connect_step(
            prefix_states[k],
            prefix_states[k + 1],
            #[trigger] prefix_ids[k],
        ) by {
            assert(prefix_ids[k] == ids[k]);
            assert(prefix_states[k] == states[k]);
            assert(prefix_states[k + 1] == states[k + 1]);
        }
        lemma_connect_run(prefix_states, prefix_ids);
        let last_pre = states[n - 1];
        let last_post = states[n];
        assert(connect_step(last_pre, last_post, ids[n - 1]));
        assert(prefix_states.last() == last_pre);
        assert forall|k: int| 0 <= k < n - 1 implies #[trigger] ids[k] != ids[n - 1] by {
            assert(prefix_ids[k] == ids[k]);
            assert(last_pre.has_id(ids[k]));
        }
        assert forall|k: int| 0 <= k < n implies states.last().has_id(#[trigger] ids[k]) by {
            if k < n - 1 {
                assert(prefix_ids[k] == ids[k]);
                assert(last_pre.has_id(ids[k]));
                assert(last_post.has_id(ids[k]) == last_pre.has_id(ids[k]));
            }
        }
        assert forall|i: int, j: int|
            0 <= i < ids.len() && 0 <= j < ids.len() && i != j implies ids[i] != ids[j] by {
            if i < n - 1 && j < n - 1 {
                assert(prefix_ids[i] == ids[i]);
                assert(prefix_ids[j] == ids[j]);
            }
        }
    }
}

/// Law: no two connects ever hand out the same identifier, whatever
/// traffic runs between them. Every operation but connect leaves the
/// generator untouched, so between the two connects the counter can
/// only have grown, and the later connect draws from a strictly larger
/// counter than the one the earlier identifier came from.
pub proof fn lemma_connect_ids_distinct(s0: Server, s1: Server, s2: Server, s3: Server, id1: u64, id2: u64)
    requires
        connect_step(s0, s1, id1),
        connect_step(s2, s3, id2),
        s2.generator().counter() >= s1.generator().counter(),
    ensures
        id1 != id2,
{
    assert(id1 < s1.generator().counter());
}

} // verus!
