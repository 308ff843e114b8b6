//! What holds of a queue whatever is done with it: no descriptor is lost or
//! handed out twice, and the device is told what was asked for.
use crate::config::VIRT_QUEUE_SIZE;
use crate::descriptor::{lemma_flag_bits, Buffer, Descriptor, FLAG_NEXT};
use crate::model::{
    addable, after_add, after_pop, chain_len, described, device_view, fresh, has_room, hop,
    last_visit, lemma_chain_len_bounds, lemma_hop_from_next, lemma_last_visit_bounds,
    next_position, path, recyclable, request_view, slot, sound, QueueModel, UsedModel,
};
use crate::queue::{look_result, pop_result};
use crate::util::{is_pow2, lemma_pow2_cases};
use crate::VirtIOError;
use vstd::prelude::*;

verus! {

/// The free descriptors, in the order in which they will be taken.
pub open spec fn free_list(q: QueueModel) -> Seq<u16> {
    path(q.table, q.free_head, (q.queue_size - q.used_num) as nat)
}

/// The descriptors of the chain from `head`, in order.
pub open spec fn chain_of(table: Seq<Descriptor>, head: u16) -> Seq<u16> {
    path(table, head, chain_len(table, head, table.len())->0)
}

/// Every descriptor is either on the free list or on exactly one of the chains
/// whose first descriptors are `live`; none is anywhere twice.
pub open spec fn linked(q: QueueModel, live: Set<u16>) -> bool {
    &&& sound(q)
    &&& free_list(q).no_duplicates()
    &&& forall|k: int| 0 <= k < free_list(q).len() ==> (#[trigger] free_list(q)[k]) < q.table.len()
    &&& forall|h: u16| #[trigger]
        live.contains(h) ==> chain_len(q.table, h, q.table.len()) is Some && chain_of(
            q.table,
            h,
        ).no_duplicates()
    &&& forall|h: u16, j: u16|
        live.contains(h) && #[trigger] chain_of(q.table, h).contains(j) ==> !free_list(q).contains(
            j,
        )
    &&& forall|h: u16, g: u16, j: u16|
        live.contains(h) && live.contains(g) && h != g && #[trigger] chain_of(q.table, h).contains(
            j,
        ) ==> !#[trigger] chain_of(q.table, g).contains(j)
    &&& forall|j: u16|
        j < q.queue_size ==> #[trigger] free_list(q).contains(j) || exists|h: u16|
            live.contains(h) && #[trigger] chain_of(q.table, h).contains(j)
}

/// The chain from `head` has exactly `m` descriptors, all of the table.
spec fn is_chain(table: Seq<Descriptor>, head: u16, m: nat) -> bool {
    &&& m >= 1
    &&& forall|k: nat|
        k < m ==> (#[trigger] hop(table, head, k)) < table.len() && (
        table[hop(table, head, k) as int].flags.has(FLAG_NEXT) <==> k + 1 < m)
}

proof fn lemma_chain_unfold(table: Seq<Descriptor>, head: u16, limit: nat)
    requires
        chain_len(table, head, limit) is Some,
    ensures
        is_chain(table, head, chain_len(table, head, limit)->0),
        chain_len(table, head, limit)->0 <= limit,
    decreases limit,
{
    let m = chain_len(table, head, limit)->0;
    if table[head as int].flags.has(FLAG_NEXT) {
        let next = table[head as int].next;
        lemma_chain_unfold(table, next, (limit - 1) as nat);
        assert forall|k: nat| k < m implies (#[trigger] hop(table, head, k)) < table.len() && (
        table[hop(table, head, k) as int].flags.has(FLAG_NEXT) <==> k + 1 < m) by {
            if k > 0 {
                lemma_hop_from_next(table, head, (k - 1) as nat);
                assert(hop(table, next, (k - 1) as nat) < table.len());
            }
        }
    } else {
        assert(hop(table, head, 0) == head);
    }
}

proof fn lemma_chain_fold(table: Seq<Descriptor>, head: u16, m: nat, limit: nat)
    requires
        is_chain(table, head, m),
        m <= limit,
    ensures
        chain_len(table, head, limit) == Some(m),
    decreases limit,
{
    assert(hop(table, head, 0) == head);
    if m > 1 {
        let next = table[head as int].next;
        assert forall|k: nat| k < m - 1 implies (#[trigger] hop(table, next, k)) < table.len() && (
        table[hop(table, next, k) as int].flags.has(FLAG_NEXT) <==> k + 1 < m - 1) by {
            lemma_hop_from_next(table, head, k);
            assert(hop(table, head, k + 1) < table.len());
        }
        lemma_chain_fold(table, next, (m - 1) as nat, (limit - 1) as nat);
    }
}

/// As long as the links along the way are the same, they lead to the same place.
proof fn lemma_hop_same(a: Seq<Descriptor>, b: Seq<Descriptor>, head: u16, k: nat)
    requires
        forall|i: nat|
            i < k ==> a[(#[trigger] hop(a, head, i)) as int].next == b[hop(a, head, i) as int].next,
    ensures
        hop(b, head, k) == hop(a, head, k),
    decreases k,
{
    if k > 0 {
        lemma_hop_same(a, b, head, (k - 1) as nat);
        assert(hop(a, head, (k - 1) as nat) == hop(b, head, (k - 1) as nat));
    }
}

/// A chain whose descriptors are untouched is still the same chain.
proof fn lemma_chain_same(a: Seq<Descriptor>, b: Seq<Descriptor>, head: u16)
    requires
        a.len() == b.len(),
        chain_len(a, head, a.len()) is Some,
        forall|j: u16| #[trigger] chain_of(a, head).contains(j) ==> a[j as int] == b[j as int],
    ensures
        chain_len(b, head, b.len()) == chain_len(a, head, a.len()),
        chain_of(b, head) == chain_of(a, head),
        device_view(b, head) == device_view(a, head),
{
    let m = chain_len(a, head, a.len())->0;
    lemma_chain_unfold(a, head, a.len());
    assert forall|k: nat| k < m implies a[(#[trigger] hop(a, head, k)) as int] == b[hop(
        a,
        head,
        k,
    ) as int] by {
        assert(chain_of(a, head)[k as int] == hop(a, head, k));
        assert(chain_of(a, head).contains(hop(a, head, k)));
    }
    assert forall|k: nat| k < m implies hop(b, head, k) == #[trigger] hop(a, head, k) by {
        lemma_hop_same(a, b, head, k);
    }
    assert forall|k: nat| k < m implies (#[trigger] hop(b, head, k)) < b.len() && (b[hop(
        b,
        head,
        k,
    ) as int].flags.has(FLAG_NEXT) <==> k + 1 < m) by {
        assert(hop(a, head, k) < a.len());
    }
    lemma_chain_fold(b, head, m, b.len());
    assert(chain_of(b, head) =~= chain_of(a, head)) by {
        assert forall|k: int| 0 <= k < m implies chain_of(b, head)[k] == chain_of(a, head)[k] by {
            assert(hop(b, head, k as nat) == hop(a, head, k as nat));
        }
    }
    assert(device_view(b, head)->0 =~= device_view(a, head)->0) by {
        assert forall|k: int| 0 <= k < m implies (device_view(b, head)->0)[k] == (device_view(
            a,
            head,
        )->0)[k] by {
            assert(hop(b, head, k as nat) == hop(a, head, k as nat));
            assert(a[hop(a, head, k as nat) as int] == b[hop(a, head, k as nat) as int]);
        }
    }
}

/// Distinct descriptors of a table are no more than the table has.
proof fn lemma_distinct_fit(s: Seq<u16>, n: nat)
    requires
        s.no_duplicates(),
        forall|k: int| 0 <= k < s.len() ==> (#[trigger] s[k]) < n,
    ensures
        s.len() <= n,
    decreases n,
{
    if n == 0 {
        if s.len() > 0 {
            assert(s[0] < n);
        }
    } else {
        if exists|k: int| 0 <= k < s.len() && #[trigger] s[k] == n - 1 {
            let at = choose|k: int| 0 <= k < s.len() && #[trigger] s[k] == n - 1;
            let rest = s.remove(at);
            assert forall|k: int| 0 <= k < rest.len() implies (#[trigger] rest[k]) < n - 1 by {
                let from = if k < at {
                    k
                } else {
                    k + 1
                };
                assert(rest[k] == s[from]);
                assert(s[from] != s[at]);
            }
            assert(rest.no_duplicates());
            lemma_distinct_fit(rest, (n - 1) as nat);
        } else {
            assert forall|k: int| 0 <= k < s.len() implies (#[trigger] s[k]) < n - 1 by {
                assert(s[k] != n - 1);
            }
            lemma_distinct_fit(s, (n - 1) as nat);
        }
    }
}

/// Steps add up.
proof fn lemma_hop_add(table: Seq<Descriptor>, head: u16, a: nat, b: nat)
    ensures
        hop(table, head, a + b) == hop(table, hop(table, head, a), b),
    decreases b,
{
    if b > 0 {
        lemma_hop_add(table, head, a, (b - 1) as nat);
        assert(a + b - 1 == a + (b - 1));
    }
}

/// The descriptors of a chain are of the table, its first one among them.
proof fn lemma_chain_in_table(table: Seq<Descriptor>, head: u16)
    requires
        chain_len(table, head, table.len()) is Some,
    ensures
        chain_of(table, head).contains(head),
        forall|j: u16| #[trigger] chain_of(table, head).contains(j) ==> j < table.len(),
        forall|k: int|
            0 <= k < chain_of(table, head).len() ==> (#[trigger] chain_of(table, head)[k])
                < table.len(),
{
    lemma_chain_unfold(table, head, table.len());
    assert(chain_of(table, head)[0] == hop(table, head, 0));
    assert forall|k: int| 0 <= k < chain_of(table, head).len() implies (#[trigger] chain_of(
        table,
        head,
    )[k]) < table.len() by {
        assert(hop(table, head, k as nat) < table.len());
    }
}

/// What a request changes in the table of a linked queue: the first descriptors
/// of the free list describe its buffers, all others are untouched.
pub proof fn request_is_described(
    q: QueueModel,
    live: Set<u16>,
    inputs: Seq<Buffer>,
    outputs: Seq<Buffer>,
)
    requires
        linked(q, live),
        has_room(q, (inputs.len() + outputs.len()) as int),
    ensures
        ({
            let n = inputs.len() + outputs.len();
            let table = after_add(q, inputs, outputs).table;
            &&& table.len() == q.table.len()
            &&& forall|k: int|
                0 <= k < n ==> table[(#[trigger] free_list(q)[k]) as int] == described(
                    inputs,
                    outputs,
                    k,
                    k + 1 < n,
                    q.table[free_list(q)[k] as int].next,
                )
            &&& forall|j: int|
                0 <= j < table.len() && (forall|k: int|
                    0 <= k < n ==> #[trigger] free_list(q)[k] != j) ==> #[trigger] table[j]
                    == q.table[j]
            &&& forall|j: int|
                0 <= j < table.len() ==> (#[trigger] table[j]).next == q.table[j].next
        }),
{
    let n = inputs.len() + outputs.len();
    let free = free_list(q);
    let table = after_add(q, inputs, outputs).table;
    assert forall|k: int| 0 <= k < n implies table[(#[trigger] free[k]) as int] == described(
        inputs,
        outputs,
        k,
        k + 1 < n,
        q.table[free[k] as int].next,
    ) by {
        let j = free[k] as int;
        lemma_last_visit_bounds(q.table, q.free_head, n, j);
        assert(hop(q.table, q.free_head, k as nat) == j);
        let at = last_visit(q.table, q.free_head, n, j);
        assert(free[at] == free[k]);
        assert(at == k);
    }
    assert forall|j: int|
        0 <= j < table.len() && (forall|k: int| 0 <= k < n ==> #[trigger] free[k] != j) implies
        #[trigger] table[j] == q.table[j] by {
        lemma_last_visit_bounds(q.table, q.free_head, n, j);
        let at = last_visit(q.table, q.free_head, n, j);
        if at >= 0 {
            assert(free[at] == j);
        }
    }
}

/// Adding a request to a linked queue with room for it succeeds, and the queue
/// stays linked: the chain is taken from the front of the free list, its first
/// descriptor was no chain's before, and the chains in flight are untouched.
pub proof fn adding_keeps_queue_linked(
    q: QueueModel,
    live: Set<u16>,
    inputs: Seq<Buffer>,
    outputs: Seq<Buffer>,
)
    requires
        linked(q, live),
        inputs.len() + outputs.len() > 0,
        has_room(q, (inputs.len() + outputs.len()) as int),
        slot(q, q.avail_index) < q.avail_ring.len(),
    ensures
        ({
            let n = inputs.len() + outputs.len();
            let post = after_add(q, inputs, outputs);
            &&& addable(q, n)
            &&& !live.contains(q.free_head)
            &&& linked(post, live.insert(q.free_head))
            &&& chain_of(post.table, q.free_head) == free_list(q).take(n as int)
            &&& free_list(post) == free_list(q).skip(n as int)
            &&& forall|h: u16| #[trigger]
                live.contains(h) ==> chain_of(post.table, h) == chain_of(q.table, h) && device_view(
                    post.table,
                    h,
                ) == device_view(q.table, h)
        }),
{
    let n = inputs.len() + outputs.len();
    let post = after_add(q, inputs, outputs);
    let free = free_list(q);
    let head = q.free_head;
    let size = q.table.len();
    request_is_described(q, live, inputs, outputs);
    assert forall|k: nat| k < free.len() implies (#[trigger] hop(q.table, head, k)) < size && hop(
        q.table,
        head,
        k,
    ) == free[k as int] by {
        assert(free[k as int] < size);
    }
    // The links are as before.
    assert forall|k: nat| k <= free.len() implies #[trigger] hop(post.table, head, k) == hop(
        q.table,
        head,
        k,
    ) by {
        assert forall|i: nat| i < k implies q.table[(#[trigger] hop(q.table, head, i)) as int].next
            == post.table[hop(q.table, head, i) as int].next by {
            assert(hop(q.table, head, i) < size);
        }
        lemma_hop_same(q.table, post.table, head, k);
    }
    // The new chain.
    lemma_flag_bits();
    assert forall|k: nat| k < n implies (#[trigger] hop(post.table, head, k)) < size && (
    post.table[hop(post.table, head, k) as int].flags.has(FLAG_NEXT) <==> k + 1 < n) by {
        assert(hop(q.table, head, k) == free[k as int]);
    }
    assert(hop(post.table, head, 0) == head);
    assert(n <= free.len() <= size);
    lemma_chain_fold(post.table, head, n, size);
    assert(chain_of(post.table, head) =~= free.take(n as int)) by {
        assert forall|k: int| 0 <= k < n implies chain_of(post.table, head)[k] == free.take(
            n as int,
        )[k] by {
            assert(hop(post.table, head, k as nat) == hop(q.table, head, k as nat));
        }
    }
    // The free list behind it.
    assert(free_list(post) =~= free.skip(n as int)) by {
        assert(free_list(post).len() == free.len() - n);
        assert forall|k: int| 0 <= k < free.len() - n implies free_list(post)[k] == free.skip(
            n as int,
        )[k] by {
            lemma_hop_add(post.table, head, n, k as nat);
            assert(hop(post.table, head, n) == hop(q.table, head, n));
            assert(hop(post.table, head, n + k as nat) == hop(q.table, head, n + k as nat));
        }
    }
    // The chains in flight.
    assert forall|h: u16| #[trigger] live.contains(h) implies chain_len(post.table, h, size)
        == chain_len(q.table, h, size) && chain_of(post.table, h) == chain_of(q.table, h)
        && device_view(post.table, h) == device_view(q.table, h) by {
        lemma_chain_in_table(q.table, h);
        assert forall|j: u16| #[trigger] chain_of(q.table, h).contains(j) implies q.table[j as int]
            == post.table[j as int] by {
            assert(!free.contains(j));
            assert forall|k: int| 0 <= k < n implies #[trigger] free[k] != j by {
                assert(free.contains(free[k]));
            }
        }
        lemma_chain_same(q.table, post.table, h);
    }
    if live.contains(head) {
        lemma_chain_in_table(q.table, head);
        assert(free[0] == head);
        assert(free.contains(head));
    }
    lemma_add_partition(q, post, live, n);
}

/// Moving the first `n` free descriptors to a chain of their own leaves every
/// descriptor in one place.
proof fn lemma_add_partition(q: QueueModel, post: QueueModel, live: Set<u16>, n: nat)
    requires
        linked(q, live),
        sound(post),
        0 < n <= free_list(q).len(),
        post.queue_size == q.queue_size,
        !live.contains(q.free_head),
        chain_len(post.table, q.free_head, post.table.len()) is Some,
        chain_of(post.table, q.free_head) == free_list(q).take(n as int),
        free_list(post) == free_list(q).skip(n as int),
        forall|h: u16| #[trigger]
            live.contains(h) ==> chain_len(post.table, h, post.table.len()) is Some && chain_of(
                post.table,
                h,
            ) == chain_of(q.table, h),
    ensures
        linked(post, live.insert(q.free_head)),
{
    let free = free_list(q);
    let head = q.free_head;
    let taken = free.take(n as int);
    let rest = free.skip(n as int);
    let now = live.insert(head);
    assert forall|j: u16| #[trigger] taken.contains(j) implies free.contains(j) && !rest.contains(
        j,
    ) by {
        let a = choose|a: int| 0 <= a < taken.len() && taken[a] == j;
        assert(free[a] == j);
        if rest.contains(j) {
            let b = choose|b: int| 0 <= b < rest.len() && rest[b] == j;
            assert(free[b + n] == j);
        }
    }
    assert forall|j: u16| #[trigger] rest.contains(j) implies free.contains(j) by {
        let b = choose|b: int| 0 <= b < rest.len() && rest[b] == j;
        assert(free[b + n] == j);
    }
    assert(rest.no_duplicates());
    assert(taken.no_duplicates());
    assert forall|k: int| 0 <= k < free_list(post).len() implies (#[trigger] free_list(post)[k])
        < post.table.len() by {
        assert(rest[k] == free[k + n]);
    }
    assert forall|h: u16, j: u16|
        now.contains(h) && #[trigger] chain_of(post.table, h).contains(j) implies !free_list(
        post,
    ).contains(j) by {
        if h != head {
            assert(live.contains(h));
            assert(chain_of(q.table, h).contains(j));
            assert(!free.contains(j));
        }
    }
    assert forall|h: u16, g: u16, j: u16|
        now.contains(h) && now.contains(g) && h != g && #[trigger] chain_of(
            post.table,
            h,
        ).contains(j) implies !#[trigger] chain_of(post.table, g).contains(j) by {
        if h == head {
            assert(live.contains(g));
            assert(taken.contains(j));
            if chain_of(q.table, g).contains(j) {
                assert(!free.contains(j));
            }
        } else {
            assert(live.contains(h));
            assert(chain_of(q.table, h).contains(j));
            if g == head {
                assert(!free.contains(j));
            } else {
                assert(live.contains(g));
                assert(!chain_of(q.table, g).contains(j));
            }
        }
    }
    assert forall|j: u16| j < post.queue_size implies #[trigger] free_list(post).contains(j)
        || exists|h: u16| now.contains(h) && #[trigger] chain_of(post.table, h).contains(j) by {
        if free.contains(j) {
            let a = choose|a: int| 0 <= a < free.len() && free[a] == j;
            if a < n {
                assert(taken[a] == j);
                assert(now.contains(head) && chain_of(post.table, head).contains(j));
            } else {
                assert(rest[a - n] == j);
            }
        } else {
            let h = choose|h: u16| live.contains(h) && #[trigger] chain_of(q.table, h).contains(j);
            assert(now.contains(h) && chain_of(post.table, h).contains(j));
        }
    }
}

/// The device is told of a request exactly what was asked for: walking the chain
/// from the descriptor that the available ring names, it finds the buffers in
/// order, those to read first and those to write behind them.
pub proof fn device_sees_request(
    q: QueueModel,
    live: Set<u16>,
    inputs: Seq<Buffer>,
    outputs: Seq<Buffer>,
)
    requires
        linked(q, live),
        inputs.len() + outputs.len() > 0,
        has_room(q, (inputs.len() + outputs.len()) as int),
        slot(q, q.avail_index) < q.avail_ring.len(),
    ensures
        ({
            let post = after_add(q, inputs, outputs);
            &&& post.avail_ring[slot(q, q.avail_index)] == q.free_head
            &&& post.avail_idx == next_position(q.avail_index)
            &&& device_view(post.table, post.avail_ring[slot(q, q.avail_index)]) == Some(
                request_view(inputs, outputs),
            )
        }),
{
    let n = inputs.len() + outputs.len();
    let post = after_add(q, inputs, outputs);
    adding_keeps_queue_linked(q, live, inputs, outputs);
    request_is_described(q, live, inputs, outputs);
    lemma_flag_bits();
    let chain = chain_of(post.table, q.free_head);
    assert(live.insert(q.free_head).contains(q.free_head));
    assert(chain.len() == n);
    assert(device_view(post.table, q.free_head)->0 =~= request_view(inputs, outputs)) by {
        assert forall|k: int| 0 <= k < n implies (device_view(post.table, q.free_head)->0)[k]
            == request_view(inputs, outputs)[k] by {
            assert(chain[k] == hop(post.table, q.free_head, k as nat));
            assert(chain[k] == free_list(q)[k]);
        }
    }
}

/// A fresh queue is linked: every descriptor is free, and they are taken in the
/// order of the table.
pub proof fn fresh_queue_is_linked(
    table: Seq<Descriptor>,
    avail_ring: Seq<u16>,
    avail_idx: u16,
    used: UsedModel,
    index: u32,
    size: u16,
)
    requires
        is_pow2(size),
        table.len() == size,
        avail_ring.len() == VIRT_QUEUE_SIZE,
        used.ring.len() == VIRT_QUEUE_SIZE,
    ensures
        ({
            let q = fresh(table, avail_ring, avail_idx, used, index, size);
            &&& linked(q, Set::empty())
            &&& free_list(q) == Seq::new(size as nat, |k: int| k as u16)
        }),
{
    let q = fresh(table, avail_ring, avail_idx, used, index, size);
    let free = free_list(q);
    assert forall|k: nat| k < size implies #[trigger] hop(q.table, 0, k) == k by {
        lemma_fresh_hop(q, k);
    }
    assert(free =~= Seq::new(size as nat, |k: int| k as u16)) by {
        assert forall|k: int| 0 <= k < size implies free[k] == k by {
            assert(hop(q.table, 0, k as nat) == k);
        }
    }
    assert forall|j: u16| j < q.queue_size implies #[trigger] free.contains(j) by {
        assert(free[j as int] == j);
    }
}

proof fn lemma_fresh_hop(q: QueueModel, k: nat)
    requires
        k < q.queue_size,
        forall|j: int| 0 <= j < q.queue_size - 1 ==> (#[trigger] q.table[j]).next == j + 1,
    ensures
        hop(q.table, 0, k) == k,
    decreases k,
{
    if k > 0 {
        lemma_fresh_hop(q, (k - 1) as nat);
        assert(q.table[k - 1].next == k);
    }
}

/// Taking back a chain that is in flight succeeds, and the queue stays linked:
/// the chain is in front of the free list, in its order, and the other chains
/// in flight are untouched.
pub proof fn popping_keeps_queue_linked(q: QueueModel, live: Set<u16>, head: u16)
    requires
        linked(q, live),
        live.contains(head),
    ensures
        ({
            let post = after_pop(q, head);
            &&& recyclable(q, head)
            &&& linked(post, live.remove(head))
            &&& free_list(post) == chain_of(q.table, head) + free_list(q)
            &&& post.used_num == q.used_num - chain_of(q.table, head).len()
            &&& forall|h: u16| #[trigger]
                live.contains(h) && h != head ==> chain_of(post.table, h) == chain_of(q.table, h)
                    && device_view(post.table, h) == device_view(q.table, h)
        }),
{
    let post = after_pop(q, head);
    let size = q.table.len();
    let chain = chain_of(q.table, head);
    let free = free_list(q);
    let m = chain.len();
    lemma_chain_unfold(q.table, head, size);
    lemma_chain_in_table(q.table, head);
    // The chain has no more descriptors than are in use.
    let both = chain + free;
    assert(both.no_duplicates()) by {
        assert forall|a: int, b: int| 0 <= a < both.len() && 0 <= b < both.len() && a
            != b implies both[a] != both[b] by {
            if a < m && b >= m {
                assert(chain.contains(chain[a]));
                assert(free.contains(free[b - m]));
            }
            if a >= m && b < m {
                assert(chain.contains(chain[b]));
                assert(free.contains(free[a - m]));
            }
        }
    }
    assert forall|k: int| 0 <= k < both.len() implies (#[trigger] both[k]) < size by {
        if k < m {
            assert(chain[k] < size);
        } else {
            assert(free[k - m] < size);
        }
    }
    lemma_distinct_fit(both, size);
    lemma_chain_fold(q.table, head, m, q.used_num as nat);
    let last = hop(q.table, head, (m - 1) as nat);
    assert(chain[m - 1] == last);
    assert(last < size);
    assert(post.table == q.table.update(
        last as int,
        Descriptor { next: q.free_head, ..q.table[last as int] },
    ));
    // Along the chain the links are as before.
    assert forall|k: nat| k < m implies hop(post.table, head, k) == #[trigger] hop(
        q.table,
        head,
        k,
    ) by {
        assert forall|i: nat| i < k implies q.table[(#[trigger] hop(q.table, head, i)) as int].next
            == post.table[hop(q.table, head, i) as int].next by {
            assert(chain[i as int] == hop(q.table, head, i));
            assert(chain[i as int] != chain[m - 1]);
            assert(hop(q.table, head, i) < size);
        }
        lemma_hop_same(q.table, post.table, head, k);
    }
    // Its last descriptor leads to the free list, where they are as before too.
    assert(hop(post.table, head, m) == q.free_head) by {
        assert(hop(post.table, head, (m - 1) as nat) == last);
    }
    assert forall|k: nat| k < free.len() implies hop(post.table, q.free_head, k) == #[trigger] hop(
        q.table,
        q.free_head,
        k,
    ) by {
        assert forall|i: nat| i < k implies q.table[(#[trigger] hop(
            q.table,
            q.free_head,
            i,
        )) as int].next == post.table[hop(q.table, q.free_head, i) as int].next by {
            assert(free[i as int] == hop(q.table, q.free_head, i));
            assert(free.contains(free[i as int]));
            assert(chain.contains(last));
        }
        lemma_hop_same(q.table, post.table, q.free_head, k);
    }
    assert(free_list(post) =~= both) by {
        assert(free_list(post).len() == m + free.len());
        assert forall|k: int| 0 <= k < both.len() implies free_list(post)[k] == both[k] by {
            if k < m {
                assert(hop(post.table, head, k as nat) == hop(q.table, head, k as nat));
            } else {
                lemma_hop_add(post.table, head, m, (k - m) as nat);
                assert(hop(post.table, q.free_head, (k - m) as nat) == hop(
                    q.table,
                    q.free_head,
                    (k - m) as nat,
                ));
            }
        }
    }
    assert forall|h: u16| #[trigger] live.contains(h) && h != head implies chain_len(
        post.table,
        h,
        size,
    ) == chain_len(q.table, h, size) && chain_of(post.table, h) == chain_of(q.table, h)
        && device_view(post.table, h) == device_view(q.table, h) by {
        lemma_chain_in_table(q.table, h);
        assert forall|j: u16| #[trigger] chain_of(q.table, h).contains(j) implies q.table[j as int]
            == post.table[j as int] by {
            assert(chain_of(q.table, head).contains(last));
        }
        lemma_chain_same(q.table, post.table, h);
    }
    lemma_pop_partition(q, post, live, head);
}

/// Moving a chain in front of the free list leaves every descriptor in one place.
proof fn lemma_pop_partition(q: QueueModel, post: QueueModel, live: Set<u16>, head: u16)
    requires
        linked(q, live),
        live.contains(head),
        sound(post),
        post.queue_size == q.queue_size,
        free_list(post) == chain_of(q.table, head) + free_list(q),
        free_list(post).no_duplicates(),
        forall|k: int|
            0 <= k < free_list(post).len() ==> (#[trigger] free_list(post)[k]) < post.table.len(),
        forall|h: u16| #[trigger]
            live.contains(h) && h != head ==> chain_len(post.table, h, post.table.len()) is Some
                && chain_of(post.table, h) == chain_of(q.table, h),
    ensures
        linked(post, live.remove(head)),
{
    let free = free_list(q);
    let chain = chain_of(q.table, head);
    let both = free_list(post);
    let now = live.remove(head);
    assert forall|j: u16| #[trigger] both.contains(j) implies chain.contains(j) || free.contains(
        j,
    ) by {
        let a = choose|a: int| 0 <= a < both.len() && both[a] == j;
        if a < chain.len() {
            assert(chain[a] == j);
        } else {
            assert(free[a - chain.len()] == j);
        }
    }
    assert forall|h: u16| #[trigger] now.contains(h) implies chain_len(
        post.table,
        h,
        post.table.len(),
    ) is Some && chain_of(post.table, h).no_duplicates() by {
        assert(live.contains(h));
    }
    assert forall|h: u16, j: u16|
        now.contains(h) && #[trigger] chain_of(post.table, h).contains(j) implies !both.contains(
        j,
    ) by {
        assert(live.contains(h));
        assert(chain_of(q.table, h).contains(j));
        if chain.contains(j) {
            assert(!chain_of(q.table, h).contains(j));
        }
    }
    assert forall|h: u16, g: u16, j: u16|
        now.contains(h) && now.contains(g) && h != g && #[trigger] chain_of(
            post.table,
            h,
        ).contains(j) implies !#[trigger] chain_of(post.table, g).contains(j) by {
        assert(live.contains(h) && live.contains(g));
        assert(chain_of(q.table, h).contains(j));
        assert(!chain_of(q.table, g).contains(j));
    }
    assert forall|j: u16| j < post.queue_size implies #[trigger] both.contains(j) || exists|h: u16|
        now.contains(h) && #[trigger] chain_of(post.table, h).contains(j) by {
        if free.contains(j) {
            let a = choose|a: int| 0 <= a < free.len() && free[a] == j;
            assert(both[a + chain.len()] == j);
        } else {
            let h = choose|h: u16| live.contains(h) && #[trigger] chain_of(q.table, h).contains(j);
            if h == head {
                let a = choose|a: int| 0 <= a < chain.len() && chain[a] == j;
                assert(both[a] == j);
            } else {
                assert(now.contains(h) && chain_of(post.table, h).contains(j));
            }
        }
    }
}

/// A request that comes back as soon as it was added leaves the free list as it
/// was before, every descriptor linked as before, and the same chains in flight.
/// The positions in the rings have moved on by one.
pub proof fn popping_undoes_adding(
    q: QueueModel,
    live: Set<u16>,
    inputs: Seq<Buffer>,
    outputs: Seq<Buffer>,
)
    requires
        linked(q, live),
        inputs.len() + outputs.len() > 0,
        has_room(q, (inputs.len() + outputs.len()) as int),
        slot(q, q.avail_index) < q.avail_ring.len(),
    ensures
        ({
            let post = after_pop(after_add(q, inputs, outputs), q.free_head);
            &&& linked(post, live)
            &&& free_list(post) == free_list(q)
            &&& post.free_head == q.free_head
            &&& post.used_num == q.used_num
            &&& post.queue_size == q.queue_size
            &&& forall|j: int|
                0 <= j < q.table.len() ==> (#[trigger] post.table[j]).next == q.table[j].next
            &&& post.avail_index == next_position(q.avail_index)
            &&& post.last_used == next_position(q.last_used)
        }),
{
    let n = (inputs.len() + outputs.len()) as int;
    let mid = after_add(q, inputs, outputs);
    let post = after_pop(mid, q.free_head);
    adding_keeps_queue_linked(q, live, inputs, outputs);
    assert(live.insert(q.free_head).contains(q.free_head));
    popping_keeps_queue_linked(mid, live.insert(q.free_head), q.free_head);
    assert(live.insert(q.free_head).remove(q.free_head) =~= live);
    assert(free_list(q).take(n) + free_list(q).skip(n) =~= free_list(q));
    assert(free_list(post).len() == free_list(q).len());
    // The chain's last descriptor leads on to where it led before.
    request_is_described(q, live, inputs, outputs);
    lemma_chain_len_bounds(mid.table, q.free_head, mid.used_num as nat);
    assert(free_list(q)[n - 1] == hop(mid.table, q.free_head, (n - 1) as nat));
}

/// No descriptor is lost: once no chain is in flight, all descriptors are free.
pub proof fn all_free_when_nothing_in_flight(q: QueueModel)
    requires
        linked(q, Set::empty()),
    ensures
        q.used_num == 0,
        free_list(q).len() == q.queue_size,
{
    let free = free_list(q);
    assert forall|j: u16| j < q.queue_size implies #[trigger] free.contains(j) by {
        if !free.contains(j) {
            let h = choose|h: u16|
                Set::<u16>::empty().contains(h) && #[trigger] chain_of(q.table, h).contains(j);
        }
    }
    lemma_covering_is_long(free, q.queue_size as nat);
}

proof fn lemma_covering_is_long(s: Seq<u16>, n: nat)
    requires
        n <= u16::MAX,
        forall|j: u16| j < n ==> #[trigger] s.contains(j),
    ensures
        s.len() >= n,
    decreases n,
{
    if n > 0 {
        let top = (n - 1) as u16;
        assert(s.contains(top));
        let at = choose|k: int| 0 <= k < s.len() && s[k] == top;
        let rest = s.remove(at);
        assert forall|j: u16| j < n - 1 implies #[trigger] rest.contains(j) by {
            assert(s.contains(j));
            let k = choose|k: int| 0 <= k < s.len() && s[k] == j;
            assert(rest[if k < at {
                k
            } else {
                k - 1
            }] == j);
        }
        lemma_covering_is_long(rest, (n - 1) as nat);
    }
}

/// Consecutive positions are consecutive entries of a ring, also where the
/// positions wrap: the ring is walked round and round without a gap.
pub proof fn ring_entries_follow_each_other(q: QueueModel, position: u16)
    requires
        sound(q),
    ensures
        slot(q, next_position(position)) == (slot(q, position) + 1) % (q.queue_size as int),
{
    let size = q.queue_size;
    lemma_pow2_cases(size);
    if position == u16::MAX {
        assert(65535u16 % size == size - 1) by (bit_vector)
            requires
                size == 1 || size == 2 || size == 4 || size == 8 || size == 16 || size == 32 || size
                    == 64 || size == 128 || size == 256 || size == 512 || size == 1024 || size
                    == 2048 || size == 4096 || size == 8192 || size == 16384 || size == 32768,
        ;
    } else {
        vstd::arithmetic::div_mod::lemma_add_mod_noop(position as int, 1, size as int);
        vstd::arithmetic::div_mod::lemma_mod_twice(position as int, size as int);
        if size != 1 {
            vstd::arithmetic::div_mod::lemma_small_mod(1, size as nat);
        }
    }
}

/// In a queue that is no longer than the rings, every position has its entry.
pub proof fn short_queue_stays_in_rings(q: QueueModel, position: u16)
    requires
        sound(q),
        q.queue_size <= VIRT_QUEUE_SIZE,
    ensures
        slot(q, position) < q.avail_ring.len(),
        slot(q, position) < q.used.ring.len(),
{
    lemma_pow2_cases(q.queue_size);
    vstd::arithmetic::div_mod::lemma_mod_bound(position as int, q.queue_size as int);
}

/// Used entries that the device at position `used_idx` shows and that were not
/// taken yet.
pub open spec fn entries_left(q: QueueModel, used_idx: u16) -> int {
    if used_idx >= q.last_used {
        used_idx - q.last_used
    } else {
        used_idx - q.last_used + 0x1_0000
    }
}

/// Every entry that the device shows is taken once: there is one to take exactly
/// as long as some are left, and each pop leaves one less.
pub proof fn each_pop_takes_one_entry(q: QueueModel, used_idx: u16, head: u16)
    ensures
        q.last_used != used_idx <==> entries_left(q, used_idx) > 0,
        q.last_used != used_idx ==> entries_left(after_pop(q, head), used_idx) == entries_left(
            q,
            used_idx,
        ) - 1,
{
}

/// The position `k` entries behind `position`.
pub open spec fn position_after(position: u16, k: int) -> u16 {
    ((position + k) % 0x1_0000) as u16
}

/// An entry of a ring is not written over before the ring has gone round: fewer
/// positions on than the queue has descriptors, the entry is another one.
pub proof fn ring_entry_is_kept(q: QueueModel, position: u16, k: int)
    requires
        sound(q),
        0 < k < q.queue_size,
    ensures
        slot(q, position_after(position, k)) != slot(q, position),
{
    let size = q.queue_size as int;
    lemma_pow2_cases(q.queue_size);
    let times = 0x1_0000int / size;
    assert(size * times == 0x1_0000);
    vstd::arithmetic::div_mod::lemma_mod_mod(position + k, size, times);
    if (position + k) % size == position as int % size {
        vstd::arithmetic::div_mod::lemma_mod_equivalence(position + k, position as int, size);
        vstd::arithmetic::div_mod::lemma_small_mod(k as nat, size as nat);
    }
}

/// A device that keeps to the protocol, and names a chain in flight, is served:
/// taking the entry gives the chain's first descriptor and the length that the
/// device said, and the queue stays linked without the chain. As long as it shows
/// no new entry, nothing changes.
pub proof fn honest_device_is_served(
    q: QueueModel,
    live: Set<u16>,
    used_idx: u16,
    id: u32,
    len: u32,
)
    requires
        linked(q, live),
        q.queue_size <= VIRT_QUEUE_SIZE,
        q.last_used != used_idx ==> live.contains(id as u16),
    ensures
        ({
            let (post, res) = pop_result(q, used_idx, id, len);
            if q.last_used == used_idx {
                post == q && res == Some(
                    Err::<(u16, u32), VirtIOError>(VirtIOError::UsedRingNotReady),
                )
            } else {
                &&& res == Some(Ok::<(u16, u32), VirtIOError>((id as u16, len)))
                &&& post == after_pop(q, id as u16)
                &&& linked(post, live.remove(id as u16))
            }
        }),
{
    short_queue_stays_in_rings(q, q.last_used);
    if q.last_used != used_idx {
        popping_keeps_queue_linked(q, live, id as u16);
    }
}

/// Looking at the next used entry shows what taking it will give: with the device
/// saying the same, and the chain one that can be taken back, the results are
/// equal.
pub proof fn looking_shows_what_popping_gives(q: QueueModel, used_idx: u16, id: u32, len: u32)
    ensures
        pop_result(q, used_idx, id, len).1 is Some ==> pop_result(q, used_idx, id, len).1
            == look_result(q, used_idx, id, len),
{
}

} // verus!
