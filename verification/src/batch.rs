//! Grouping of messages into batches that a shared queue takes.

use vstd::prelude::*;

use crate::message::BanMessage;
use crate::message;
use crate::net::IpNet;

verus! {

/// The bytes of the messages `from..to`, by the sizes of the messages.
pub open spec fn bytes_between(sizes: Seq<usize>, from: int, to: int) -> int
    decreases to - from,
{
    if from >= to {
        0
    } else {
        bytes_between(sizes, from, to - 1) + sizes[to - 1]
    }
}

/// Message `i` still goes into the batch that begins with message `start` and holds all messages
/// since then: neither the byte limit nor the message limit is passed.
pub open spec fn fits(
    sizes: Seq<usize>,
    start: int,
    i: int,
    batch_size: usize,
    max_batch_bytes: usize,
) -> bool {
    bytes_between(sizes, start, i) + sizes[i] <= max_batch_bytes && i - start < batch_size
}

/// Where the batches end, from the batch on that begins with message `start` and holds the
/// messages up to `i`: a batch ends before the first message that does not fit.
pub open spec fn ends_after(
    sizes: Seq<usize>,
    start: int,
    i: int,
    batch_size: usize,
    max_batch_bytes: usize,
) -> Seq<usize>
    decreases sizes.len() - i,
{
    if i >= sizes.len() {
        seq![sizes.len() as usize]
    } else if fits(sizes, start, i, batch_size, max_batch_bytes) {
        ends_after(sizes, start, i + 1, batch_size, max_batch_bytes)
    } else {
        seq![i as usize] + ends_after(sizes, i, i + 1, batch_size, max_batch_bytes)
    }
}

/// Where the batches of all messages end. A batch takes its first message whatever its size.
pub open spec fn batch_ends(
    sizes: Seq<usize>,
    batch_size: usize,
    max_batch_bytes: usize,
) -> Seq<usize> {
    if sizes.len() == 0 {
        Seq::empty()
    } else {
        ends_after(sizes, 0, 1, batch_size, max_batch_bytes)
    }
}

/// Where batch `k` begins.
pub open spec fn batch_start(ends: Seq<usize>, k: int) -> int {
    if k == 0 {
        0
    } else {
        ends[k - 1] as int
    }
}

/// The items cut into batches at the given ends.
pub open spec fn cut<T>(items: Seq<T>, ends: Seq<usize>) -> Seq<Seq<T>> {
    Seq::new(ends.len(), |k: int| items.subrange(batch_start(ends, k), ends[k] as int))
}

/// Batch `k` is not empty, and ends within `n` items.
pub open spec fn end_in_range(ends: Seq<usize>, n: int, k: int) -> bool {
    batch_start(ends, k) < ends[k] <= n
}

/// The ends rise strictly up to the number of items.
pub open spec fn ends_wf(ends: Seq<usize>, n: int) -> bool {
    &&& forall|k: int| 0 <= k < ends.len() ==> #[trigger] end_in_range(ends, n, k)
    &&& ends.len() == 0 ==> n == 0
    &&& ends.len() > 0 ==> ends.last() == n
}

/// The messages `from..to` keep to both limits, or are one message only.
pub open spec fn keeps_limits(
    sizes: Seq<usize>,
    from: int,
    to: int,
    batch_size: usize,
    max_batch_bytes: usize,
) -> bool {
    to == from + 1 || (bytes_between(sizes, from, to) <= max_batch_bytes && to - from <= batch_size)
}

/// Batch `k` keeps to both limits, unless it holds one message only; and it could not have taken
/// the message that follows it.
pub open spec fn batch_is_right(
    sizes: Seq<usize>,
    ends: Seq<usize>,
    k: int,
    batch_size: usize,
    max_batch_bytes: usize,
) -> bool {
    let from = batch_start(ends, k);
    let to = ends[k] as int;
    &&& keeps_limits(sizes, from, to, batch_size, max_batch_bytes)
    &&& k < ends.len() - 1 ==> !fits(sizes, from, to, batch_size, max_batch_bytes)
}

/// Finds where the batches end, from the sizes of the messages.
pub fn find_batch_ends(
    sizes: &Vec<usize>,
    batch_size: usize,
    max_batch_bytes: usize,
) -> (ends: Vec<usize>)
    ensures
        ends@ == batch_ends(sizes@, batch_size, max_batch_bytes),
{
    let mut ends: Vec<usize> = Vec::new();
    if sizes.len() == 0 {
        return ends;
    }
    let mut start: usize = 0;
    let mut current: usize = sizes[0];
    assert(bytes_between(sizes@, 0, 0) == 0);
    let mut i: usize = 1;
    while i < sizes.len()
        invariant
            0 < sizes@.len(),
            start < i <= sizes@.len(),
            current == bytes_between(sizes@, start as int, i as int),
            current <= max_batch_bytes || i == start + 1,
            ends@ + ends_after(sizes@, start as int, i as int, batch_size, max_batch_bytes)
                == batch_ends(sizes@, batch_size, max_batch_bytes),
        decreases sizes@.len() - i,
    {
        let size: usize = sizes[i];
        if size <= max_batch_bytes && current <= max_batch_bytes - size && i - start < batch_size {
            current = current + size;
        } else {
            proof {
                assert(ends@ + ends_after(
                    sizes@,
                    start as int,
                    i as int,
                    batch_size,
                    max_batch_bytes,
                ) =~= ends@.push(i) + ends_after(
                    sizes@,
                    i as int,
                    i + 1,
                    batch_size,
                    max_batch_bytes,
                ));
                assert(bytes_between(sizes@, i as int, i as int) == 0);
            }
            ends.push(i);
            start = i;
            current = size;
        }
        i = i + 1;
    }
    ends.push(sizes.len());
    ends
}

/// Where batch `k` begins, if the first one begins with message `start`.
spec fn start_from(start: int, ends: Seq<usize>, k: int) -> int {
    if k == 0 {
        start
    } else {
        ends[k - 1] as int
    }
}

/// Batch `k` is not empty, ends within the messages, and is right in the sense of
/// `batch_is_right`, if the first batch begins with message `start`.
spec fn right_from(
    sizes: Seq<usize>,
    start: int,
    ends: Seq<usize>,
    k: int,
    batch_size: usize,
    max_batch_bytes: usize,
) -> bool {
    let from = start_from(start, ends, k);
    let to = ends[k] as int;
    &&& from < to <= sizes.len()
    &&& keeps_limits(sizes, from, to, batch_size, max_batch_bytes)
    &&& k < ends.len() - 1 ==> !fits(sizes, from, to, batch_size, max_batch_bytes)
}

proof fn lemma_ends_after(
    sizes: Seq<usize>,
    start: int,
    i: int,
    batch_size: usize,
    max_batch_bytes: usize,
)
    requires
        0 <= start < i <= sizes.len() <= usize::MAX,
        keeps_limits(sizes, start, i, batch_size, max_batch_bytes),
    ensures
        ({
            let ends = ends_after(sizes, start, i, batch_size, max_batch_bytes);
            &&& ends.len() > 0
            &&& ends.last() == sizes.len()
            &&& forall|k: int|
                0 <= k < ends.len() ==> #[trigger] right_from(
                    sizes,
                    start,
                    ends,
                    k,
                    batch_size,
                    max_batch_bytes,
                )
        }),
    decreases sizes.len() - i,
{
    let ends = ends_after(sizes, start, i, batch_size, max_batch_bytes);
    if i >= sizes.len() {
    } else if fits(sizes, start, i, batch_size, max_batch_bytes) {
        lemma_ends_after(sizes, start, i + 1, batch_size, max_batch_bytes);
    } else {
        let rest = ends_after(sizes, i, i + 1, batch_size, max_batch_bytes);
        lemma_ends_after(sizes, i, i + 1, batch_size, max_batch_bytes);
        assert forall|k: int| 0 <= k < ends.len() implies #[trigger] right_from(
            sizes,
            start,
            ends,
            k,
            batch_size,
            max_batch_bytes,
        ) by {
            if k > 0 {
                assert(right_from(sizes, i, rest, k - 1, batch_size, max_batch_bytes));
                assert(ends[k] == rest[k - 1]);
                assert(start_from(start, ends, k) == start_from(i, rest, k - 1));
            }
        }
    }
}

/// The batches are contiguous, none is empty, and each keeps to both limits unless it holds one
/// message only; no batch could have taken the message that follows it.
pub proof fn law_batches_keep_limits(
    sizes: Seq<usize>,
    batch_size: usize,
    max_batch_bytes: usize,
)
    requires
        sizes.len() <= usize::MAX,
    ensures
        ({
            let ends = batch_ends(sizes, batch_size, max_batch_bytes);
            &&& ends_wf(ends, sizes.len() as int)
            &&& forall|k: int|
                0 <= k < ends.len() ==> #[trigger] batch_is_right(
                    sizes,
                    ends,
                    k,
                    batch_size,
                    max_batch_bytes,
                )
        }),
{
    if sizes.len() > 0 {
        let ends = batch_ends(sizes, batch_size, max_batch_bytes);
        lemma_ends_after(sizes, 0, 1, batch_size, max_batch_bytes);
        assert forall|k: int| 0 <= k < ends.len() implies #[trigger] end_in_range(
            ends,
            sizes.len() as int,
            k,
        ) by {
            assert(right_from(sizes, 0, ends, k, batch_size, max_batch_bytes));
        }
        assert forall|k: int| 0 <= k < ends.len() implies #[trigger] batch_is_right(
            sizes,
            ends,
            k,
            batch_size,
            max_batch_bytes,
        ) by {
            assert(right_from(sizes, 0, ends, k, batch_size, max_batch_bytes));
        }
    }
}

/// All batches but the last are those of the items before the last batch.
proof fn lemma_cut_drop_last<T>(items: Seq<T>, ends: Seq<usize>)
    requires
        ends_wf(ends, items.len() as int),
        ends.len() > 0,
    ensures
        ({
            let n = batch_start(ends, ends.len() - 1);
            &&& 0 <= n <= items.len()
            &&& ends_wf(ends.drop_last(), n)
            &&& cut(items, ends).drop_last() == cut(items.take(n), ends.drop_last())
            &&& cut(items, ends).last() == items.skip(n)
        }),
{
    let before = ends.drop_last();
    let n = batch_start(ends, ends.len() - 1);
    assert(end_in_range(ends, items.len() as int, ends.len() - 1));
    assert forall|k: int| 0 <= k < before.len() implies #[trigger] end_in_range(before, n, k) by {
        assert(end_in_range(ends, items.len() as int, k));
        lemma_ends_rise(ends, items.len() as int, k, before.len() - 1);
    }
    let left = cut(items, ends).drop_last();
    let right = cut(items.take(n), before);
    assert forall|k: int| 0 <= k < left.len() implies left[k] == right[k] by {
        assert(end_in_range(before, n, k));
        if k > 0 {
            assert(end_in_range(before, n, k - 1));
        }
        assert(left[k] =~= right[k]);
    }
    assert(left =~= right);
    assert(cut(items, ends).last() =~= items.skip(n));
}

/// The batches, one after the other, are the messages: none is lost, doubled or moved.
pub proof fn law_batches_hold_all<T>(items: Seq<T>, ends: Seq<usize>)
    requires
        ends_wf(ends, items.len() as int),
    ensures
        cut(items, ends).flatten() == items,
    decreases ends.len(),
{
    let batches = cut(items, ends);
    if ends.len() == 0 {
        assert(batches.flatten() =~= items);
    } else {
        let n = batch_start(ends, ends.len() - 1);
        lemma_cut_drop_last(items, ends);
        law_batches_hold_all(items.take(n), ends.drop_last());
        assert(batches.drop_last().push(batches.last()) =~= batches);
        batches.drop_last().lemma_flatten_push(batches.last());
        assert(items.take(n) + items.skip(n) =~= items);
    }
}

proof fn lemma_ends_rise(ends: Seq<usize>, n: int, j: int, k: int)
    requires
        ends_wf(ends, n),
        0 <= j <= k < ends.len(),
    ensures
        ends[j] <= ends[k],
    decreases k - j,
{
    if j < k {
        lemma_ends_rise(ends, n, j, k - 1);
        assert(end_in_range(ends, n, k));
    }
}

/// The error of the FlexBuffers serializer.
#[verifier::external_type_specification]
#[verifier::external_body]
pub struct ExSerializationError(flexbuffers::SerializationError);

/// The FlexBuffers map that holds a message, as `flexbuffers::FlexbufferSerializer` writes it;
/// `None` where it refuses to.
pub uninterp spec fn message_encoding(
    ip: IpNet,
    remediation: Seq<char>,
    expiration: Seq<char>,
) -> Option<Seq<u8>>;

/// `flexbuffers::FlexbufferSerializer` on a struct of the fields `ip`, `remediation` and
/// `expiration`: the bytes that it wrote. What they are is left to the name `message_encoding`.
#[verifier::external_body]
fn encode_message(ip: IpNet, remediation: &str, expiration: &str) -> (r: Result<
    Vec<u8>,
    flexbuffers::SerializationError,
>)
    requires
        ip.wf(),
    ensures
        r matches Ok(bytes) ==> message_encoding(ip, remediation@, expiration@) == Some(bytes@),
        r is Err ==> message_encoding(ip, remediation@, expiration@) is None,
{
    let ip: ipnet::IpNet = match ip {
        IpNet::V4 { addr: a, prefix_len: n } => ipnet::Ipv4Net::new_assert(a.into(), n).into(),
        IpNet::V6 { addr: a, prefix_len: n } => ipnet::Ipv6Net::new_assert(a.into(), n).into(),
    };
    let mut out = flexbuffers::FlexbufferSerializer::new();
    let mut fields = serde::Serializer::serialize_struct(&mut out, "BanMessage", 3)?;
    serde::ser::SerializeStruct::serialize_field(&mut fields, "ip", &ip)?;
    serde::ser::SerializeStruct::serialize_field(&mut fields, "remediation", remediation)?;
    serde::ser::SerializeStruct::serialize_field(&mut fields, "expiration", expiration)?;
    serde::ser::SerializeStruct::end(fields)?;
    Ok(out.take_buffer())
}

/// The encoding of a message.
pub open spec fn encoding_of(m: message::BanMessageView) -> Option<Seq<u8>> {
    message_encoding(m.ip, m.remediation, m.expiration)
}

/// The number of bytes that each message takes.
pub open spec fn encoded_sizes(messages: Seq<message::BanMessageView>) -> Seq<usize> {
    Seq::new(messages.len(), |i: int| encoding_of(messages[i])->0.len() as usize)
}

/// What each batch says.
pub open spec fn batch_views(batches: Seq<Vec<BanMessage>>) -> Seq<Seq<message::BanMessageView>> {
    nested_views(batches)
}

/// The batches of some messages, by the sizes of their encodings.
pub open spec fn batches_of(
    messages: Seq<message::BanMessageView>,
    batch_size: usize,
    max_batch_bytes: usize,
) -> Seq<Seq<message::BanMessageView>> {
    cut(messages, batch_ends(encoded_sizes(messages), batch_size, max_batch_bytes))
}

/// Why messages could not be grouped.
#[derive(Debug)]
pub enum BatchError {
    /// A message could not be serialized.
    Serialization(flexbuffers::SerializationError),
}

/// What each of the items says.
pub open spec fn views<T: View>(items: Seq<T>) -> Seq<T::V> {
    Seq::new(items.len(), |i: int| items[i]@)
}

/// What each item of each batch says.
pub open spec fn nested_views<T: View>(batches: Seq<Vec<T>>) -> Seq<Seq<T::V>> {
    Seq::new(batches.len(), |k: int| views(batches[k]@))
}

/// A copy says what was copied.
pub open spec fn copies_say_the_same<T: View + Clone>() -> bool {
    forall|a: T, b: T| #[trigger] cloned(a, b) ==> a@ == b@
}

/// The items copied into batches at the given ends.
pub(crate) fn cut_items<T: View + Clone>(items: &[T], ends: &Vec<usize>) -> (batches: Vec<Vec<T>>)
    requires
        ends_wf(ends@, items@.len() as int),
        copies_say_the_same::<T>(),
    ensures
        nested_views(batches@) == cut(views(items@), ends@),
{
    let ghost all = views(items@);
    let mut batches: Vec<Vec<T>> = Vec::new();
    let mut start: usize = 0;
    for k in 0..ends.len()
        invariant
            ends_wf(ends@, items@.len() as int),
            copies_say_the_same::<T>(),
            all == views(items@),
            start == batch_start(ends@, k as int),
            batches@.len() == k,
            forall|j: int|
                0 <= j < k ==> #[trigger] nested_views(batches@)[j] == cut(all, ends@)[j],
    {
        let end: usize = ends[k];
        assert(end_in_range(ends@, items@.len() as int, k as int));
        let ghost before = batches@;
        batches.push(copy_range(items, start, end));
        start = end;
        assert forall|j: int| 0 <= j < k + 1 implies #[trigger] nested_views(batches@)[j] == cut(
            all,
            ends@,
        )[j] by {
            if j < k {
                assert(nested_views(batches@)[j] == nested_views(before)[j]);
            }
        }
    }
    assert(nested_views(batches@) =~= cut(all, ends@));
    batches
}

fn copy_range<T: View + Clone>(items: &[T], start: usize, end: usize) -> (r: Vec<T>)
    requires
        start <= end <= items@.len(),
        copies_say_the_same::<T>(),
    ensures
        views(r@) == views(items@).subrange(start as int, end as int),
{
    let ghost all = views(items@);
    let mut r: Vec<T> = Vec::new();
    assert(views(r@) =~= all.subrange(start as int, start as int));
    for i in start..end
        invariant
            start <= end <= items@.len(),
            copies_say_the_same::<T>(),
            all == views(items@),
            views(r@) == all.subrange(start as int, i as int),
    {
        let ghost before = r@;
        let item: T = items[i].clone();
        assert(cloned(items@[i as int], item));
        r.push(item);
        assert(views(r@) =~= views(before).push(all[i as int]));
        assert(views(r@) =~= all.subrange(start as int, i + 1));
    }
    r
}

/// Groups messages into batches of at most `batch_size` messages that together take at most
/// `max_batch_bytes` bytes, in their order; a message that is too large by itself gets a batch of
/// its own. Fails exactly where some message cannot be serialized.
pub fn send_batched(
    messages: &[BanMessage],
    batch_size: usize,
    max_batch_bytes: usize,
) -> (r: Result<Vec<Vec<BanMessage>>, BatchError>)
    requires
        forall|i: int| 0 <= i < messages@.len() ==> (#[trigger] messages@[i]).ip.wf(),
    ensures
        r is Ok <==> forall|i: int|
            0 <= i < messages@.len() ==> encoding_of((#[trigger] messages@[i])@) is Some,
        r matches Ok(batches) ==> batch_views(batches@) == batches_of(
            message::message_views(messages@),
            batch_size,
            max_batch_bytes,
        ),
{
    let mut sizes: Vec<usize> = Vec::new();
    let ghost views = message::message_views(messages@);
    for i in 0..messages.len()
        invariant
            forall|i: int| 0 <= i < messages@.len() ==> (#[trigger] messages@[i]).ip.wf(),
            views == message::message_views(messages@),
            sizes@ == encoded_sizes(views).take(i as int),
            forall|j: int| 0 <= j < i ==> encoding_of((#[trigger] messages@[j])@) is Some,
    {
        let m: &BanMessage = &messages[i];
        match encode_message(m.ip, m.remediation.as_str(), m.expiration.as_str()) {
            Ok(bytes) => {
                sizes.push(bytes.len());
            },
            Err(e) => {
                assert(encoding_of(messages@[i as int]@) is None);
                return Err(BatchError::Serialization(e));
            },
        }
        assert(views[i as int] == messages@[i as int]@);
        assert(sizes@ =~= encoded_sizes(views).take(i + 1));
    }
    assert(encoded_sizes(views).take(messages@.len() as int) =~= encoded_sizes(views));
    let ends: Vec<usize> = find_batch_ends(&sizes, batch_size, max_batch_bytes);
    proof {
        law_batches_keep_limits(sizes@, batch_size, max_batch_bytes);
    }
    let batches: Vec<Vec<BanMessage>> = cut_items(messages, &ends);
    assert(nested_views(batches@) =~= batch_views(batches@));
    Ok(batches)
}

/// The deliveries of the first `n` batches: every batch to every queue, batch by batch.
pub open spec fn deliveries(n: nat, queues: Seq<u32>) -> Seq<(u32, usize)>
    decreases n,
{
    if n == 0 {
        Seq::empty()
    } else {
        deliveries((n - 1) as nat, queues) + queues.map_values(|q: u32| (q, (n - 1) as usize))
    }
}

/// Which batch goes to which queue, in the order of the deliveries: every batch goes to every
/// queue, whatever becomes of the other deliveries.
pub fn plan_deliveries(batches: usize, queues: &Vec<u32>) -> (r: Vec<(u32, usize)>)
    ensures
        r@ == deliveries(batches as nat, queues@),
{
    let mut r: Vec<(u32, usize)> = Vec::new();
    for k in 0..batches
        invariant
            r@ == deliveries(k as nat, queues@),
    {
        let ghost before = r@;
        let ghost round = queues@.map_values(|q: u32| (q, k));
        for j in 0..queues.len()
            invariant
                round == queues@.map_values(|q: u32| (q, k)),
                r@ == before + round.take(j as int),
        {
            r.push((queues[j], k));
            assert(r@ =~= before + round.take(j + 1));
        }
        assert(round.take(queues@.len() as int) =~= round);
        assert(r@ =~= deliveries((k + 1) as nat, queues@));
    }
    r
}

/// Every batch is delivered to every queue, nothing else is delivered, and no queue gets a batch
/// before an earlier one.
pub proof fn law_every_queue_gets_every_batch(n: nat, queues: Seq<u32>)
    requires
        n <= usize::MAX,
    ensures
        forall|q: u32, k: usize| #[trigger]
            deliveries(n, queues).contains((q, k)) <==> queues.contains(q) && k < n,
        forall|i: int, j: int|
            0 <= i <= j < deliveries(n, queues).len() ==> (#[trigger] deliveries(n, queues)[i]).1
                <= (#[trigger] deliveries(n, queues)[j]).1,
    decreases n,
{
    let all = deliveries(n, queues);
    if n > 0 {
        let m = (n - 1) as nat;
        law_every_queue_gets_every_batch(m, queues);
        let before = deliveries(m, queues);
        let round = queues.map_values(|q: u32| (q, m as usize));
        assert forall|q: u32, k: usize| #[trigger] all.contains((q, k)) <==> queues.contains(q) && k
            < n by {
            if all.contains((q, k)) {
                let i = choose|i: int| 0 <= i < all.len() && all[i] == (q, k);
                if i < before.len() {
                    assert(before[i] == (q, k));
                    assert(before.contains((q, k)));
                } else {
                    assert(round[i - before.len()] == (q, k));
                    assert(queues[i - before.len()] == q);
                }
            }
            if queues.contains(q) && k < n {
                if k < m {
                    assert(before.contains((q, k)));
                    let i = choose|i: int| 0 <= i < before.len() && before[i] == (q, k);
                    assert(all[i] == (q, k));
                } else {
                    let i = choose|i: int| 0 <= i < queues.len() && queues[i] == q;
                    assert(all[before.len() + i] == (q, k));
                }
            }
        }
        assert forall|i: int, j: int| 0 <= i <= j < all.len() implies (#[trigger] all[i]).1 <= (
        #[trigger] all[j]).1 by {
            if i < before.len() {
                assert(all[i] == before[i]);
                assert(before.contains((before[i].0, before[i].1)));
                if j < before.len() {
                    assert(all[j] == before[j]);
                }
            }
        }
    } else {
        assert(all =~= Seq::empty());
    }
}

/// The bytes that some items take together, by the bytes that each of them takes.
pub open spec fn weight<T>(items: Seq<T>, size: spec_fn(T) -> usize) -> int {
    items.fold_left(0, |total: int, item: T| total + size(item))
}

proof fn lemma_weight<T>(
    items: Seq<T>,
    size: spec_fn(T) -> usize,
    sizes: Seq<usize>,
    from: int,
    to: int,
)
    requires
        sizes.len() == items.len(),
        forall|i: int| 0 <= i < items.len() ==> #[trigger] sizes[i] == size(items[i]),
        0 <= from <= to <= items.len(),
    ensures
        bytes_between(sizes, from, to) == weight(items.subrange(from, to), size),
    decreases to - from,
{
    reveal(Seq::fold_left);
    let part = items.subrange(from, to);
    if from < to {
        lemma_weight(items, size, sizes, from, to - 1);
        assert(part.drop_last() =~= items.subrange(from, to - 1));
        assert(part.last() == items[to - 1]);
    }
}

/// The batches together are all items in their order, and none of them is empty. A batch keeps to
/// both limits, unless it holds one item only, and it is closed only where the item that follows
/// would break a limit.
pub proof fn law_batches_are_full<T>(
    items: Seq<T>,
    size: spec_fn(T) -> usize,
    sizes: Seq<usize>,
    batch_size: usize,
    max_batch_bytes: usize,
)
    requires
        items.len() <= usize::MAX,
        sizes.len() == items.len(),
        forall|i: int| 0 <= i < items.len() ==> #[trigger] sizes[i] == size(items[i]),
    ensures
        ({
            let batches = cut(items, batch_ends(sizes, batch_size, max_batch_bytes));
            &&& batches.flatten() == items
            &&& forall|k: int|
                0 <= k < batches.len() ==> {
                    ||| (#[trigger] batches[k]).len() == 1
                    ||| 0 < batches[k].len() <= batch_size && weight(batches[k], size)
                        <= max_batch_bytes
                }
            &&& forall|k: int|
                0 <= k < batches.len() - 1 ==> {
                    ||| (#[trigger] batches[k]).len() >= batch_size
                    ||| weight(batches[k], size) + size(batches[k + 1][0]) > max_batch_bytes
                }
        }),
{
    let ends = batch_ends(sizes, batch_size, max_batch_bytes);
    let n = items.len() as int;
    let batches = cut(items, ends);
    law_batches_keep_limits(sizes, batch_size, max_batch_bytes);
    law_batches_hold_all(items, ends);
    assert forall|k: int| 0 <= k < batches.len() implies {
        ||| (#[trigger] batches[k]).len() == 1
        ||| 0 < batches[k].len() <= batch_size && weight(batches[k], size) <= max_batch_bytes
    } by {
        assert(end_in_range(ends, n, k));
        assert(batch_is_right(sizes, ends, k, batch_size, max_batch_bytes));
        if k > 0 {
            assert(end_in_range(ends, n, k - 1));
        }
        lemma_weight(items, size, sizes, batch_start(ends, k), ends[k] as int);
    }
    assert forall|k: int| 0 <= k < batches.len() - 1 implies {
        ||| (#[trigger] batches[k]).len() >= batch_size
        ||| weight(batches[k], size) + size(batches[k + 1][0]) > max_batch_bytes
    } by {
        assert(end_in_range(ends, n, k));
        assert(end_in_range(ends, n, k + 1));
        assert(batch_is_right(sizes, ends, k, batch_size, max_batch_bytes));
        if k > 0 {
            assert(end_in_range(ends, n, k - 1));
        }
        lemma_weight(items, size, sizes, batch_start(ends, k), ends[k] as int);
        assert(batches[k + 1][0] == items[ends[k] as int]);
    }
}

/// The messages are cut into batches by the lengths of their encodings: the batches together are all
/// messages in their order, each batch keeps to both limits or holds one message only, and is closed
/// only where the next message would break a limit.
pub proof fn law_message_batches_are_full(
    messages: Seq<message::BanMessageView>,
    batch_size: usize,
    max_batch_bytes: usize,
)
    requires
        messages.len() <= usize::MAX,
    ensures
        ({
            let batches = batches_of(messages, batch_size, max_batch_bytes);
            let size = |m: message::BanMessageView|
                message_encoding(m.ip, m.remediation, m.expiration)->0.len() as usize;
            &&& batches.flatten() == messages
            &&& forall|k: int|
                0 <= k < batches.len() ==> {
                    ||| (#[trigger] batches[k]).len() == 1
                    ||| 0 < batches[k].len() <= batch_size && weight(batches[k], size)
                        <= max_batch_bytes
                }
            &&& forall|k: int|
                0 <= k < batches.len() - 1 ==> {
                    ||| (#[trigger] batches[k]).len() >= batch_size
                    ||| weight(batches[k], size) + size(batches[k + 1][0]) > max_batch_bytes
                }
        }),
{
    let size = |m: message::BanMessageView|
        message_encoding(m.ip, m.remediation, m.expiration)->0.len() as usize;
    law_batches_are_full(messages, size, encoded_sizes(messages), batch_size, max_batch_bytes);
}

/// What batches say is what their members say, each in its place.
pub proof fn law_batches_say_what_their_members_say<T: View>(items: Seq<T>, batches: Seq<Vec<T>>)
    ensures
        views(items).len() == items.len(),
        forall|i: int| 0 <= i < items.len() ==> #[trigger] views(items)[i] == items[i]@,
        nested_views(batches).len() == batches.len(),
        forall|k: int|
            0 <= k < batches.len() ==> (#[trigger] nested_views(batches)[k]).len()
                == batches[k]@.len(),
        forall|k: int, i: int|
            0 <= k < batches.len() && 0 <= i < batches[k]@.len() ==> #[trigger] nested_views(
                batches,
            )[k][i] == batches[k]@[i]@,
{
}

/// What batches of messages say is what their messages say, and the encoding of a message is that
/// of its network, its remediation and its expiration.
pub proof fn law_message_batches_say_what_their_messages_say(
    batches: Seq<Vec<BanMessage>>,
    m: message::BanMessageView,
)
    ensures
        batch_views(batches).len() == batches.len(),
        forall|k: int|
            0 <= k < batches.len() ==> (#[trigger] batch_views(batches)[k]).len()
                == batches[k]@.len(),
        forall|k: int, i: int|
            0 <= k < batches.len() && 0 <= i < batches[k]@.len() ==> #[trigger] batch_views(
                batches,
            )[k][i] == batches[k]@[i]@,
        encoding_of(m) == message_encoding(m.ip, m.remediation, m.expiration),
{
}

/// The deliveries go batch by batch, and each batch goes to every queue once for each time that the
/// queue is listed, in the order of the list.
pub proof fn law_deliveries_in_order(n: nat, queues: Seq<u32>, k: nat, j: int)
    requires
        n <= usize::MAX,
        k < n,
        0 <= j < queues.len(),
    ensures
        deliveries(n, queues).len() == n * queues.len(),
        0 <= k * queues.len() + j < deliveries(n, queues).len(),
        deliveries(n, queues)[k * queues.len() + j] == (queues[j], k as usize),
    decreases n,
{
    let w = queues.len();
    let m = (n - 1) as nat;
    let before = deliveries(m, queues);
    assert(n * w == m * w + w) by (nonlinear_arith)
        requires
            n == m + 1,
    ;
    assert(0 <= k * w) by (nonlinear_arith);
    if m == 0 {
        assert(before.len() == 0);
        assert(m * w == 0) by (nonlinear_arith)
            requires
                m == 0,
        ;
        assert(k * w == 0) by (nonlinear_arith)
            requires
                k == 0,
        ;
    } else if k < m {
        law_deliveries_in_order(m, queues, k, j);
    } else {
        law_deliveries_in_order(m, queues, 0, j);
    }
}

} // verus!
