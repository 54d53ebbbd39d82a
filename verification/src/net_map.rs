//! A hash map keyed by IP networks.

use std::collections::HashMap;
use vstd::prelude::*;

use crate::net::IpNet;

verus! {

/// A map from IP networks to values: a hash map from address values to the few networks that are
/// written with that address.
pub struct NetMap<V> {
    buckets: HashMap<u128, Vec<(IpNet, V)>>,
}

/// The value of the address that a network is written with.
pub open spec fn bucket_key(net: IpNet) -> u128 {
    match net {
        IpNet::V4 { addr, prefix_len } => addr as u128,
        IpNet::V6 { addr, prefix_len } => addr,
    }
}

fn key_of(net: &IpNet) -> (r: u128)
    ensures
        r == bucket_key(*net),
{
    match *net {
        IpNet::V4 { addr, .. } => addr as u128,
        IpNet::V6 { addr, .. } => addr,
    }
}

/// The value that a bucket holds for a network.
spec fn lookup<V>(bucket: Seq<(IpNet, V)>, net: IpNet) -> Option<V>
    decreases bucket.len(),
{
    if bucket.len() == 0 {
        None
    } else if bucket.last().0 == net {
        Some(bucket.last().1)
    } else {
        lookup(bucket.drop_last(), net)
    }
}

/// No network occurs twice in the bucket.
spec fn distinct<V>(bucket: Seq<(IpNet, V)>) -> bool {
    forall|i: int, j: int|
        0 <= i < j < bucket.len() ==> (#[trigger] bucket[i]).0 != (#[trigger] bucket[j]).0
}

/// The networks of the bucket are written with the address `k`, there is one at least, and none
/// occurs twice.
spec fn bucket_wf<V>(bucket: Seq<(IpNet, V)>, k: u128) -> bool {
    &&& bucket.len() > 0
    &&& forall|i: int| 0 <= i < bucket.len() ==> bucket_key((#[trigger] bucket[i]).0) == k
    &&& distinct(bucket)
}

proof fn lemma_lookup_at<V>(bucket: Seq<(IpNet, V)>, i: int)
    requires
        distinct(bucket),
        0 <= i < bucket.len(),
    ensures
        lookup(bucket, bucket[i].0) == Some(bucket[i].1),
    decreases bucket.len(),
{
    if i < bucket.len() - 1 {
        let rest = bucket.drop_last();
        assert(forall|j: int| 0 <= j < rest.len() ==> rest[j] == bucket[j]);
        assert(bucket[i].0 != bucket[bucket.len() - 1].0);
        lemma_lookup_at(rest, i);
    }
}

proof fn lemma_lookup_none<V>(bucket: Seq<(IpNet, V)>, net: IpNet)
    ensures
        lookup(bucket, net) is None <==> forall|i: int|
            0 <= i < bucket.len() ==> (#[trigger] bucket[i]).0 != net,
    decreases bucket.len(),
{
    if bucket.len() > 0 {
        let rest = bucket.drop_last();
        lemma_lookup_none(rest, net);
        assert(forall|j: int| 0 <= j < rest.len() ==> rest[j] == bucket[j]);
        if lookup(bucket, net) is Some && bucket.last().0 != net {
            let j = choose|j: int| 0 <= j < rest.len() && (#[trigger] rest[j]).0 == net;
            assert(bucket[j].0 == net);
        }
    }
}

/// The bucket without its entry `i` holds the same values for all other networks.
proof fn lemma_lookup_removed<V>(bucket: Seq<(IpNet, V)>, i: int)
    requires
        distinct(bucket),
        0 <= i < bucket.len(),
    ensures
        distinct(bucket.remove(i)),
        lookup(bucket.remove(i), bucket[i].0) is None,
        forall|net: IpNet|
            net != bucket[i].0 ==> #[trigger] lookup(bucket.remove(i), net) == lookup(bucket, net),
{
    let rest = bucket.remove(i);
    assert forall|j: int, k: int| 0 <= j < k < rest.len() implies (#[trigger] rest[j]).0
        != (#[trigger] rest[k]).0 by {
        let j0 = if j < i { j } else { j + 1 };
        let k0 = if k < i { k } else { k + 1 };
        assert(rest[j] == bucket[j0] && rest[k] == bucket[k0]);
    }
    lemma_lookup_none(rest, bucket[i].0);
    assert forall|j: int| 0 <= j < rest.len() implies (#[trigger] rest[j]).0 != bucket[i].0 by {
        let j0 = if j < i { j } else { j + 1 };
        assert(rest[j] == bucket[j0]);
    }
    assert forall|net: IpNet| net != bucket[i].0 implies #[trigger] lookup(rest, net) == lookup(
        bucket,
        net,
    ) by {
        lemma_lookup_none(rest, net);
        lemma_lookup_none(bucket, net);
        if lookup(bucket, net) is Some {
            let j = choose|j: int| 0 <= j < bucket.len() && (#[trigger] bucket[j]).0 == net;
            let j1 = if j < i { j } else { j - 1 };
            assert(rest[j1] == bucket[j]);
            lemma_lookup_at(bucket, j);
            lemma_lookup_at(rest, j1);
        } else if lookup(rest, net) is Some {
            let j = choose|j: int| 0 <= j < rest.len() && (#[trigger] rest[j]).0 == net;
            let j0 = if j < i { j } else { j + 1 };
            assert(bucket[j0] == rest[j]);
        }
    }
}

fn position<V>(bucket: &Vec<(IpNet, V)>, net: &IpNet) -> (r: Option<usize>)
    ensures
        r matches Some(i) ==> i < bucket@.len() && bucket@[i as int].0 == *net,
        r is None ==> forall|i: int| 0 <= i < bucket@.len() ==> (#[trigger] bucket@[i]).0 != *net,
{
    for i in 0..bucket.len()
        invariant
            forall|j: int| 0 <= j < i ==> (#[trigger] bucket@[j]).0 != *net,
    {
        if bucket[i].0 == *net {
            return Some(i);
        }
    }
    None
}

impl<V> View for NetMap<V> {
    type V = Map<IpNet, V>;

    closed spec fn view(&self) -> Map<IpNet, V> {
        Map::new(
            |net: IpNet|
                self.buckets@.contains_key(bucket_key(net)) && lookup(
                    self.buckets@[bucket_key(net)]@,
                    net,
                ) is Some,
            |net: IpNet| lookup(self.buckets@[bucket_key(net)]@, net)->0,
        )
    }
}

impl<V> NetMap<V> {
    /// Every network is in the bucket of its address, once; no bucket is empty.
    pub closed spec fn wf(&self) -> bool {
        forall|k: u128| #[trigger]
            self.buckets@.contains_key(k) ==> bucket_wf(self.buckets@[k]@, k)
    }

    /// An empty map.
    pub fn new() -> (r: NetMap<V>)
        ensures
            r.wf(),
            r@ == Map::<IpNet, V>::empty(),
    {
        let r: NetMap<V> = NetMap { buckets: HashMap::new() };
        assert(r@ =~= Map::<IpNet, V>::empty());
        r
    }

    /// Whether the map holds nothing.
    pub fn is_empty(&self) -> (r: bool)
        requires
            self.wf(),
        ensures
            r == (self@ == Map::<IpNet, V>::empty()),
    {
        let r: bool = self.buckets.is_empty();
        proof {
            if r {
                assert(self@ =~= Map::<IpNet, V>::empty());
            } else {
                let k = choose|k: u128| self.buckets@.contains_key(k);
                if forall|k: u128| !self.buckets@.contains_key(k) {
                    assert(self.buckets@ =~= Map::<u128, Vec<(IpNet, V)>>::empty());
                }
                let bucket = self.buckets@[k]@;
                lemma_lookup_at(bucket, 0);
                assert(self@.contains_key(bucket[0].0));
            }
        }
        r
    }

    /// Removes everything.
    pub fn clear(&mut self)
        ensures
            final(self).wf(),
            final(self)@ == Map::<IpNet, V>::empty(),
    {
        self.buckets.clear();
        assert(self@ =~= Map::<IpNet, V>::empty());
    }

    /// The value of a network.
    pub fn get(&self, net: &IpNet) -> (r: Option<&V>)
        requires
            self.wf(),
        ensures
            r is Some <==> self@.contains_key(*net),
            r matches Some(v) ==> *v == self@[*net],
    {
        match self.buckets.get(&key_of(net)) {
            Some(bucket) => {
                proof {
                    lemma_lookup_none(bucket@, *net);
                }
                match position(bucket, net) {
                    Some(i) => {
                        proof {
                            lemma_lookup_at(bucket@, i as int);
                        }
                        Some(&bucket[i].1)
                    },
                    None => None,
                }
            },
            None => None,
        }
    }

    /// Whether the map holds a value for the network.
    pub fn contains_key(&self, net: &IpNet) -> (r: bool)
        requires
            self.wf(),
        ensures
            r == self@.contains_key(*net),
    {
        self.get(net).is_some()
    }

    /// Takes the value of a network out of the map.
    pub fn remove(&mut self, net: &IpNet) -> (r: Option<V>)
        requires
            old(self).wf(),
        ensures
            final(self).wf(),
            final(self)@ == old(self)@.remove(*net),
            r is Some <==> old(self)@.contains_key(*net),
            r matches Some(v) ==> v == old(self)@[*net],
    {
        let key: u128 = key_of(net);
        match self.buckets.remove(&key) {
            None => {
                assert(self@ =~= old(self)@.remove(*net));
                None
            },
            Some(mut bucket) => {
                let ghost before = bucket@;
                proof {
                    lemma_lookup_none(before, *net);
                }
                match position(&bucket, net) {
                    None => {
                        self.buckets.insert(key, bucket);
                        assert(self.buckets@ =~= old(self).buckets@);
                        assert(self@ =~= old(self)@.remove(*net));
                        None
                    },
                    Some(i) => {
                        let entry: (IpNet, V) = bucket.remove(i);
                        proof {
                            lemma_lookup_at(before, i as int);
                            lemma_lookup_removed(before, i as int);
                            assert forall|j: int| 0 <= j < bucket@.len() implies bucket_key(
                                (#[trigger] bucket@[j]).0,
                            ) == key by {
                                let j0 = if j < i { j } else { j + 1 };
                                assert(bucket@[j] == before[j0]);
                            }
                        }
                        let ghost rest = bucket@;
                        if bucket.len() > 0 {
                            self.buckets.insert(key, bucket);
                        }
                        proof {
                            let after = self.buckets@;
                            assert forall|n: IpNet| #[trigger] self@.contains_key(n)
                                == old(self)@.remove(*net).contains_key(n) && (self@.contains_key(
                                n,
                            ) ==> self@[n] == old(self)@[n]) by {
                                if bucket_key(n) == key {
                                    if n != *net {
                                        assert(lookup(rest, n) == lookup(before, n));
                                    }
                                }
                            }
                            assert(self@ =~= old(self)@.remove(*net));
                        }
                        Some(entry.1)
                    },
                }
            },
        }
    }

    /// Sets the value of a network.
    pub fn insert(&mut self, net: IpNet, value: V)
        requires
            old(self).wf(),
        ensures
            final(self).wf(),
            final(self)@ == old(self)@.insert(net, value),
    {
        self.remove(&net);
        let ghost cleared = *self;
        let key: u128 = key_of(&net);
        assert(!cleared@.contains_key(net));
        let mut bucket: Vec<(IpNet, V)> = match self.buckets.remove(&key) {
            Some(b) => b,
            None => Vec::new(),
        };
        let ghost before = bucket@;
        assert(lookup(before, net) is None);
        proof {
            lemma_lookup_none(before, net);
        }
        bucket.push((net, value));
        let ghost now = bucket@;
        proof {
            assert(now.drop_last() =~= before);
            assert forall|i: int| 0 <= i < now.len() implies bucket_key((#[trigger] now[i]).0)
                == key by {
                if i < before.len() {
                    assert(now[i] == before[i]);
                }
            }
            assert forall|i: int, j: int| 0 <= i < j < now.len() implies (#[trigger] now[i]).0
                != (#[trigger] now[j]).0 by {
                assert(now[i] == before[i]);
                if j < before.len() {
                    assert(now[j] == before[j]);
                }
            }
        }
        self.buckets.insert(key, bucket);
        proof {
            let want = old(self)@.insert(net, value);
            assert forall|n: IpNet| #[trigger] self@.contains_key(n) == want.contains_key(n) && (
            self@.contains_key(n) ==> self@[n] == want[n]) by {
                if n != net {
                    assert(cleared@.contains_key(n) == old(self)@.contains_key(n));
                    assert(cleared@.contains_key(n) ==> cleared@[n] == old(self)@[n]);
                    if bucket_key(n) == key {
                        assert(lookup(now, n) == lookup(before, n));
                    }
                }
            }
            assert(self@ =~= want);
        }
    }
}

} // verus!
