//! Expiration times and the priority queue that finds the next one to come.

use vstd::multiset::Multiset;
use vstd::prelude::*;

use crate::net::IpNet;
use crate::text;

verus! {

/// A ban that ends: the time of its end, in seconds since the Unix epoch, and its network.
#[derive(Clone, Copy, Debug)]
pub struct ExpirationEntry {
    pub expiration: u64,
    pub ip: IpNet,
}

/// Entries compare by their expiration alone.
impl PartialEq for ExpirationEntry {
    fn eq(&self, other: &Self) -> (r: bool) {
        self.expiration == other.expiration
    }
}

impl vstd::std_specs::cmp::PartialEqSpecImpl for ExpirationEntry {
    open spec fn obeys_eq_spec() -> bool {
        true
    }

    open spec fn eq_spec(&self, other: &Self) -> bool {
        self.expiration == other.expiration
    }
}

impl Eq for ExpirationEntry {

}

/// The entry that expires earlier is the smaller one.
impl PartialOrd for ExpirationEntry {
    fn partial_cmp(&self, other: &Self) -> (r: Option<core::cmp::Ordering>) {
        if self.expiration < other.expiration {
            Some(core::cmp::Ordering::Less)
        } else if self.expiration == other.expiration {
            Some(core::cmp::Ordering::Equal)
        } else {
            Some(core::cmp::Ordering::Greater)
        }
    }
}

impl vstd::std_specs::cmp::PartialOrdSpecImpl for ExpirationEntry {
    open spec fn obeys_partial_cmp_spec() -> bool {
        true
    }

    open spec fn partial_cmp_spec(&self, other: &Self) -> Option<core::cmp::Ordering> {
        if self.expiration < other.expiration {
            Some(core::cmp::Ordering::Less)
        } else if self.expiration == other.expiration {
            Some(core::cmp::Ordering::Equal)
        } else {
            Some(core::cmp::Ordering::Greater)
        }
    }
}

/// A priority queue of expiration entries: a binary heap with the earliest expiration on top.
pub struct ExpirationQueue {
    items: Vec<ExpirationEntry>,
}

spec fn parent(i: int) -> int {
    (i - 1) / 2
}

/// `items[j]` does not expire before its parent.
spec fn in_order(items: Seq<ExpirationEntry>, j: int) -> bool {
    items[parent(j)].expiration <= items[j].expiration
}

/// `items[j]` does not expire before the parent of its parent.
spec fn in_order_above(items: Seq<ExpirationEntry>, j: int) -> bool {
    parent(j) > 0 ==> items[parent(parent(j))].expiration <= items[j].expiration
}

/// No entry expires before its parent.
spec fn is_heap(items: Seq<ExpirationEntry>) -> bool {
    forall|j: int| 0 < j < items.len() ==> #[trigger] in_order(items, j)
}

/// A heap but for `items[i]`, which may expire before its parent.
spec fn heap_below(items: Seq<ExpirationEntry>, i: int) -> bool {
    &&& forall|j: int| 0 < j < items.len() && j != i ==> #[trigger] in_order(items, j)
    &&& forall|j: int|
        0 < j < items.len() && parent(j) == i ==> #[trigger] in_order_above(items, j)
}

/// A heap but for `items[i]`, whose children may expire before it.
spec fn heap_above(items: Seq<ExpirationEntry>, i: int) -> bool {
    &&& forall|j: int| 0 < j < items.len() && parent(j) != i ==> #[trigger] in_order(items, j)
    &&& forall|j: int|
        0 < j < items.len() && parent(j) == i ==> #[trigger] in_order_above(items, j)
}

proof fn lemma_top_is_earliest(items: Seq<ExpirationEntry>, i: int)
    requires
        is_heap(items),
        0 <= i < items.len(),
    ensures
        items[0].expiration <= items[i].expiration,
    decreases i,
{
    if i > 0 {
        assert(in_order(items, i));
        lemma_top_is_earliest(items, parent(i));
    }
}

/// Swapping a child with its parent moves the broken place of a heap one level up.
proof fn lemma_swap_up(before: Seq<ExpirationEntry>, i: int)
    requires
        0 < i < before.len(),
        heap_below(before, i),
        before[i].expiration <= before[parent(i)].expiration,
    ensures
        heap_below(before.update(parent(i), before[i]).update(i, before[parent(i)]), parent(i)),
{
    let p = parent(i);
    let now = before.update(p, before[i]).update(i, before[p]);
    assert forall|j: int| 0 < j < now.len() && j != p implies #[trigger] in_order(now, j) by {
        if j != i {
            assert(in_order(before, j));
            if parent(j) == i {
                assert(in_order_above(before, j));
            }
        }
    }
    assert forall|j: int| 0 < j < now.len() && parent(j) == p implies #[trigger] in_order_above(
        now,
        j,
    ) by {
        if p > 0 {
            assert(in_order(before, p));
            if j != i {
                assert(in_order(before, j));
            }
        }
    }
}

/// Swapping an entry with its earlier child moves the broken place of a heap one level down.
proof fn lemma_swap_down(before: Seq<ExpirationEntry>, i: int, child: int)
    requires
        0 <= i < before.len(),
        0 < child < before.len(),
        parent(child) == i,
        heap_above(before, i),
        before[child].expiration <= before[i].expiration,
        forall|j: int|
            0 < j < before.len() && #[trigger] parent(j) == i ==> before[child].expiration
                <= before[j].expiration,
    ensures
        heap_above(before.update(i, before[child]).update(child, before[i]), child),
{
    let now = before.update(i, before[child]).update(child, before[i]);
    assert forall|j: int| 0 < j < now.len() && parent(j) != child implies #[trigger] in_order(
        now,
        j,
    ) by {
        if parent(j) == i {
            if j != child {
                assert(now[j] == before[j]);
            }
        } else if j == i {
            assert(in_order_above(before, child));
        } else {
            assert(in_order(before, j));
        }
    }
    assert forall|j: int| 0 < j < now.len() && parent(j) == child implies #[trigger] in_order_above(
        now,
        j,
    ) by {
        assert(in_order(before, j));
    }
}

proof fn lemma_update_multiset(s: Seq<ExpirationEntry>, i: int, v: ExpirationEntry)
    requires
        0 <= i < s.len(),
    ensures
        s.update(i, v).to_multiset() == s.to_multiset().remove(s[i]).insert(v),
{
    let removed = s.remove(i);
    assert(removed.insert(i, v) =~= s.update(i, v));
    vstd::seq_lib::to_multiset_remove(s, i);
    vstd::seq_lib::to_multiset_insert(removed, i, v);
}

proof fn lemma_swap_multiset(s: Seq<ExpirationEntry>, i: int, j: int)
    requires
        0 <= i < s.len(),
        0 <= j < s.len(),
        i != j,
    ensures
        s.update(i, s[j]).update(j, s[i]).to_multiset() == s.to_multiset(),
{
    let t = s.update(i, s[j]);
    lemma_update_multiset(s, i, s[j]);
    lemma_update_multiset(t, j, s[i]);
    assert(t[j] == s[j]);
    s.to_multiset_ensures();
    assert(s.contains(s[i]));
    let m = s.to_multiset();
    assert(m.count(s[i]) > 0);
    assert(m.remove(s[i]).insert(s[j]).remove(s[j]).insert(s[i]) =~= m);
}

/// Restores the heap where only the top entry may be out of order.
fn sift_down(items: &mut Vec<ExpirationEntry>)
    requires
        heap_above(old(items)@, 0),
    ensures
        is_heap(final(items)@),
        final(items)@.to_multiset() == old(items)@.to_multiset(),
{
    let n: usize = items.len();
    let mut i: usize = 0;
    while i < n / 2
        invariant
            items@.len() == n,
            n > 0 ==> i < n,
            heap_above(items@, i as int),
            items@.to_multiset() == old(items)@.to_multiset(),
        ensures
            is_heap(items@),
            items@.to_multiset() == old(items)@.to_multiset(),
        decreases n - i,
    {
        let left: usize = 2 * i + 1;
        let child: usize = if left + 1 < n && items[left + 1].expiration < items[left].expiration {
            left + 1
        } else {
            left
        };
        let ghost before = items@;
        let ghost earliest = before[child as int].expiration;
        assert forall|j: int| 0 < j < n && #[trigger] parent(j) == i implies earliest
            <= before[j].expiration by {
            assert(j == left || j == left + 1);
        }
        assert(parent(child as int) == i);
        if items[i].expiration <= items[child].expiration {
            assert forall|j: int| 0 < j < n implies #[trigger] in_order(items@, j) by {
                if parent(j) == i {
                    assert(before[child as int].expiration <= before[j].expiration);
                }
            }
            break;
        }
        let upper: ExpirationEntry = items[i];
        let lower: ExpirationEntry = items[child];
        items[i] = lower;
        items[child] = upper;
        proof {
            lemma_swap_multiset(before, i as int, child as int);
            lemma_swap_down(before, i as int, child as int);
        }
        i = child;
    }
}

impl View for ExpirationQueue {
    type V = Multiset<ExpirationEntry>;

    closed spec fn view(&self) -> Multiset<ExpirationEntry> {
        self.items@.to_multiset()
    }
}

impl ExpirationQueue {
    /// The entries form a heap.
    pub closed spec fn wf(&self) -> bool {
        is_heap(self.items@)
    }

    /// The entry that comes out of the queue next, where there is any.
    pub closed spec fn top(&self) -> ExpirationEntry {
        self.items@[0]
    }

    /// An empty queue.
    pub fn new() -> (r: ExpirationQueue)
        ensures
            r.wf(),
            r@ == Multiset::<ExpirationEntry>::empty(),
    {
        let r: ExpirationQueue = ExpirationQueue { items: Vec::new() };
        proof {
            r.items@.to_multiset_ensures();
            assert(r@ =~= Multiset::<ExpirationEntry>::empty());
        }
        r
    }

    /// The entry that expires first, if there is any.
    pub fn peek(&self) -> (r: Option<ExpirationEntry>)
        requires
            self.wf(),
        ensures
            r is None <==> self@ == Multiset::<ExpirationEntry>::empty(),
            r matches Some(e) ==> e == self.top(),
            r matches Some(e) ==> self@.contains(e) && forall|f: ExpirationEntry| #[trigger]
                self@.contains(f) ==> e.expiration <= f.expiration,
    {
        proof {
            self.items@.to_multiset_ensures();
        }
        if self.items.len() == 0 {
            assert(self@ =~= Multiset::<ExpirationEntry>::empty());
            None
        } else {
            proof {
                assert(self.items@.contains(self.items@[0]));
                let first = self.items@[0].expiration;
                assert forall|f: ExpirationEntry| #[trigger] self@.contains(f) implies first
                    <= f.expiration by {
                    assert(self.items@.contains(f));
                    let i = choose|i: int| 0 <= i < self.items@.len() && self.items@[i] == f;
                    lemma_top_is_earliest(self.items@, i);
                }
            }
            Some(self.items[0])
        }
    }

    /// Adds an entry.
    pub fn push(&mut self, entry: ExpirationEntry)
        requires
            old(self).wf(),
        ensures
            final(self).wf(),
            final(self)@ == old(self)@.insert(entry),
    {
        self.items.push(entry);
        assert forall|j: int| 0 < j < old(self).items@.len() implies #[trigger] in_order(
            self.items@,
            j,
        ) by {
            assert(in_order(old(self).items@, j));
        }
        proof {
            vstd::seq_lib::to_multiset_build(old(self).items@, entry);
        }
        let ghost all = self.items@.to_multiset();
        let mut i: usize = self.items.len() - 1;
        while i > 0
            invariant
                i < self.items@.len(),
                heap_below(self.items@, i as int),
                self.items@.to_multiset() == all,
            ensures
                is_heap(self.items@),
                self.items@.to_multiset() == all,
            decreases i,
        {
            let p: usize = (i - 1) / 2;
            assert(p == parent(i as int));
            if self.items[p].expiration <= self.items[i].expiration {
                assert(in_order(self.items@, i as int));
                break;
            }
            let ghost before = self.items@;
            let upper: ExpirationEntry = self.items[p];
            let lower: ExpirationEntry = self.items[i];
            self.items[p] = lower;
            self.items[i] = upper;
            proof {
                lemma_swap_multiset(before, p as int, i as int);
                lemma_swap_up(before, i as int);
            }
            i = p;
        }
    }

    /// Takes out the entry that expires first, if there is any.
    pub fn pop(&mut self) -> (r: Option<ExpirationEntry>)
        requires
            old(self).wf(),
        ensures
            final(self).wf(),
            r is None <==> old(self)@ == Multiset::<ExpirationEntry>::empty(),
            r is None ==> final(self)@ == old(self)@,
            r matches Some(e) ==> e == old(self).top(),
            r matches Some(e) ==> old(self)@.contains(e) && final(self)@ == old(self)@.remove(e),
            r matches Some(e) ==> forall|f: ExpirationEntry| #[trigger]
                old(self)@.contains(f) ==> e.expiration <= f.expiration,
    {
        let ghost all = self.items@;
        proof {
            all.to_multiset_ensures();
        }
        if self.items.len() == 0 {
            assert(self@ =~= Multiset::<ExpirationEntry>::empty());
            return None;
        }
        let top: ExpirationEntry = self.items[0];
        let n: usize = self.items.len() - 1;
        let last: ExpirationEntry = self.items[n];
        assert(all.contains(all[0]));
        assert(all.contains(last));
        assert(old(self)@ != Multiset::<ExpirationEntry>::empty());
        assert forall|f: ExpirationEntry| #[trigger] old(self)@.contains(f) implies top.expiration
            <= f.expiration by {
            assert(all.contains(f));
            let i = choose|i: int| 0 <= i < all.len() && all[i] == f;
            lemma_top_is_earliest(all, i);
        }
        self.items[0] = last;
        let ghost moved = self.items@;
        self.items.pop();
        proof {
            lemma_update_multiset(all, 0, last);
            vstd::seq_lib::to_multiset_remove(moved, n as int);
            assert(self.items@ =~= moved.remove(n as int));
            assert(self.items@.to_multiset() =~= all.to_multiset().remove(top));
            let now = self.items@;
            assert forall|j: int| 0 < j < now.len() && parent(j) != 0 implies #[trigger] in_order(
                now,
                j,
            ) by {
                assert(in_order(all, j));
            }
        }
        sift_down(&mut self.items);
        Some(top)
    }
}

/// The Unix time that an RFC 3339 text gives, as `chrono::DateTime` reads it.
pub uninterp spec fn timestamp_of_rfc3339(s: Seq<char>) -> Option<i64>;

/// `chrono::DateTime::parse_from_rfc3339` and `timestamp` of what it read: the Unix time of a text
/// such as `2023-12-31T23:59:59Z`. Which texts give a time, and which one, is left to the name
/// `timestamp_of_rfc3339`.
#[verifier::external_body]
fn rfc3339_timestamp(s: &str) -> (r: Option<i64>)
    ensures
        r == timestamp_of_rfc3339(s@),
{
    chrono::DateTime::parse_from_rfc3339(s).ok().map(|d| d.timestamp())
}

/// The expiration out of the Unix times that a text gives as an RFC 3339 time and as a number. The
/// first counts where there is one. A time before the epoch is no expiration.
pub open spec fn chosen_expiration(rfc3339: Option<i64>, unix: Option<i64>) -> Option<u64> {
    match (rfc3339, unix) {
        (Some(t), _) => if t >= 0 {
            Some(t as u64)
        } else {
            None
        },
        (None, Some(t)) => if t >= 0 {
            Some(t as u64)
        } else {
            None
        },
        (None, None) => None,
    }
}

/// The expiration that a text gives, in seconds since the Unix epoch: an RFC 3339 time or a Unix
/// time in decimal digits. An empty text gives none.
pub open spec fn expiration_of_text(s: Seq<char>) -> Option<u64> {
    if s.len() == 0 {
        None
    } else {
        chosen_expiration(timestamp_of_rfc3339(s), text::i64_of_text(s))
    }
}

/// The expiration out of the Unix times that a text gives as an RFC 3339 time and as a number.
pub fn choose_expiration(rfc3339: Option<i64>, unix: Option<i64>) -> (r: Option<u64>)
    ensures
        r == chosen_expiration(rfc3339, unix),
{
    let t: i64 = match rfc3339 {
        Some(t) => t,
        None => match unix {
            Some(t) => t,
            None => {
                return None;
            },
        },
    };
    if t >= 0 {
        Some(t as u64)
    } else {
        None
    }
}

/// Reads an expiration, in seconds since the Unix epoch.
pub fn parse_expiration(expiration_str: &str) -> (r: Option<u64>)
    ensures
        r == expiration_of_text(expiration_str@),
{
    if expiration_str.is_empty() {
        return None;
    }
    choose_expiration(rfc3339_timestamp(expiration_str), text::parse_i64(expiration_str))
}

/// A text that is an RFC 3339 time ends a ban at that time, and one that is not, but is a number,
/// at that number of seconds since the epoch. A time before the epoch ends no ban, nor does a text
/// that is neither, nor an empty one.
pub proof fn law_expiration_of_text(s: Seq<char>)
    ensures
        s.len() == 0 ==> expiration_of_text(s) is None,
        s.len() > 0 ==> (timestamp_of_rfc3339(s) matches Some(t) ==> (t >= 0 ==> expiration_of_text(
            s,
        ) == Some(t as u64)) && (t < 0 ==> expiration_of_text(s) is None)),
        s.len() > 0 && timestamp_of_rfc3339(s) is None ==> (text::i64_of_text(s) matches Some(t)
            ==> (t >= 0 ==> expiration_of_text(s) == Some(t as u64)) && (t < 0
            ==> expiration_of_text(s) is None)),
        timestamp_of_rfc3339(s) is None && text::i64_of_text(s) is None ==> expiration_of_text(
            s,
        ) is None,
{
}

/// The expiration is the first of the two times that is there, where it is not before the epoch.
pub proof fn law_expiration_is_the_first_time(t: i64, unix: Option<i64>)
    ensures
        chosen_expiration(Some(t), unix) == chosen_expiration(None, Some(t)),
        t >= 0 ==> chosen_expiration(Some(t), unix) == Some(t as u64),
        t < 0 ==> chosen_expiration(Some(t), unix) is None,
        chosen_expiration(None, None) is None,
{
}

/// Of two entries the one that ends earlier is the smaller, whatever their networks, and entries
/// that end together are equal.
pub proof fn law_entries_compare_by_time(a: ExpirationEntry, b: ExpirationEntry)
    ensures
        vstd::std_specs::cmp::PartialEqSpec::eq_spec(&a, &b) <==> a.expiration == b.expiration,
        a.expiration < b.expiration ==> vstd::std_specs::cmp::PartialOrdSpec::partial_cmp_spec(
            &a,
            &b,
        ) == Some(core::cmp::Ordering::Less),
        a.expiration == b.expiration ==> vstd::std_specs::cmp::PartialOrdSpec::partial_cmp_spec(
            &a,
            &b,
        ) == Some(core::cmp::Ordering::Equal),
        a.expiration > b.expiration ==> vstd::std_specs::cmp::PartialOrdSpec::partial_cmp_spec(
            &a,
            &b,
        ) == Some(core::cmp::Ordering::Greater),
{
}

} // verus!
