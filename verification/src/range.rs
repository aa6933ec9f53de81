//! Key ranges: which keys a scan over a prefix covers.
use crate::order::{below_at, bytes_lt, lemma_bytes_lt_asymmetric};
use vstd::prelude::*;

verus! {

/// The shortest byte string above every string that starts with `prefix`: `prefix` without its
/// trailing `0xFF` bytes, the last byte left being raised by one. Empty where no byte is left.
pub open spec fn successor(prefix: Seq<u8>) -> Seq<u8>
    decreases prefix.len(),
{
    if prefix.len() == 0 {
        prefix
    } else if prefix.last() == 0xFF {
        successor(prefix.drop_last())
    } else {
        prefix.drop_last().push((prefix.last() + 1) as u8)
    }
}

/// `key` lies in the range from `start` up to but not including `end`; an empty `end` means that
/// the range has no upper bound.
pub open spec fn in_range(key: Seq<u8>, start: Seq<u8>, end: Seq<u8>) -> bool {
    !bytes_lt(key, start) && (end.len() == 0 || bytes_lt(key, end))
}

/// The end of the range of all keys that start with `prefix`.
pub fn prefix_range_end(prefix: &[u8]) -> (end: Vec<u8>)
    ensures
        end@ == successor(prefix@),
{
    let mut end: Vec<u8> = Vec::new();
    let mut copied: usize = 0;
    while copied < prefix.len()
        invariant
            copied <= prefix@.len(),
            end@ =~= prefix@.take(copied as int),
        decreases prefix@.len() - copied,
    {
        end.push(prefix[copied]);
        copied = copied + 1;
    }
    assert(end@ =~= prefix@);
    while end.len() > 0
        invariant
            successor(end@) == successor(prefix@),
        decreases end@.len(),
    {
        let last: usize = end.len() - 1;
        let byte: u8 = end[last];
        let ghost whole = end@;
        end.truncate(last);
        assert(end@ =~= whole.drop_last());
        if byte != 0xFF {
            end.push(byte + 1);
            return end;
        }
    }
    end
}

/// Where the successor of `prefix` comes from: the last byte that is not `0xFF`.
proof fn lemma_successor(prefix: Seq<u8>)
    ensures
        successor(prefix).len() == 0 ==> forall|i: int|
            0 <= i < prefix.len() ==> #[trigger] prefix[i] == 0xFF,
        successor(prefix).len() > 0 ==> {
            let last = successor(prefix).len() - 1;
            &&& last < prefix.len()
            &&& forall|i: int| 0 <= i < last ==> #[trigger] successor(prefix)[i] == prefix[i]
            &&& prefix[last] != 0xFF
            &&& successor(prefix)[last] == prefix[last] + 1
            &&& forall|i: int| last < i < prefix.len() ==> #[trigger] prefix[i] == 0xFF
        },
    decreases prefix.len(),
{
    if prefix.len() > 0 && prefix.last() == 0xFF {
        let less = prefix.drop_last();
        lemma_successor(less);
        assert forall|i: int| 0 <= i < less.len() implies #[trigger] prefix[i] == less[i] by {}
        if successor(prefix).len() > 0 {
            let last = successor(prefix).len() - 1;
            assert forall|i: int| last < i < prefix.len() implies #[trigger] prefix[i] == 0xFF by {
                if i < less.len() {
                    assert(less[i] == 0xFF);
                }
            }
        } else {
            assert forall|i: int| 0 <= i < prefix.len() implies #[trigger] prefix[i] == 0xFF by {
                if i < less.len() {
                    assert(less[i] == 0xFF);
                }
            }
        }
    }
}

/// The first place at which `key` does not continue `prefix`.
proof fn lemma_first_departure(key: Seq<u8>, prefix: Seq<u8>, from: int) -> (at: int)
    requires
        !prefix.is_prefix_of(key),
        0 <= from <= prefix.len(),
        from <= key.len(),
        forall|i: int| 0 <= i < from ==> key[i] == prefix[i],
    ensures
        0 <= at < prefix.len(),
        at <= key.len(),
        forall|i: int| 0 <= i < at ==> key[i] == prefix[i],
        at == key.len() || key[at] != prefix[at],
    decreases prefix.len() - from,
{
    if from == prefix.len() {
        assert(prefix =~= key.subrange(0, prefix.len() as int));
        from
    } else if from == key.len() || key[from] != prefix[from] {
        from
    } else {
        lemma_first_departure(key, prefix, from + 1)
    }
}

/// A scan from `prefix` to [`prefix_range_end`] of it covers the keys that start with `prefix`,
/// all of them and no others, whatever bytes they go on with.
pub proof fn scan_covers_prefix(prefix: Seq<u8>, key: Seq<u8>)
    ensures
        in_range(key, prefix, successor(prefix)) <==> prefix.is_prefix_of(key),
{
    let end = successor(prefix);
    lemma_successor(prefix);
    if prefix.is_prefix_of(key) {
        assert forall|i: int| 0 <= i < prefix.len() implies key[i] == prefix[i] by {
            assert(key.subrange(0, prefix.len() as int)[i] == key[i]);
        }
        assert forall|n: int| !below_at(key, prefix, n) by {}
        if end.len() > 0 {
            assert(below_at(key, end, end.len() - 1));
        }
    } else {
        let m = lemma_first_departure(key, prefix, 0);
        if m == key.len() || key[m] < prefix[m] {
            assert(below_at(key, prefix, m));
        } else {
            assert(prefix[m] != 0xFF);
            if end.len() > 0 {
                let last = end.len() - 1;
                assert(m <= last);
                assert forall|n: int| !below_at(key, end, n) by {
                    if below_at(key, end, n) {
                        if n < m {
                            assert(end[n] == prefix[n]);
                        } else if m < n {
                            assert(key[m] == end[m]);
                        }
                    }
                }
            }
        }
    }
}

/// [`prefix_range_end`] is the lowest bound of a scan over `prefix`: any `bound` above every key
/// that starts with `prefix` is no lower, and there is none where the range end is empty.
pub proof fn range_end_is_lowest_bound(prefix: Seq<u8>, bound: Seq<u8>)
    requires
        forall|key: Seq<u8>| #[trigger] prefix.is_prefix_of(key) ==> bytes_lt(key, bound),
    ensures
        successor(prefix).len() > 0,
        !bytes_lt(bound, successor(prefix)),
{
    assert(prefix.is_prefix_of(prefix)) by {
        assert(prefix =~= prefix.subrange(0, prefix.len() as int));
    }
    lemma_bytes_lt_asymmetric(prefix, bound);
    scan_covers_prefix(prefix, bound);
    if prefix.is_prefix_of(bound) {
        lemma_bytes_lt_asymmetric(bound, bound);
    }
}

} // verus!
