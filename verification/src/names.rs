//! Lists of service names: sorted, each name once.
use crate::order::{
    lemma_bytes_lt_asymmetric, lemma_bytes_lt_transitive, relate, text_lt, Relation,
};
use vstd::prelude::*;
use vstd::utf8::encode_utf8;

verus! {

/// The texts that a list of strings holds.
pub open spec fn texts(strings: Seq<String>) -> Seq<Seq<char>> {
    strings.map_values(|s: String| s@)
}

/// Each text comes before every later one; so none occurs twice.
pub open spec fn ascending(names: Seq<Seq<char>>) -> bool {
    forall|i: int, j: int|
        0 <= i < j < names.len() ==> #[trigger] text_lt(names[i], names[j])
}

/// The names of `names`, sorted, without repetition.
pub fn sorted_distinct(names: Vec<String>) -> (out: Vec<String>)
    ensures
        ascending(texts(out@)),
        texts(out@).to_set() == texts(names@).to_set(),
{
    let mut out: Vec<String> = Vec::new();
    let mut next: usize = 0;
    proof {
        assert(texts(out@).to_set() =~= texts(names@).take(0).to_set());
    }
    while next < names.len()
        invariant
            next <= names@.len(),
            ascending(texts(out@)),
            texts(out@).to_set() == texts(names@).take(next as int).to_set(),
        decreases names@.len() - next,
    {
        insert_distinct(&mut out, &names[next]);
        proof {
            lemma_take_one_more(texts(names@), next as int);
        }
        next = next + 1;
    }
    proof {
        assert(texts(names@).take(next as int) =~= texts(names@));
    }
    out
}

proof fn lemma_take_one_more(s: Seq<Seq<char>>, n: int)
    requires
        0 <= n < s.len(),
    ensures
        s.take(n + 1).to_set() == s.take(n).to_set().insert(s[n]),
{
    let a = s.take(n + 1);
    let b = s.take(n);
    assert forall|x: Seq<char>| a.to_set().contains(x) <==> b.to_set().insert(s[n]).contains(x) by {
        if a.contains(x) {
            let i = choose|i: int| 0 <= i < a.len() && a[i] == x;
            if i < n {
                assert(b[i] == x);
            }
        }
        if b.contains(x) {
            let i = choose|i: int| 0 <= i < b.len() && b[i] == x;
            assert(a[i] == x);
        }
        assert(a[n] == s[n]);
    }
    assert(a.to_set() =~= b.to_set().insert(s[n]));
}

proof fn lemma_insert_to_set(s: Seq<Seq<char>>, at: int, x: Seq<char>)
    requires
        0 <= at <= s.len(),
    ensures
        s.insert(at, x).to_set() == s.to_set().insert(x),
{
    let t = s.insert(at, x);
    assert forall|y: Seq<char>| t.to_set().contains(y) <==> s.to_set().insert(x).contains(y) by {
        if t.contains(y) {
            let i = choose|i: int| 0 <= i < t.len() && t[i] == y;
            if i < at {
                assert(s[i] == y);
            } else if i > at {
                assert(s[i - 1] == y);
            }
        }
        if s.contains(y) {
            let i = choose|i: int| 0 <= i < s.len() && s[i] == y;
            if i < at {
                assert(t[i] == y);
            } else {
                assert(t[i + 1] == y);
            }
        }
        assert(t[at] == x);
    }
    assert(t.to_set() =~= s.to_set().insert(x));
}

/// Puts `name` into the ascending list `names`, unless it is there.
fn insert_distinct(names: &mut Vec<String>, name: &String)
    requires
        ascending(texts(old(names)@)),
    ensures
        ascending(texts(final(names)@)),
        texts(final(names)@).to_set() == texts(old(names)@).to_set().insert(name@),
{
    let ghost before = texts(names@);
    let mut at: usize = 0;
    while at < names.len()
        invariant
            at <= names@.len(),
            names@ == old(names)@,
            before == texts(names@),
            ascending(before),
            forall|i: int| 0 <= i < at ==> text_lt(before[i], name@),
        decreases names@.len() - at,
    {
        assert(before[at as int] == names@[at as int]@);
        match relate(&names[at], name) {
            Relation::Before => {
                at = at + 1;
            },
            Relation::Same => {
                proof {
                    assert(before.contains(name@));
                    assert(before.to_set() =~= before.to_set().insert(name@));
                }
                return;
            },
            Relation::After => {
                proof {
                    lemma_insert_ascending(before, at as int, name@);
                    lemma_insert_to_set(before, at as int, name@);
                }
                names.insert(at, name.clone());
                proof {
                    assert(texts(names@) =~= before.insert(at as int, name@));
                }
                return;
            },
        }
    }
    proof {
        lemma_insert_ascending(before, at as int, name@);
        lemma_insert_to_set(before, at as int, name@);
    }
    names.insert(at, name.clone());
    proof {
        assert(texts(names@) =~= before.insert(at as int, name@));
    }
}

proof fn lemma_insert_ascending(s: Seq<Seq<char>>, at: int, x: Seq<char>)
    requires
        0 <= at <= s.len(),
        ascending(s),
        forall|i: int| 0 <= i < at ==> text_lt(s[i], x),
        at < s.len() ==> text_lt(x, s[at]),
    ensures
        ascending(s.insert(at, x)),
{
    let t = s.insert(at, x);
    assert forall|i: int, j: int| 0 <= i < j < t.len() implies #[trigger] text_lt(t[i], t[j]) by {
        if i == at {
            if j - 1 > at {
                assert(text_lt(s[at], s[j - 1]));
                lemma_bytes_lt_transitive(
                    encode_utf8(x),
                    encode_utf8(s[at]),
                    encode_utf8(s[j - 1]),
                );
            }
        } else if j != at {
            let p = if i < at { i } else { i - 1 };
            let q = if j < at { j } else { j - 1 };
            assert(text_lt(s[p], s[q]));
        }
    }
}

/// A sorted list without repetition is fixed by the names that it holds.
pub proof fn ascending_list_is_unique(a: Seq<Seq<char>>, b: Seq<Seq<char>>)
    requires
        ascending(a),
        ascending(b),
        a.to_set() == b.to_set(),
    ensures
        a == b,
    decreases a.len(),
{
    if a.len() == 0 || b.len() == 0 {
        if a.len() > 0 {
            assert(a.to_set().contains(a[0]));
            assert(b.contains(a[0]));
        }
        if b.len() > 0 {
            assert(b.to_set().contains(b[0]));
            assert(a.contains(b[0]));
        }
        assert(a =~= b);
    } else {
        lemma_last_is_bound(a, b);
        lemma_last_is_bound(b, a);
        if a.last() != b.last() {
            lemma_bytes_lt_asymmetric(encode_utf8(a.last()), encode_utf8(b.last()));
        }
        let less_a = a.drop_last();
        let less_b = b.drop_last();
        lemma_drop_last_to_set(a);
        lemma_drop_last_to_set(b);
        assert forall|i: int, j: int| 0 <= i < j < less_a.len() implies #[trigger] text_lt(
            less_a[i],
            less_a[j],
        ) by {
            assert(text_lt(a[i], a[j]));
        }
        assert forall|i: int, j: int| 0 <= i < j < less_b.len() implies #[trigger] text_lt(
            less_b[i],
            less_b[j],
        ) by {
            assert(text_lt(b[i], b[j]));
        }
        ascending_list_is_unique(less_a, less_b);
        assert(a =~= less_a.push(a.last()));
        assert(b =~= less_b.push(b.last()));
    }
}

proof fn lemma_last_is_bound(a: Seq<Seq<char>>, b: Seq<Seq<char>>)
    requires
        ascending(b),
        a.to_set() == b.to_set(),
        a.len() > 0,
        b.len() > 0,
    ensures
        a.last() == b.last() || text_lt(a.last(), b.last()),
{
    assert(a.to_set().contains(a[a.len() - 1]));
    let i = choose|i: int| 0 <= i < b.len() && b[i] == a.last();
    if i < b.len() - 1 {
        assert(text_lt(b[i], b[b.len() - 1]));
    }
}

proof fn lemma_drop_last_to_set(s: Seq<Seq<char>>)
    requires
        ascending(s),
        s.len() > 0,
    ensures
        s.drop_last().to_set() == s.to_set().remove(s.last()),
{
    let less = s.drop_last();
    assert forall|x: Seq<char>| less.to_set().contains(x) <==> s.to_set().remove(
        s.last(),
    ).contains(x) by {
        if less.contains(x) {
            let i = choose|i: int| 0 <= i < less.len() && less[i] == x;
            assert(s[i] == x);
            assert(text_lt(s[i], s[s.len() - 1]));
            if x == s.last() {
                lemma_bytes_lt_asymmetric(encode_utf8(x), encode_utf8(x));
            }
        }
        if s.contains(x) && x != s.last() {
            let i = choose|i: int| 0 <= i < s.len() && s[i] == x;
            assert(less[i] == x);
        }
    }
    assert(less.to_set() =~= s.to_set().remove(s.last()));
}

} // verus!
