//! What the requests to etcd do to its store, and what they find in it.
use crate::codec::{arrives, base64_decoded, decoded_text, encoded_text, lemma_text_arrives};
use crate::etcd::{delete_operation, put_operation, EtcdView};
use crate::http::RequestView;
use crate::json::JsonView;
use crate::keyspace::scanned;
use crate::order::lemma_encode_utf8_injective;
use crate::range::{in_range, successor};
use vstd::prelude::*;
use vstd::utf8::encode_utf8;

verus! {

/// The value of the last member `name` of a list of members.
pub open spec fn last_member(members: Seq<(Seq<char>, JsonView)>, name: Seq<char>) -> Option<
    JsonView,
>
    decreases members.len(),
{
    if members.len() == 0 {
        None
    } else if members.last().0 == name {
        Some(members.last().1)
    } else {
        last_member(members.drop_last(), name)
    }
}

/// The member `name` of `json`, if it is an object that has one.
pub open spec fn member(json: JsonView, name: Seq<char>) -> Option<JsonView> {
    match json {
        JsonView::Object(members) => last_member(members, name),
        _ => None,
    }
}

/// The text that the member `name` of `json` stands for, if it stands for one.
pub open spec fn text_member(json: JsonView, name: Seq<char>) -> Option<Seq<char>> {
    match member(json, name) {
        Some(JsonView::Text(encoded)) => match decoded_text(encoded) {
            Ok(text) => Some(text),
            Err(_) => None,
        },
        _ => None,
    }
}

/// The bytes that the member `name` of `json` stands for, if it stands for some.
pub open spec fn bytes_member(json: JsonView, name: Seq<char>) -> Option<Seq<u8>> {
    match member(json, name) {
        Some(JsonView::Text(encoded)) => match base64_decoded(encoded) {
            Ok(bytes) => Some(bytes),
            Err(_) => None,
        },
        _ => None,
    }
}

/// `store` after one operation of a transaction: a pair is written, or a key is deleted.
pub open spec fn operated(store: Map<Seq<char>, Seq<char>>, operation: JsonView) -> Map<
    Seq<char>,
    Seq<char>,
> {
    match (member(operation, "requestPut"@), member(operation, "requestDeleteRange"@)) {
        (Some(put), None) => match (text_member(put, "key"@), text_member(put, "value"@)) {
            (Some(key), Some(value)) => store.insert(key, value),
            _ => store,
        },
        (None, Some(delete)) => match text_member(delete, "key"@) {
            Some(key) => store.remove(key),
            None => store,
        },
        _ => store,
    }
}

/// `store` after the operations of a transaction, one after the other.
pub open spec fn all_operated(
    store: Map<Seq<char>, Seq<char>>,
    operations: Seq<JsonView>,
) -> Map<Seq<char>, Seq<char>>
    decreases operations.len(),
{
    if operations.len() == 0 {
        store
    } else {
        operated(all_operated(store, operations.drop_last()), operations.last())
    }
}

/// `store` after the transaction that `request` asks for was committed.
pub open spec fn committed(store: Map<Seq<char>, Seq<char>>, request: RequestView) -> Map<
    Seq<char>,
    Seq<char>,
> {
    match request.body {
        Some(body) => match member(body, "success"@) {
            Some(JsonView::List(operations)) => all_operated(store, operations),
            _ => store,
        },
        None => store,
    }
}

/// What `request` finds in `store`: the pair under one key, or those in a range of keys.
pub open spec fn found_by(store: Map<Seq<char>, Seq<char>>, request: RequestView) -> Map<
    Seq<char>,
    Seq<char>,
> {
    match request.body {
        Some(body) => match (bytes_member(body, "key"@), member(body, "range_end"@)) {
            (Some(start), None) => store.restrict(
                Set::new(|key: Seq<char>| encode_utf8(key) == start),
            ),
            (Some(start), Some(_)) => match bytes_member(body, "range_end"@) {
                Some(end) => store.restrict(
                    Set::new(|key: Seq<char>| in_range(encode_utf8(key), start, end)),
                ),
                None => Map::empty(),
            },
            _ => Map::empty(),
        },
        None => Map::empty(),
    }
}

/// Whatever the store holds, `request` writes `value` under both keys, and nothing else.
pub open spec fn writes(
    request: RequestView,
    composite_key: Seq<char>,
    idx_key: Seq<char>,
    value: Seq<char>,
) -> bool {
    forall|store: Map<Seq<char>, Seq<char>>| #[trigger]
        committed(store, request) == store.insert(composite_key, value).insert(idx_key, value)
}

/// Whatever the store holds, `request` deletes both keys, and nothing else.
pub open spec fn erases(
    request: RequestView,
    composite_key: Seq<char>,
    idx_key: Seq<char>,
) -> bool {
    forall|store: Map<Seq<char>, Seq<char>>| #[trigger]
        committed(store, request) == store.remove(composite_key).remove(idx_key)
}

/// Whatever the store holds, `request` finds the pairs that a scan over `prefix` covers.
pub open spec fn scans(request: RequestView, prefix: Seq<char>) -> bool {
    forall|store: Map<Seq<char>, Seq<char>>| #[trigger]
        found_by(store, request) == scanned(store, prefix)
}

/// Whatever the store holds, `request` finds the pair under `key`, if there is one.
pub open spec fn gets(request: RequestView, key: Seq<char>) -> bool {
    forall|store: Map<Seq<char>, Seq<char>>| #[trigger]
        found_by(store, request) == store.restrict(set![key])
}

/// In a list whose keys are all different, each key leads to what stands beside it.
pub proof fn lemma_members(members: Seq<(Seq<char>, JsonView)>)
    requires
        forall|i: int, j: int|
            0 <= i < j < members.len() ==> (#[trigger] members[i]).0 != (#[trigger] members[j]).0,
    ensures
        forall|i: int|
            0 <= i < members.len() ==> last_member(members, (#[trigger] members[i]).0) == Some(
                members[i].1,
            ),
        forall|name: Seq<char>|
            (forall|i: int| 0 <= i < members.len() ==> (#[trigger] members[i]).0 != name)
                ==> #[trigger] last_member(members, name) is None,
    decreases members.len(),
{
    if members.len() > 0 {
        let less = members.drop_last();
        assert forall|i: int, j: int| 0 <= i < j < less.len() implies (#[trigger] less[i]).0 != (
        #[trigger] less[j]).0 by {
            assert(members[i].0 != members[j].0);
        }
        lemma_members(less);
        assert forall|i: int| 0 <= i < members.len() implies last_member(
            members,
            (#[trigger] members[i]).0,
        ) == Some(members[i].1) by {
            if i < less.len() {
                assert(members[i].0 != members[less.len() as int].0);
                assert(less[i] == members[i]);
            }
        }
        assert forall|name: Seq<char>|
            (forall|i: int| 0 <= i < members.len() ==> (#[trigger] members[i]).0
                != name) implies #[trigger] last_member(members, name) is None by {
            assert(members[less.len() as int].0 != name);
            assert forall|i: int| 0 <= i < less.len() implies (#[trigger] less[i]).0 != name by {
                assert(members[i].0 != name);
            }
            assert(last_member(less, name) is None);
        }
    }
}

proof fn lemma_put(
    store: Map<Seq<char>, Seq<char>>,
    key: Seq<char>,
    value: Seq<char>,
    lease_id: Seq<char>,
)
    requires
        arrives(encode_utf8(key)),
        arrives(encode_utf8(value)),
    ensures
        operated(store, put_operation(key, value, lease_id)) == store.insert(key, value),
{
    reveal_strlit("requestPut");
    reveal_strlit("requestDeleteRange");
    reveal_strlit("key");
    reveal_strlit("value");
    reveal_strlit("lease");
    assert("requestPut"@.len() != "requestDeleteRange"@.len());
    lemma_text_arrives(key);
    lemma_text_arrives(value);
    let operation = put_operation(key, value, lease_id);
    let members = operation->Object_0;
    let put = members[0].1;
    let fields = put->Object_0;
    reveal_with_fuel(last_member, 4);
    assert(members.drop_last() =~= Seq::empty());
    assert(member(operation, "requestPut"@) == Some(put));
    assert(member(operation, "requestDeleteRange"@) is None);
    assert(fields.drop_last().drop_last().last() == fields[0]);
    assert(fields.drop_last().last() == fields[1]);
    assert("lease"@.len() == 5 && "value"@.len() == 5 && "lease"@[0] != "value"@[0]);
    assert(member(put, "value"@) == Some(JsonView::Text(encoded_text(value))));
    assert(member(put, "key"@) == Some(JsonView::Text(encoded_text(key))));
}

proof fn lemma_delete(store: Map<Seq<char>, Seq<char>>, key: Seq<char>)
    requires
        arrives(encode_utf8(key)),
    ensures
        operated(store, delete_operation(key)) == store.remove(key),
{
    reveal_strlit("requestPut");
    reveal_strlit("requestDeleteRange");
    assert("requestPut"@.len() != "requestDeleteRange"@.len());
    lemma_text_arrives(key);
    let operation = delete_operation(key);
    let members = operation->Object_0;
    let delete = members[0].1;
    reveal_with_fuel(last_member, 3);
    assert(members.drop_last() =~= Seq::empty());
    assert(member(operation, "requestDeleteRange"@) == Some(delete));
    assert(member(operation, "requestPut"@) is None);
    assert(member(delete, "key"@) == Some(JsonView::Text(encoded_text(key))));
}

proof fn lemma_two_operations(
    store: Map<Seq<char>, Seq<char>>,
    etcd: EtcdView,
    first: JsonView,
    second: JsonView,
)
    ensures
        committed(store, etcd.txn_request(seq![first, second])) == operated(
            operated(store, first),
            second,
        ),
{
    let operations = seq![first, second];
    let body = etcd.txn_request(operations).body->Some_0;
    reveal_with_fuel(last_member, 2);
    assert(member(body, "success"@) == Some(JsonView::List(operations)));
    reveal_with_fuel(all_operated, 3);
    assert(operations.drop_last() =~= seq![first]);
    assert(operations.drop_last().drop_last() =~= Seq::empty());
}

/// The transaction of a registration writes both of its keys.
pub proof fn lemma_writes(
    etcd: EtcdView,
    composite_key: Seq<char>,
    idx_key: Seq<char>,
    value: Seq<char>,
    lease_id: Seq<char>,
)
    ensures
        arrives(encode_utf8(composite_key)) && arrives(encode_utf8(idx_key)) && arrives(
            encode_utf8(value),
        ) ==> writes(
            etcd.write_request(composite_key, idx_key, value, lease_id),
            composite_key,
            idx_key,
            value,
        ),
{
    let request = etcd.write_request(composite_key, idx_key, value, lease_id);
    if arrives(encode_utf8(composite_key)) && arrives(encode_utf8(idx_key)) && arrives(
        encode_utf8(value),
    ) {
        assert forall|store: Map<Seq<char>, Seq<char>>| #[trigger]
            committed(store, request) == store.insert(composite_key, value).insert(
                idx_key,
                value,
            ) by {
            lemma_two_operations(
                store,
                etcd,
                put_operation(composite_key, value, lease_id),
                put_operation(idx_key, value, lease_id),
            );
            lemma_put(store, composite_key, value, lease_id);
            lemma_put(store.insert(composite_key, value), idx_key, value, lease_id);
        }
    }
}

/// The transaction of a deregistration deletes both keys.
pub proof fn lemma_erases(etcd: EtcdView, composite_key: Seq<char>, idx_key: Seq<char>)
    ensures
        arrives(encode_utf8(composite_key)) && arrives(encode_utf8(idx_key)) ==> erases(
            etcd.erase_request(composite_key, idx_key),
            composite_key,
            idx_key,
        ),
{
    let request = etcd.erase_request(composite_key, idx_key);
    if arrives(encode_utf8(composite_key)) && arrives(encode_utf8(idx_key)) {
        assert forall|store: Map<Seq<char>, Seq<char>>| #[trigger]
            committed(store, request) == store.remove(composite_key).remove(idx_key) by {
            lemma_two_operations(
                store,
                etcd,
                delete_operation(composite_key),
                delete_operation(idx_key),
            );
            lemma_delete(store, composite_key);
            lemma_delete(store.remove(composite_key), idx_key);
        }
    }
}

/// The request for a scan scans.
pub proof fn lemma_scans(etcd: EtcdView, prefix: Seq<char>)
    ensures
        arrives(encode_utf8(prefix)) && arrives(successor(encode_utf8(prefix))) ==> scans(
            etcd.scan_request(prefix),
            prefix,
        ),
{
    let request = etcd.scan_request(prefix);
    if arrives(encode_utf8(prefix)) && arrives(successor(encode_utf8(prefix))) {
        let body = request.body->Some_0;
        let members = body->Object_0;
        reveal_strlit("key");
        reveal_strlit("range_end");
        assert("key"@.len() != "range_end"@.len());
        reveal_with_fuel(last_member, 3);
        assert(members.drop_last().last() == members[0]);
        assert(member(body, "range_end"@) == Some(members[1].1));
        assert(member(body, "key"@) == Some(members[0].1));
        assert forall|store: Map<Seq<char>, Seq<char>>| #[trigger]
            found_by(store, request) == scanned(store, prefix) by {
            assert(found_by(store, request) =~= scanned(store, prefix));
        }
    }
}

/// The request for a key gets it.
pub proof fn lemma_gets(etcd: EtcdView, key: Seq<char>)
    ensures
        arrives(encode_utf8(key)) ==> gets(etcd.get_request(key), key),
{
    let request = etcd.get_request(key);
    if arrives(encode_utf8(key)) {
        let body = request.body->Some_0;
        let members = body->Object_0;
        reveal_strlit("key");
        reveal_strlit("range_end");
        assert("key"@.len() != "range_end"@.len());
        reveal_with_fuel(last_member, 3);
        assert(members.drop_last() =~= Seq::empty());
        assert(member(body, "key"@) == Some(members[0].1));
        assert(member(body, "range_end"@) is None);
        assert forall|store: Map<Seq<char>, Seq<char>>| #[trigger]
            found_by(store, request) == store.restrict(set![key]) by {
            assert forall|other: Seq<char>| encode_utf8(other) == encode_utf8(
                key,
            ) implies other == key by {
                lemma_encode_utf8_injective(other, key);
            }
            assert(found_by(store, request) =~= store.restrict(set![key]));
        }
    }
}

} // verus!
