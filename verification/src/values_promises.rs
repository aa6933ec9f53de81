//! What the values that pass between the parts of the library promise: spans of time, errors,
//! documents, tables, and the order of texts.
use crate::consul::CONSUL_REQUEST_TIMEOUT_SECS;
use crate::document::{Member, MemberView};
use crate::duration::Duration;
use crate::error::{joined, DiscoveryError, ErrorView};
use crate::etcd::{EtcdKV, ETCD_REQUEST_TIMEOUT_SECS};
use crate::etcd_promises::{is_made_of, lemma_two_parts};
use crate::http::{is_success, refusal_text, undecodable_text, Request};
use crate::json::{Json, JsonView};
use crate::keyed::{keyed_texts, Keyed};
use crate::lease::Registrations;
use crate::memory::InMemoryDiscovery;
use crate::order::{below_at, relate, text_lt, Relation};
use crate::outcome::{faults_agree, optional, outcome};
use vstd::prelude::*;
use vstd::utf8::encode_utf8;

verus! {

/// A span of time gives back the seconds and nanoseconds that it was made of.
pub proof fn span_gives_back_its_parts(
    secs: u64,
    nanos: u32,
    span: Duration,
    whole: u64,
    rest: u32,
)
    requires
        nanos < 1_000_000_000,
        call_ensures(Duration::new, (secs, nanos), span),
        call_ensures(Duration::as_secs, (&span,), whole),
        call_ensures(Duration::subsec_nanos, (&span,), rest),
    ensures
        whole == secs,
        rest == nanos,
{
}

/// Seconds give back those seconds, and milliseconds the seconds and the thousandths in them.
pub proof fn span_counts_in_its_unit(
    amount: u64,
    seconds: Duration,
    whole: u64,
    rest: u32,
    millis: Duration,
    whole_of_millis: u64,
    rest_of_millis: u32,
)
    requires
        call_ensures(Duration::from_secs, (amount,), seconds),
        call_ensures(Duration::as_secs, (&seconds,), whole),
        call_ensures(Duration::subsec_nanos, (&seconds,), rest),
        call_ensures(Duration::from_millis, (amount,), millis),
        call_ensures(Duration::as_secs, (&millis,), whole_of_millis),
        call_ensures(Duration::subsec_nanos, (&millis,), rest_of_millis),
    ensures
        whole == amount,
        rest == 0,
        whole_of_millis * 1000 + rest_of_millis / 1_000_000 == amount,
        rest_of_millis % 1_000_000 == 0,
        rest_of_millis < 1_000_000_000,
{
}

/// Three thirds of a span are the span, short of what three does not divide; and the longer of
/// two spans is one of them, and no shorter than either.
pub proof fn third_and_longer_span(
    one: Duration,
    other: Duration,
    third: Duration,
    longer: Duration,
)
    requires
        call_ensures(Duration::third, (&one,), third),
        call_ensures(Duration::max, (one, other), longer),
    ensures
        3 * third@ <= one@ < 3 * third@ + 3,
        longer@ >= one@,
        longer@ >= other@,
        longer@ == one@ || longer@ == other@,
{
}

/// Two texts are joined by putting the second behind the first.
pub proof fn joined_text_is_made_of_both(head: &str, tail: &str, text: String)
    requires
        call_ensures(joined, (head, tail), text),
    ensures
        is_made_of(text@, seq![head@, tail@]),
{
    lemma_two_parts(head@, tail@);
}

/// The value of an error tells its kind and its text, and its description is words for the kind
/// with the text behind them.
pub proof fn error_is_described_by_its_kind_and_text(error: DiscoveryError, words: String)
    requires
        call_ensures(DiscoveryError::message, (&error,), words),
    ensures
        error matches DiscoveryError::ServiceNotFound(text) ==> error@
            == ErrorView::ServiceNotFound(text@) && is_made_of(
            words@,
            seq!["Service not found: "@, text@],
        ),
        error matches DiscoveryError::RegistrationFailed(text) ==> error@
            == ErrorView::RegistrationFailed(text@) && is_made_of(
            words@,
            seq!["Registration failed: "@, text@],
        ),
        error matches DiscoveryError::DeregistrationFailed(text) ==> error@
            == ErrorView::DeregistrationFailed(text@) && is_made_of(
            words@,
            seq!["Deregistration failed: "@, text@],
        ),
        error matches DiscoveryError::InvalidConfiguration(text) ==> error@
            == ErrorView::InvalidConfiguration(text@) && is_made_of(
            words@,
            seq!["Invalid configuration: "@, text@],
        ),
        error matches DiscoveryError::Http(text) ==> error@ == ErrorView::Http(text@) && is_made_of(
            words@,
            seq!["HTTP error: "@, text@],
        ),
{
    match error {
        DiscoveryError::ServiceNotFound(text) => {
            lemma_two_parts("Service not found: "@, text@);
        },
        DiscoveryError::RegistrationFailed(text) => {
            lemma_two_parts("Registration failed: "@, text@);
        },
        DiscoveryError::DeregistrationFailed(text) => {
            lemma_two_parts("Deregistration failed: "@, text@);
        },
        DiscoveryError::InvalidConfiguration(text) => {
            lemma_two_parts("Invalid configuration: "@, text@);
        },
        DiscoveryError::Http(text) => {
            lemma_two_parts("HTTP error: "@, text@);
        },
    }
}

/// Two errors are described in the same words if and only if they are the same kind with the same
/// text.
pub proof fn descriptions_tell_errors_apart(
    one: DiscoveryError,
    other: DiscoveryError,
    one_words: String,
    other_words: String,
)
    requires
        call_ensures(DiscoveryError::message, (&one,), one_words),
        call_ensures(DiscoveryError::message, (&other,), other_words),
    ensures
        one_words@ == other_words@ <==> one@ == other@,
{
    reveal_strlit("Service not found: ");
    reveal_strlit("Registration failed: ");
    reveal_strlit("Deregistration failed: ");
    reveal_strlit("Invalid configuration: ");
    reveal_strlit("HTTP error: ");
    let head = |error: ErrorView|
        match error {
            ErrorView::ServiceNotFound(_) => "Service not found: "@,
            ErrorView::RegistrationFailed(_) => "Registration failed: "@,
            ErrorView::DeregistrationFailed(_) => "Deregistration failed: "@,
            ErrorView::InvalidConfiguration(_) => "Invalid configuration: "@,
            ErrorView::Http(_) => "HTTP error: "@,
        };
    let tail = |error: ErrorView|
        match error {
            ErrorView::ServiceNotFound(text) => text,
            ErrorView::RegistrationFailed(text) => text,
            ErrorView::DeregistrationFailed(text) => text,
            ErrorView::InvalidConfiguration(text) => text,
            ErrorView::Http(text) => text,
        };
    if one_words@ == other_words@ {
        assert(one_words@[0] == head(one@)[0]);
        assert(other_words@[0] == head(other@)[0]);
        assert(head(one@) == head(other@));
        let length = head(one@).len() as int;
        assert(one_words@ == head(one@) + tail(one@));
        assert(other_words@ == head(other@) + tail(other@));
        assert(one_words@.skip(length) =~= tail(one@));
        assert(other_words@.skip(length) =~= tail(other@));
    }
}

/// A status is a success if and only if it is one of the two hundreds. The body of a refusal is
/// shown as it is, and an unknown one as that; what cannot be read is told in the words of the
/// HTTP client.
pub proof fn replies_are_told_as_they_are(
    status: u16,
    success: bool,
    text: Option<String>,
    shown: String,
    unread: String,
)
    requires
        call_ensures(is_success, (status,), success),
        call_ensures(refusal_text, (text,), shown),
        call_ensures(undecodable_text, (), unread),
    ensures
        success <==> status / 100 == 2,
        text matches Some(body) ==> shown@ == body@,
        text is None ==> shown@ == "Unknown error"@,
        unread@ == "error decoding response body"@,
{
}

/// Any request, to etcd or to Consul, may take five seconds.
pub proof fn requests_have_five_seconds()
    ensures
        ETCD_REQUEST_TIMEOUT_SECS == 5,
        CONSUL_REQUEST_TIMEOUT_SECS == 5,
{
}

/// The value of a request tells its method, its URL and the document in its body.
pub proof fn request_value_tells_its_parts(request: Request)
    ensures
        request@.method == request.method,
        request@.url == request.url@,
        request.body matches Some(body) ==> request@.body == Some(body@),
        request.body is None ==> request@.body is None,
{
}

/// The values of a pair and of a member that was read tell what they hold.
pub proof fn pair_and_member_values_tell_what_they_hold(kv: EtcdKV, member: Member)
    ensures
        kv@.key == kv.key@,
        kv@.value == kv.value@,
        match member {
            Member::Text(text) => member@ == MemberView::Text(text@),
            Member::Number(text) => member@ == MemberView::Number(text@),
            Member::Other => member@ == MemberView::Other,
        },
{
}

/// Results and options are told with the values of what they hold, and as what they are.
pub proof fn results_tell_what_they_hold(
    result: Result<String, String>,
    option: Option<String>,
    other: Result<(), String>,
)
    ensures
        match result {
            Ok(text) => outcome(result) == Ok::<Seq<char>, Seq<char>>(text@),
            Err(text) => outcome(result) == Err::<Seq<char>, Seq<char>>(text@),
        },
        match option {
            Some(text) => optional(option) == Some(text@),
            None => optional(option) is None,
        },
        faults_agree(result, other) <==> (match (result, other) {
            (Ok(_), Ok(_)) => true,
            (Err(one), Err(two)) => one == two,
            _ => false,
        }),
{
}

/// The value of a document tells each of its parts: a number, a text, the items of a list and the
/// members of an object in their order, and the texts of a table.
pub proof fn document_value_tells_every_part(json: Json)
    ensures
        json matches Json::Number(n) ==> json@ == JsonView::Number(n as nat),
        json matches Json::Text(text) ==> json@ == JsonView::Text(text@),
        json matches Json::List(items) ==> (json@ matches JsonView::List(list) && list.len()
            == items@.len() && forall|i: int|
            0 <= i < items@.len() ==> #[trigger] list[i] == items@[i]@),
        json matches Json::Object(members) ==> (json@ matches JsonView::Object(list) && list.len()
            == members@.len() && forall|i: int|
            0 <= i < members@.len() ==> (#[trigger] list[i]).0 == members@[i].0@ && list[i].1
                == members@[i].1@),
        json matches Json::Texts(table) ==> (json@ matches JsonView::Texts(told) && told.dom()
            == table@.dom() && forall|key: Seq<char>| #[trigger]
            table@.contains_key(key) ==> told[key] == table@[key]@),
{
    if let Json::Texts(table) = json {
        assert(json@->Texts_0.dom() =~= table@.dom());
    }
}

/// Documents hold what they are made of: a text, the members of an object with the newest at the
/// end, the items of a list, the texts of a list of texts.
pub proof fn documents_hold_what_they_are_made_of(
    text: &str,
    as_text: Json,
    empty: Json,
    object: Json,
    key: &str,
    value: Json,
    longer: Json,
    items: Vec<Json>,
    list: Json,
    strings: Vec<String>,
    text_list: Json,
)
    requires
        call_ensures(Json::text, (text,), as_text),
        call_ensures(Json::object, (), empty),
        object is Object,
        call_ensures(Json::with, (object, key, value), longer),
        call_ensures(Json::list, (items,), list),
        call_ensures(Json::text_list, (&strings,), text_list),
    ensures
        as_text matches Json::Text(held) && held@ == text@,
        empty matches Json::Object(members) && members@.len() == 0,
        longer matches Json::Object(members) && members@.len() == object->Object_0@.len() + 1
            && members@.last().0@ == key@ && members@.last().1@ == value@ && forall|i: int|
            0 <= i < object->Object_0@.len() ==> (#[trigger] members@[i]).0@
                == object->Object_0@[i].0@ && members@[i].1@ == object->Object_0@[i].1@,
        list matches Json::List(held) && held@.len() == items@.len() && forall|i: int|
            0 <= i < items@.len() ==> (#[trigger] held@[i])@ == items@[i]@,
        text_list matches Json::List(held) && held@.len() == strings@.len() && forall|i: int|
            0 <= i < strings@.len() ==> (#[trigger] held@[i] matches Json::Text(one) && one@
                == strings@[i]@),
{
    document_value_tells_every_part(as_text);
    document_value_tells_every_part(empty);
    document_value_tells_every_part(object);
    document_value_tells_every_part(longer);
    document_value_tells_every_part(list);
    document_value_tells_every_part(text_list);
    let members = longer->Object_0@;
    let told = longer@->Object_0;
    assert(told[members.len() - 1].0 == members.last().0@);
    assert forall|i: int| 0 <= i < object->Object_0@.len() implies (#[trigger] members[i]).0@
        == object->Object_0@[i].0@ && members[i].1@ == object->Object_0@[i].1@ by {
        assert(told[i] == object@->Object_0[i]);
    }
    let held = list->List_0@;
    assert forall|i: int| 0 <= i < items@.len() implies (#[trigger] held[i])@ == items@[i]@ by {
        assert(list@->List_0[i] == items@[i]@);
    }
    let texts = text_list->List_0@;
    assert forall|i: int| 0 <= i < strings@.len() implies (#[trigger] texts[i] matches Json::Text(one)
        && one@ == strings@[i]@) by {
        assert(text_list@->List_0[i] == texts[i]@);
        assert(text_list@->List_0[i] == JsonView::Text(strings@[i]@));
        document_value_tells_every_part(texts[i]);
    }
}

/// What was put last under a key is what is found under it and taken from it; what was there
/// before is given back; other keys are not touched; and a new table is empty.
pub proof fn table_keeps_what_was_put_last<T>(
    first: &mut Keyed<T>,
    key: &str,
    value: T,
    previous: Option<T>,
    between: Keyed<T>,
    found: Option<&T>,
    other: &str,
    found_other: Option<&T>,
    before: Keyed<T>,
    found_before: Option<&T>,
    found_other_before: Option<&T>,
    second: &mut Keyed<T>,
    taken: Option<T>,
    after: Keyed<T>,
    gone: Option<&T>,
    found_other_after: Option<&T>,
    fresh: Keyed<T>,
    nothing: Option<&T>,
)
    requires
        other@ != key@,
        before@ == old(first)@,
        call_ensures(Keyed::<T>::get, (&before, key), found_before),
        call_ensures(Keyed::<T>::get, (&before, other), found_other_before),
        call_ensures(Keyed::<T>::insert, (first, key, value), previous),
        between@ == final(first)@,
        call_ensures(Keyed::<T>::get, (&between, key), found),
        call_ensures(Keyed::<T>::get, (&between, other), found_other),
        old(second)@ == final(first)@,
        call_ensures(Keyed::<T>::remove, (second, key), taken),
        after@ == final(second)@,
        call_ensures(Keyed::<T>::get, (&after, key), gone),
        call_ensures(Keyed::<T>::get, (&after, other), found_other_after),
        call_ensures(Keyed::<T>::new, (), fresh),
        call_ensures(Keyed::<T>::get, (&fresh, key), nothing),
    ensures
        found == Some(&value),
        match found_before {
            Some(was) => previous == Some(*was),
            None => previous is None,
        },
        taken == Some(value),
        gone is None,
        found_other == found_other_before,
        found_other_after == found_other_before,
        nothing is None,
{
}

/// The walk over a table meets each of its keys once, each with the value that is found under it.
pub proof fn walk_meets_every_entry<T>(
    table: Keyed<T>,
    count: usize,
    index: usize,
    key: &str,
    value: &T,
    found: Option<&T>,
    wanted: &str,
    got: Option<&T>,
)
    requires
        call_ensures(Keyed::<T>::len, (&table,), count),
        index < count,
        call_ensures(Keyed::<T>::key_at, (&table, index), key),
        call_ensures(Keyed::<T>::at, (&table, index), value),
        call_ensures(Keyed::<T>::get, (&table, key), found),
        call_ensures(Keyed::<T>::get, (&table, wanted), got),
    ensures
        found == Some(value),
        got is Some <==> exists|i: int|
            0 <= i < count && #[trigger] table.walk()[i] == wanted@,
        forall|i: int, j: int|
            0 <= i < j < count ==> #[trigger] table.walk()[i] != #[trigger] table.walk()[j],
{
    assert(table.walk().to_set().contains(wanted@) <==> table.walk().contains(wanted@));
}

/// A copy of a table of strings holds the same texts under the same keys.
pub proof fn table_copy_holds_the_same_texts(
    table: Keyed<String>,
    copy: Keyed<String>,
    key: &str,
    found: Option<&String>,
    found_in_copy: Option<&String>,
)
    requires
        call_ensures(<Keyed<String> as Clone>::clone, (&table,), copy),
        call_ensures(Keyed::<String>::get, (&table, key), found),
        call_ensures(Keyed::<String>::get, (&copy, key), found_in_copy),
    ensures
        found is Some <==> found_in_copy is Some,
        found matches Some(text) ==> found_in_copy->Some_0@ == text@,
{
    let a = keyed_texts(table@);
    let b = keyed_texts(copy@);
    assert(a.contains_key(key@) <==> table@.contains_key(key@));
    assert(b.contains_key(key@) <==> copy@.contains_key(key@));
    if table@.contains_key(key@) {
        assert(a[key@] == table@[key@]@);
        assert(b[key@] == copy@[key@]@);
    }
}

/// `task` is that of a registration that is held.
pub open spec fn is_kept<H>(held: Registrations<H>, task: H) -> bool {
    exists|id: Seq<char>| #[trigger] held@.contains_key(id) && held@[id].keep_alive == task
}

/// A client starts with no registrations, and the task of every registration that it holds is
/// among those that are to stop with it, and nothing else is.
pub proof fn every_task_stops_with_the_client<H>(
    fresh: Registrations<H>,
    held: Registrations<H>,
    tasks: Vec<&H>,
    id: Seq<char>,
)
    requires
        call_ensures(Registrations::<H>::new, (), fresh),
        call_ensures(Registrations::<H>::keep_alives, (&held,), tasks),
    ensures
        !fresh@.contains_key(id),
        tasks@.len() == held@.len(),
        held@.contains_key(id) ==> exists|i: int|
            0 <= i < tasks@.len() && *(#[trigger] tasks@[i]) == held@[id].keep_alive,
        forall|i: int| 0 <= i < tasks@.len() ==> is_kept(held, *(#[trigger] tasks@[i])),
{
    let ids = choose|ids: Seq<Seq<char>>|
        {
            &&& #[trigger] ids.no_duplicates()
            &&& ids.to_set() == held@.dom()
            &&& ids.len() == tasks@.len()
            &&& forall|i: int|
                0 <= i < ids.len() ==> *(#[trigger] tasks@[i]) == held@[ids[i]].keep_alive
        };
    ids.unique_seq_to_set();
    if held@.contains_key(id) {
        assert(ids.to_set().contains(id));
        let i = choose|i: int| 0 <= i < ids.len() && ids[i] == id;
        assert(*(tasks@[i]) == held@[id].keep_alive);
    }
    assert forall|i: int| 0 <= i < tasks@.len() implies is_kept(
        held,
        *(#[trigger] tasks@[i]),
    ) by {
        assert(ids.to_set().contains(ids[i]));
        assert(held@.contains_key(ids[i]));
    }
}

/// Of two texts one comes first, unless they are the same; which does is told alike from both
/// sides, and by the first byte in which they differ, or by their lengths where there is none.
pub proof fn texts_are_ordered_by_their_first_difference(
    a: &str,
    b: &str,
    one: Relation,
    other: Relation,
    n: int,
)
    requires
        call_ensures(relate, (a, b), one),
        call_ensures(relate, (b, a), other),
        0 <= n <= encode_utf8(a@).len(),
        n <= encode_utf8(b@).len(),
        forall|i: int| 0 <= i < n ==> encode_utf8(a@)[i] == encode_utf8(b@)[i],
    ensures
        one == Relation::Same <==> a@ == b@,
        one == Relation::Before <==> other == Relation::After,
        one == Relation::Same <==> other == Relation::Same,
        n < encode_utf8(a@).len() && n < encode_utf8(b@).len() && encode_utf8(a@)[n] < encode_utf8(
            b@,
        )[n] ==> one == Relation::Before,
        n == encode_utf8(a@).len() && n < encode_utf8(b@).len() ==> one == Relation::Before,
{
    if n < encode_utf8(b@).len() && (n == encode_utf8(a@).len() || encode_utf8(a@)[n]
        < encode_utf8(b@)[n]) {
        assert(below_at(encode_utf8(a@), encode_utf8(b@), n));
        assert(text_lt(a@, b@));
    }
}

/// The default table in memory is a new one: it holds nothing.
pub proof fn default_table_is_empty(table: InMemoryDiscovery, id: Seq<char>)
    requires
        call_ensures(<InMemoryDiscovery as Default>::default, (), table),
    ensures
        !table@.contains_key(id),
        table@.len() == 0,
{
    assert(table@.dom() =~= Set::empty());
}

} // verus!
