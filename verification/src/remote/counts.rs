//! How many keys each remote namespace holds: asked of the provider's usage
//! figures first and, where those give nothing, of each namespace by a key
//! listing of one key. Every part of it may fail without harm: a namespace
//! is then shown without a count.

use crate::json::{json_of_text, Json, JsonView};
use crate::models::kv::{KVNamespace, NamespaceView, RemoteConnection};
use crate::remote::envelope::{array_member, read_array_member};
use crate::remote::request::{namespace_url, plain_request, HttpMethod, HttpRequest};
use crate::remote::response::{is_success, status_is_success, HttpResponse};
use crate::text::{push_str, str_eq, string_of};
use crate::views::{lemma_views_push, option_view, views};
use vstd::prelude::*;

verus! {

/// How many keys a namespace stores.
#[derive(Debug, PartialEq, Eq)]
pub struct NamespaceCount {
    pub namespace_id: String,
    pub stored_keys: u64,
}

/// Mathematical model of a [`NamespaceCount`].
pub struct CountView {
    pub namespace_id: Seq<char>,
    pub stored_keys: u64,
}

impl View for NamespaceCount {
    type V = CountView;

    open spec fn view(&self) -> CountView {
        CountView { namespace_id: self.namespace_id@, stored_keys: self.stored_keys }
    }
}

/// Where the usage figures of `account` are asked for.
pub open spec fn analytics_url(account: Seq<char>) -> Seq<char> {
    "https://api.cloudflare.com/client/v4/accounts/"@ + account
        + "/storage/analytics/stored?dimensions=namespaceId&metrics=storedKeys"@
}

/// Where a key listing of one key of a namespace is asked for.
pub open spec fn count_probe_url(account: Seq<char>, namespace: Seq<char>) -> Seq<char> {
    namespace_url(account, namespace) + "/keys?limit=1"@
}

/// The first element of `items`, if there is one.
pub open spec fn first_of(items: Seq<JsonView>) -> Option<JsonView> {
    if items.len() > 0 {
        Some(items[0])
    } else {
        None
    }
}

/// The count that one row of the usage figures gives: the first of its
/// `dimensions` is the namespace's id, a string, and the first of its
/// `metrics` is an array whose first element is the number of stored keys.
pub open spec fn count_record(row: JsonView) -> Option<CountView> {
    match (array_member(row, "dimensions"@), array_member(row, "metrics"@)) {
        (Some(dimensions), Some(metrics)) => match (first_of(dimensions), first_of(metrics)) {
            (Some(id), Some(figures)) => match (id.text(), figures.elements()) {
                (Some(namespace_id), Some(figures)) => match first_of(figures) {
                    Some(stored) => match stored.unsigned() {
                        Some(stored_keys) => Some(CountView { namespace_id, stored_keys }),
                        None => None,
                    },
                    None => None,
                },
                _ => None,
            },
            _ => None,
        },
        _ => None,
    }
}

/// The rows of the usage figures: the array `data` of the member `result`,
/// and no rows where there is none.
pub open spec fn analytics_rows(analytics: JsonView) -> Seq<JsonView> {
    match analytics.member("result"@) {
        Some(result) => match array_member(result, "data"@) {
            Some(rows) => rows,
            None => Seq::empty(),
        },
        None => Seq::empty(),
    }
}

/// The counts that `rows` give, in their order; a row that gives none is
/// passed over.
pub open spec fn counts_of_rows(rows: Seq<JsonView>) -> Seq<CountView>
    decreases rows.len(),
{
    if rows.len() == 0 {
        Seq::empty()
    } else {
        match count_record(rows.last()) {
            Some(count) => counts_of_rows(rows.drop_last()).push(count),
            None => counts_of_rows(rows.drop_last()),
        }
    }
}

/// The counts that the usage figures give.
pub open spec fn stored_counts(analytics: JsonView) -> Seq<CountView> {
    counts_of_rows(analytics_rows(analytics))
}

/// The count that `counts` hold for `namespace`: the last one, where
/// several are held.
pub open spec fn count_for(counts: Seq<CountView>, namespace: Seq<char>) -> Option<u64>
    decreases counts.len(),
{
    if counts.len() == 0 {
        None
    } else if counts.last().namespace_id == namespace {
        Some(counts.last().stored_keys)
    } else {
        count_for(counts.drop_last(), namespace)
    }
}

/// The number of keys that a key listing reports as `total_count` in its
/// `result_info`, and zero where it reports none.
pub open spec fn total_count(listing: JsonView) -> u64 {
    match listing.member("result_info"@) {
        Some(info) => match info.member("total_count"@) {
            Some(total) => match total.unsigned() {
                Some(total) => total,
                None => 0,
            },
            None => 0,
        },
        None => 0,
    }
}

/// What the answer to a count probe gives, given its status and what was
/// read from its body: a count where the status is 2xx and the body is
/// JSON, and nothing else.
pub open spec fn probe_result(status: u16, parsed: Option<JsonView>) -> Option<u64> {
    if is_success(status) {
        match parsed {
            Some(listing) => Some(total_count(listing)),
            None => None,
        }
    } else {
        None
    }
}

/// What the answer to the request for usage figures gives, given its status
/// and what was read from its body: the counts of the figures where the
/// status is 2xx and the body is JSON, and none else.
pub open spec fn analytics_result(status: u16, parsed: Option<JsonView>) -> Seq<CountView> {
    if is_success(status) {
        match parsed {
            Some(analytics) => stored_counts(analytics),
            None => Seq::empty(),
        }
    } else {
        Seq::empty()
    }
}

/// `namespace` with the count that `counts` hold for it.
pub open spec fn counted(namespace: NamespaceView, counts: Seq<CountView>) -> NamespaceView {
    NamespaceView {
        count: match count_for(counts, namespace.id) {
            Some(stored_keys) => Some(stored_keys as usize),
            None => None,
        },
        ..namespace
    }
}

/// The request for the usage figures of the account.
pub fn analytics_request(connection: &RemoteConnection) -> (request: HttpRequest)
    ensures
        request@ == plain_request(
            HttpMethod::Get,
            analytics_url(connection.account_id@),
            *connection,
        ),
{
    let mut url: Vec<char> = Vec::new();
    push_str(&mut url, "https://api.cloudflare.com/client/v4/accounts/");
    push_str(&mut url, connection.account_id.as_str());
    push_str(&mut url, "/storage/analytics/stored?dimensions=namespaceId&metrics=storedKeys");
    assert(url@ =~= analytics_url(connection.account_id@));
    HttpRequest {
        method: HttpMethod::Get,
        url: string_of(&url),
        bearer_token: connection.api_token.clone(),
        json_body: None,
    }
}

/// The request for a key listing of one key of `namespace`.
pub fn count_probe_request(connection: &RemoteConnection, namespace: &str) -> (request:
    HttpRequest)
    ensures
        request@ == plain_request(
            HttpMethod::Get,
            count_probe_url(connection.account_id@, namespace@),
            *connection,
        ),
{
    let mut url: Vec<char> = Vec::new();
    push_str(&mut url, "https://api.cloudflare.com/client/v4/accounts/");
    push_str(&mut url, connection.account_id.as_str());
    push_str(&mut url, "/storage/kv/namespaces");
    push_str(&mut url, "/");
    push_str(&mut url, namespace);
    push_str(&mut url, "/keys?limit=1");
    assert(url@ =~= count_probe_url(connection.account_id@, namespace@));
    HttpRequest {
        method: HttpMethod::Get,
        url: string_of(&url),
        bearer_token: connection.api_token.clone(),
        json_body: None,
    }
}

/// The first element of `items`, if there is one.
fn read_first(items: &Vec<Json>) -> (first: Option<&Json>)
    ensures
        option_view(first) == first_of(views(items@)),
{
    if items.len() > 0 {
        Some(&items[0])
    } else {
        None
    }
}

/// Reads the count that one row of the usage figures gives.
pub fn read_count(row: &Json) -> (count: Option<NamespaceCount>)
    ensures
        option_view(count) == count_record(row@),
{
    let dimensions = match read_array_member(row, "dimensions") {
        Some(dimensions) => dimensions,
        None => {
            return None;
        },
    };
    let metrics = match read_array_member(row, "metrics") {
        Some(metrics) => metrics,
        None => {
            return None;
        },
    };
    let (id, figures) = match (read_first(dimensions), read_first(metrics)) {
        (Some(id), Some(figures)) => (id, figures),
        _ => {
            return None;
        },
    };
    let (namespace_id, figures) = match (id.text(), figures.elements()) {
        (Some(namespace_id), Some(figures)) => (namespace_id, figures),
        _ => {
            return None;
        },
    };
    match read_first(figures) {
        Some(stored) => match stored.unsigned() {
            Some(stored_keys) => Some(
                NamespaceCount { namespace_id: namespace_id.clone(), stored_keys },
            ),
            None => None,
        },
        None => None,
    }
}

/// Reads the counts that the usage figures give.
pub fn read_stored_counts(analytics: &Json) -> (counts: Vec<NamespaceCount>)
    ensures
        views(counts@) == stored_counts(analytics@),
{
    let mut counts: Vec<NamespaceCount> = Vec::new();
    let rows = match analytics.member("result") {
        Some(result) => match read_array_member(result, "data") {
            Some(rows) => rows,
            None => {
                assert(views(counts@) =~= stored_counts(analytics@));
                return counts;
            },
        },
        None => {
            assert(views(counts@) =~= stored_counts(analytics@));
            return counts;
        },
    };
    let mut i: usize = 0;
    assert(views(rows@).take(0) =~= Seq::<JsonView>::empty());
    assert(views(counts@) =~= counts_of_rows(views(rows@).take(0)));
    while i < rows.len()
        invariant
            i <= rows.len(),
            views(counts@) == counts_of_rows(views(rows@).take(i as int)),
        decreases rows.len() - i,
    {
        proof {
            let front = views(rows@).take(i + 1);
            assert(front.drop_last() =~= views(rows@).take(i as int));
            assert(front.last() == rows@[i as int]@);
        }
        match read_count(&rows[i]) {
            Some(count) => {
                proof {
                    lemma_views_push(counts@, count);
                }
                counts.push(count);
            },
            None => {},
        }
        i += 1;
    }
    assert(views(rows@).take(rows@.len() as int) =~= views(rows@));
    counts
}

/// Reads the number of keys that a key listing reports.
pub fn read_total_count(listing: &Json) -> (total: u64)
    ensures
        total == total_count(listing@),
{
    match listing.member("result_info") {
        Some(info) => match info.member("total_count") {
            Some(total) => match total.unsigned() {
                Some(total) => total,
                None => 0,
            },
            None => 0,
        },
        None => 0,
    }
}

/// The count that `counts` hold for `namespace`.
pub fn find_count(counts: &Vec<NamespaceCount>, namespace: &str) -> (found: Option<u64>)
    ensures
        found == count_for(views(counts@), namespace@),
{
    let mut i: usize = counts.len();
    assert(views(counts@).take(i as int) =~= views(counts@));
    while i > 0
        invariant
            i <= counts.len(),
            count_for(views(counts@), namespace@) == count_for(
                views(counts@).take(i as int),
                namespace@,
            ),
        decreases i,
    {
        proof {
            let front = views(counts@).take(i as int);
            assert(front.drop_last() =~= views(counts@).take(i - 1));
            assert(front.last() == counts@[i - 1]@);
        }
        if str_eq(counts[i - 1].namespace_id.as_str(), namespace) {
            return Some(counts[i - 1].stored_keys);
        }
        i -= 1;
    }
    None
}

/// What the answer to the request for usage figures gives, given its status
/// and what was read from its body.
pub fn counts_from(status: u16, parsed: Option<Json>) -> (counts: Vec<NamespaceCount>)
    ensures
        views(counts@) == analytics_result(status, option_view(parsed)),
{
    if status_is_success(status) {
        match parsed {
            Some(analytics) => read_stored_counts(&analytics),
            None => {
                let counts: Vec<NamespaceCount> = Vec::new();
                assert(views(counts@) =~= Seq::<CountView>::empty());
                counts
            },
        }
    } else {
        let counts: Vec<NamespaceCount> = Vec::new();
        assert(views(counts@) =~= Seq::<CountView>::empty());
        counts
    }
}

/// What `response` gives as the answer to the request for usage figures.
pub fn read_analytics_response(response: &HttpResponse) -> (counts: Vec<NamespaceCount>)
    ensures
        views(counts@) == analytics_result(response.status, json_of_text(response.body@)),
{
    if status_is_success(response.status) {
        counts_from(response.status, Json::from_text(response.body.as_str()))
    } else {
        counts_from(response.status, None)
    }
}

/// What the answer to a count probe gives, given its status and what was
/// read from its body.
pub fn probe_from(status: u16, parsed: Option<Json>) -> (count: Option<u64>)
    ensures
        count == probe_result(status, option_view(parsed)),
{
    if status_is_success(status) {
        match parsed {
            Some(listing) => Some(read_total_count(&listing)),
            None => None,
        }
    } else {
        None
    }
}

/// What `response` gives as the answer to a count probe.
pub fn read_probe_response(response: &HttpResponse) -> (count: Option<u64>)
    ensures
        count == probe_result(response.status, json_of_text(response.body@)),
{
    if status_is_success(response.status) {
        probe_from(response.status, Json::from_text(response.body.as_str()))
    } else {
        None
    }
}

/// Whether each namespace has to be probed for its count: that is so where
/// the usage figures gave no count at all.
pub fn needs_probes(counts: &Vec<NamespaceCount>) -> (yes: bool)
    ensures
        yes == (counts@.len() == 0),
{
    counts.len() == 0
}

/// Notes what the probe of `namespace` gave: a count is added to `counts`,
/// and a probe that gave none leaves them as they are.
pub fn record_probe(counts: &mut Vec<NamespaceCount>, namespace: &str, probed: Option<u64>)
    ensures
        views(final(counts)@) == match probed {
            Some(stored_keys) => views(old(counts)@).push(
                CountView { namespace_id: namespace@, stored_keys },
            ),
            None => views(old(counts)@),
        },
{
    match probed {
        Some(stored_keys) => {
            let count = NamespaceCount { namespace_id: namespace.to_owned(), stored_keys };
            proof {
                lemma_views_push(counts@, count);
            }
            counts.push(count);
        },
        None => {},
    }
}

/// `namespaces` with the count that `counts` hold for each of them, and
/// without a count where they hold none.
pub fn with_counts(namespaces: Vec<KVNamespace>, counts: &Vec<NamespaceCount>) -> (shown: Vec<
    KVNamespace,
>)
    ensures
        views(shown@) == Seq::new(
            namespaces@.len(),
            |i: int| counted(namespaces@[i]@, views(counts@)),
        ),
{
    let ghost before = namespaces@;
    let mut shown: Vec<KVNamespace> = Vec::new();
    for namespace in it: namespaces.into_iter()
        invariant
            it.seq() == before,
            views(shown@) == Seq::new(
                it.index() as nat,
                |k: int| counted(before[k]@, views(counts@)),
            ),
    {
        let count = match find_count(counts, namespace.id.as_str()) {
            Some(stored_keys) => Some(stored_keys as usize),
            None => None,
        };
        let counted_namespace = KVNamespace { count, ..namespace };
        proof {
            lemma_views_push(shown@, counted_namespace);
            assert(counted_namespace@ == counted(before[it.index() as int]@, views(counts@)));
        }
        shown.push(counted_namespace);
        assert(views(shown@) =~= Seq::new(
            (it.index() + 1) as nat,
            |k: int| counted(before[k]@, views(counts@)),
        ));
    }
    assert(views(shown@) =~= Seq::new(
        before.len(),
        |i: int| counted(before[i]@, views(counts@)),
    ));
    shown
}

} // verus!
