//! What the answers of the provider mean.

use crate::error::{list_result_view, result_view, unit_result_view, KvError, KvErrorView};
use crate::json::{json_of_text, text_of_json, Json, JsonView};
use crate::models::cloudflare::{
    ApiErrorView, CloudflareError, CloudflareKey, CloudflareKeysResponse, CloudflareNamespace,
    KeyRecordView, KeysPageView, ListResponseView, NamespaceRecordView,
};
use crate::models::kv::{EntryView, KVEntry, KVNamespace, NamespaceKind, NamespaceView};
use crate::remote::envelope::{
    key_envelope, namespace_envelope, read_key_envelope, read_namespace_envelope,
};
use crate::text::{decimal, push_decimal, push_signed_decimal, push_str, signed_decimal, string_of};
use crate::views::{lemma_views_push, option_view, views};
use vstd::prelude::*;

verus! {

/// An answer of the provider: its status code and its body as text.
#[derive(Debug, PartialEq, Eq)]
pub struct HttpResponse {
    pub status: u16,
    pub body: String,
}

/// Whether `status` is one of the 2xx codes.
pub open spec fn is_success(status: u16) -> bool {
    200 <= status <= 299
}

/// Whether `status` is one of the 2xx codes.
pub fn status_is_success(status: u16) -> (yes: bool)
    ensures
        yes == is_success(status),
{
    200 <= status && status <= 299
}

/// What the answer to a token probe means: the token is valid exactly when
/// the status is 2xx.
pub fn check_token(status: u16) -> (outcome: Result<(), KvError>)
    ensures
        unit_result_view(outcome) == if is_success(status) {
            Ok::<(), KvErrorView>(())
        } else {
            Err::<(), KvErrorView>(KvErrorView::AuthFailed(status))
        },
{
    if status_is_success(status) {
        Ok(())
    } else {
        Err(KvError::AuthFailed(status))
    }
}

/// What the answer to a write or a delete means: it was done exactly when
/// the status is 2xx.
pub fn check_status(status: u16) -> (outcome: Result<(), KvError>)
    ensures
        unit_result_view(outcome) == if is_success(status) {
            Ok::<(), KvErrorView>(())
        } else {
            Err::<(), KvErrorView>(KvErrorView::RequestFailed(status))
        },
{
    if status_is_success(status) {
        Ok(())
    } else {
        Err(KvError::RequestFailed(status))
    }
}

/// What became of a request: the answer, or the reason why none came.
pub fn answered(outcome: Result<HttpResponse, String>) -> (answer: Result<HttpResponse, KvError>)
    ensures
        match outcome {
            Ok(response) => answer == Ok::<HttpResponse, KvError>(response),
            Err(why) => answer == Err::<HttpResponse, KvError>(KvError::Transport(why)),
        },
{
    match outcome {
        Ok(response) => Ok(response),
        Err(why) => Err(KvError::Transport(why)),
    }
}

/// One error of an envelope as `code: message`.
pub open spec fn error_line(error: ApiErrorView) -> Seq<char> {
    signed_decimal(error.code as int) + ": "@ + error.message
}

/// The errors of an envelope as `code: message` pairs with `, ` between
/// them.
pub open spec fn joined_errors(errors: Seq<ApiErrorView>) -> Seq<char>
    decreases errors.len(),
{
    if errors.len() == 0 {
        Seq::empty()
    } else if errors.len() == 1 {
        error_line(errors[0])
    } else {
        joined_errors(errors.drop_last()) + ", "@ + error_line(errors.last())
    }
}

/// The errors of an envelope as `code: message` pairs with `, ` between
/// them.
pub fn join_errors(errors: &Vec<CloudflareError>) -> (text: String)
    ensures
        text@ == joined_errors(views(errors@)),
{
    let mut out: Vec<char> = Vec::new();
    let mut i: usize = 0;
    assert(views(errors@).take(0) =~= Seq::<ApiErrorView>::empty());
    while i < errors.len()
        invariant
            i <= errors.len(),
            out@ == joined_errors(views(errors@).take(i as int)),
        decreases errors.len() - i,
    {
        let ghost before = out@;
        if i > 0 {
            push_str(&mut out, ", ");
        }
        push_signed_decimal(&mut out, errors[i].code as i64);
        push_str(&mut out, ": ");
        push_str(&mut out, errors[i].message.as_str());
        proof {
            let front = views(errors@).take(i + 1);
            assert(front.drop_last() =~= views(errors@).take(i as int));
            assert(front.last() == errors@[i as int]@);
            if i == 0 {
                assert(out@ =~= error_line(front[0]));
            } else {
                assert(out@ =~= before + ", "@ + error_line(front.last()));
            }
        }
        i += 1;
    }
    assert(views(errors@).take(errors@.len() as int) =~= views(errors@));
    string_of(&out)
}

/// The namespace that a listed record of `account` stands for. No entries
/// are fetched with it, and no count.
pub open spec fn remote_namespace(
    account: Seq<char>,
    record: NamespaceRecordView,
) -> NamespaceView {
    NamespaceView {
        id: record.id,
        entries: Seq::empty(),
        name: record.title,
        kind: NamespaceKind::Remote,
        account_id: Some(account),
        folder_id: None,
        count: None,
    }
}

/// The namespaces that the listed records of `account` stand for, one for
/// one and in their order.
pub open spec fn remote_namespaces(account: Seq<char>, records: Seq<NamespaceRecordView>) -> Seq<
    NamespaceView,
> {
    Seq::new(records.len(), |i: int| remote_namespace(account, records[i]))
}

/// What the answer to a namespace listing means, given its status and what
/// was read from its body.
pub open spec fn namespaces_result(
    account: Seq<char>,
    status: u16,
    parsed: Option<JsonView>,
) -> Result<Seq<NamespaceView>, KvErrorView> {
    if !is_success(status) {
        Err(KvErrorView::RequestFailed(status))
    } else {
        match parsed {
            Some(value) => match namespace_envelope(value) {
                Some(response) => if response.success {
                    Ok(remote_namespaces(account, response.result))
                } else {
                    Err(KvErrorView::ApiError(joined_errors(response.errors)))
                },
                None => Err(KvErrorView::MalformedResponse),
            },
            None => Err(KvErrorView::MalformedResponse),
        }
    }
}

/// The entry that the listed key at position `index` of a page stands for.
/// Its blob reference is a placeholder, and its value is not fetched.
pub open spec fn remote_entry(namespace: Seq<char>, index: nat, key: KeyRecordView) -> EntryView {
    EntryView {
        id: namespace + "-"@ + decimal(index),
        key: key.name,
        blob_id: "remote-"@ + decimal(index),
        expiration: key.expiration,
        metadata: match key.metadata {
            Some(metadata) => Some(text_of_json(metadata)),
            None => None,
        },
        value: None,
    }
}

/// The entries that the listed keys of one page stand for, one for one and
/// in their order.
pub open spec fn remote_entries(namespace: Seq<char>, keys: Seq<KeyRecordView>) -> Seq<EntryView> {
    Seq::new(keys.len(), |i: int| remote_entry(namespace, i as nat, keys[i]))
}

/// The page that an envelope of keys holds: the entries, the cursor of the
/// next page where the envelope names one, and the count of the paging part,
/// which is the number of entries where the envelope has no paging part.
pub open spec fn keys_page(
    namespace: Seq<char>,
    response: ListResponseView<KeyRecordView>,
) -> KeysPageView {
    KeysPageView {
        entries: remote_entries(namespace, response.result),
        cursor: match response.result_info {
            Some(info) => info.cursor,
            None => None,
        },
        total: match response.result_info {
            Some(info) => info.count,
            None => response.result.len() as u64,
        },
    }
}

/// What the answer to a key listing means, given its status and what was
/// read from its body.
pub open spec fn keys_result(namespace: Seq<char>, status: u16, parsed: Option<JsonView>) -> Result<
    KeysPageView,
    KvErrorView,
> {
    if !is_success(status) {
        Err(KvErrorView::RequestFailed(status))
    } else {
        match parsed {
            Some(value) => match key_envelope(value) {
                Some(response) => if response.success {
                    Ok(keys_page(namespace, response))
                } else {
                    Err(KvErrorView::ApiError(joined_errors(response.errors)))
                },
                None => Err(KvErrorView::MalformedResponse),
            },
            None => Err(KvErrorView::MalformedResponse),
        }
    }
}

/// What the answer to a value fetch means, given its status, what was read
/// from its body and the body itself: a body that is not JSON is the value
/// as a JSON string.
pub open spec fn value_result(status: u16, parsed: Option<JsonView>, body: Seq<char>) -> Result<
    JsonView,
    KvErrorView,
> {
    if !is_success(status) {
        Err(KvErrorView::RequestFailed(status))
    } else {
        match parsed {
            Some(value) => Ok(value),
            None => Ok(JsonView::Text(body)),
        }
    }
}

/// A page holds an entry for every key that the provider listed, in the
/// provider's order and none twice over, and it names a next page exactly
/// where the provider named one.
pub proof fn lemma_page_holds_every_key(
    namespace: Seq<char>,
    response: ListResponseView<KeyRecordView>,
)
    ensures
        keys_page(namespace, response).entries.len() == response.result.len(),
        forall|i: int|
            0 <= i < response.result.len() ==> (#[trigger] keys_page(
                namespace,
                response,
            ).entries[i]).key == response.result[i].name,
        keys_page(namespace, response).cursor is None <==> (response.result_info is None
            || response.result_info.unwrap().cursor is None),
{
}

/// Every namespace of a remote listing belongs to the account and to no
/// folder.
pub proof fn lemma_remote_namespaces_well_formed(
    account: Seq<char>,
    records: Seq<NamespaceRecordView>,
)
    ensures
        forall|i: int|
            0 <= i < records.len() ==> (#[trigger] remote_namespaces(
                account,
                records,
            )[i]).well_formed(),
{
}

/// The namespaces of `account_id` that its listed records stand for.
pub fn namespaces_of_records(account_id: &str, records: Vec<CloudflareNamespace>) -> (namespaces:
    Vec<KVNamespace>)
    ensures
        views(namespaces@) == remote_namespaces(account_id@, views(records@)),
{
    let mut namespaces: Vec<KVNamespace> = Vec::new();
    let mut i: usize = 0;
    while i < records.len()
        invariant
            i <= records.len(),
            views(namespaces@) == remote_namespaces(account_id@, views(records@)).take(i as int),
        decreases records.len() - i,
    {
        let namespace = KVNamespace {
            id: records[i].id.clone(),
            entries: Vec::new(),
            name: records[i].title.clone(),
            kind: NamespaceKind::Remote,
            account_id: Some(account_id.to_owned()),
            folder_id: None,
            count: None,
        };
        proof {
            lemma_views_push(namespaces@, namespace);
            assert(namespace@.entries =~= Seq::<EntryView>::empty());
            assert(namespace@ == remote_namespace(account_id@, records@[i as int]@));
        }
        namespaces.push(namespace);
        i += 1;
        assert(views(namespaces@) =~= remote_namespaces(account_id@, views(records@)).take(
            i as int,
        ));
    }
    assert(views(namespaces@) =~= remote_namespaces(account_id@, views(records@)));
    namespaces
}

/// The entries that the listed keys of one page of `namespace_id` stand for.
pub fn entries_of_keys(namespace_id: &str, keys: &Vec<CloudflareKey>) -> (entries: Vec<KVEntry>)
    ensures
        views(entries@) == remote_entries(namespace_id@, views(keys@)),
{
    let mut entries: Vec<KVEntry> = Vec::new();
    let mut i: usize = 0;
    while i < keys.len()
        invariant
            i <= keys.len(),
            views(entries@) == remote_entries(namespace_id@, views(keys@)).take(i as int),
        decreases keys.len() - i,
    {
        let mut id: Vec<char> = Vec::new();
        push_str(&mut id, namespace_id);
        push_str(&mut id, "-");
        push_decimal(&mut id, i as u64);
        let mut blob_id: Vec<char> = Vec::new();
        push_str(&mut blob_id, "remote-");
        push_decimal(&mut blob_id, i as u64);
        let metadata = match &keys[i].metadata {
            Some(metadata) => Some(metadata.to_text()),
            None => None,
        };
        let entry = KVEntry {
            id: string_of(&id),
            key: keys[i].name.clone(),
            blob_id: string_of(&blob_id),
            expiration: keys[i].expiration,
            metadata,
            value: None,
        };
        proof {
            lemma_views_push(entries@, entry);
            assert(entry@.id =~= namespace_id@ + "-"@ + decimal(i as nat));
            assert(entry@.blob_id =~= "remote-"@ + decimal(i as nat));
            assert(entry@ == remote_entry(namespace_id@, i as nat, keys@[i as int]@));
        }
        entries.push(entry);
        i += 1;
        assert(views(entries@) =~= remote_entries(namespace_id@, views(keys@)).take(i as int));
    }
    assert(views(entries@) =~= remote_entries(namespace_id@, views(keys@)));
    entries
}

/// What the answer to a namespace listing of `account_id` means, given its
/// status and what was read from its body.
pub fn namespaces_from(account_id: &str, status: u16, parsed: Option<Json>) -> (outcome: Result<
    Vec<KVNamespace>,
    KvError,
>)
    ensures
        list_result_view(outcome) == namespaces_result(account_id@, status, option_view(parsed)),
{
    if !status_is_success(status) {
        return Err(KvError::RequestFailed(status));
    }
    let value = match parsed {
        Some(value) => value,
        None => {
            return Err(KvError::MalformedResponse);
        },
    };
    match read_namespace_envelope(&value) {
        Some(response) => if response.success {
            Ok(namespaces_of_records(account_id, response.result))
        } else {
            Err(KvError::ApiError(join_errors(&response.errors)))
        },
        None => Err(KvError::MalformedResponse),
    }
}

/// What the answer to a key listing of `namespace_id` means, given its
/// status and what was read from its body.
pub fn keys_from(namespace_id: &str, status: u16, parsed: Option<Json>) -> (outcome: Result<
    CloudflareKeysResponse,
    KvError,
>)
    ensures
        result_view(outcome) == keys_result(namespace_id@, status, option_view(parsed)),
{
    if !status_is_success(status) {
        return Err(KvError::RequestFailed(status));
    }
    let value = match parsed {
        Some(value) => value,
        None => {
            return Err(KvError::MalformedResponse);
        },
    };
    match read_key_envelope(&value) {
        Some(response) => if response.success {
            let entries = entries_of_keys(namespace_id, &response.result);
            let total = match &response.result_info {
                Some(info) => info.count,
                None => response.result.len() as u64,
            };
            let cursor = match response.result_info {
                Some(info) => info.cursor,
                None => None,
            };
            Ok(CloudflareKeysResponse { entries, cursor, total })
        } else {
            Err(KvError::ApiError(join_errors(&response.errors)))
        },
        None => Err(KvError::MalformedResponse),
    }
}

/// What the answer to a value fetch means, given its status, what was read
/// from its body and the body itself.
pub fn value_from(status: u16, parsed: Option<Json>, body: &str) -> (outcome: Result<Json, KvError>)
    ensures
        result_view(outcome) == value_result(status, option_view(parsed), body@),
{
    if !status_is_success(status) {
        return Err(KvError::RequestFailed(status));
    }
    match parsed {
        Some(value) => Ok(value),
        None => Ok(Json::Text(body.to_owned())),
    }
}

/// What `response` means as the answer to a namespace listing of
/// `account_id`.
pub fn read_namespaces_response(account_id: &str, response: &HttpResponse) -> (outcome: Result<
    Vec<KVNamespace>,
    KvError,
>)
    ensures
        list_result_view(outcome) == namespaces_result(
            account_id@,
            response.status,
            json_of_text(response.body@),
        ),
{
    if !status_is_success(response.status) {
        return Err(KvError::RequestFailed(response.status));
    }
    namespaces_from(account_id, response.status, Json::from_text(response.body.as_str()))
}

/// What `response` means as the answer to a key listing of `namespace_id`.
pub fn read_keys_response(namespace_id: &str, response: &HttpResponse) -> (outcome: Result<
    CloudflareKeysResponse,
    KvError,
>)
    ensures
        result_view(outcome) == keys_result(
            namespace_id@,
            response.status,
            json_of_text(response.body@),
        ),
{
    if !status_is_success(response.status) {
        return Err(KvError::RequestFailed(response.status));
    }
    keys_from(namespace_id, response.status, Json::from_text(response.body.as_str()))
}

/// What `response` means as the answer to a value fetch.
pub fn read_value_response(response: &HttpResponse) -> (outcome: Result<Json, KvError>)
    ensures
        result_view(outcome) == value_result(
            response.status,
            json_of_text(response.body@),
            response.body@,
        ),
{
    if !status_is_success(response.status) {
        return Err(KvError::RequestFailed(response.status));
    }
    value_from(
        response.status,
        Json::from_text(response.body.as_str()),
        response.body.as_str(),
    )
}

} // verus!
