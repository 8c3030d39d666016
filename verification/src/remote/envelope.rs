//! The provider's answer envelope, read from a JSON value.

use crate::json::{Json, JsonView};
use crate::models::cloudflare::{
    ApiErrorView, CloudflareError, CloudflareKey, CloudflareListResponse, CloudflareNamespace,
    CloudflareResultInfo, KeyRecordView, ListResponseView, NamespaceRecordView, ResultInfoView,
};
use crate::views::{lemma_views_push, option_view, views};
use vstd::prelude::*;

verus! {

/// All the values of `items`, where each of them is there.
pub open spec fn collect<R>(items: Seq<Option<R>>) -> Option<Seq<R>> {
    if forall|i: int| 0 <= i < items.len() ==> (#[trigger] items[i]) is Some {
        Some(Seq::new(items.len(), |i: int| items[i].unwrap()))
    } else {
        None
    }
}

/// The member `name` of `value`, where it is there and not `null`.
pub open spec fn present_member(value: JsonView, name: Seq<char>) -> Option<JsonView> {
    match value.member(name) {
        Some(JsonView::Null) | None => None,
        Some(member) => Some(member),
    }
}

/// One error of an envelope: an object with an integer `code` that fits 32
/// bits and a string `message`.
pub open spec fn error_record(value: JsonView) -> Option<ApiErrorView> {
    match (value.member("code"@), value.member("message"@)) {
        (Some(code), Some(message)) => match (code.signed(), message.text()) {
            (Some(code), Some(message)) => if i32::MIN <= code <= i32::MAX {
                Some(ApiErrorView { code: code as i32, message })
            } else {
                None
            },
            _ => None,
        },
        _ => None,
    }
}

/// One listed namespace: an object with strings `id` and `title`.
pub open spec fn namespace_record(value: JsonView) -> Option<NamespaceRecordView> {
    match (value.member("id"@), value.member("title"@)) {
        (Some(id), Some(title)) => match (id.text(), title.text()) {
            (Some(id), Some(title)) => Some(NamespaceRecordView { id, title }),
            _ => None,
        },
        _ => None,
    }
}

/// One listed key: an object with a string `name`, an integer `expiration`
/// that may be missing or `null`, and any `metadata`, which may be missing
/// or `null` too.
pub open spec fn key_record(value: JsonView) -> Option<KeyRecordView> {
    match value.member("name"@) {
        Some(name) => match name.text() {
            Some(name) => match present_member(value, "expiration"@) {
                Some(expiration) => match expiration.signed() {
                    Some(seconds) => Some(
                        KeyRecordView {
                            name,
                            expiration: Some(seconds),
                            metadata: present_member(value, "metadata"@),
                        },
                    ),
                    None => None,
                },
                None => Some(
                    KeyRecordView {
                        name,
                        expiration: None,
                        metadata: present_member(value, "metadata"@),
                    },
                ),
            },
            None => None,
        },
        None => None,
    }
}

/// The paging part: an object with an unsigned `count` and a string
/// `cursor` that may be missing or `null`.
pub open spec fn result_info_record(value: JsonView) -> Option<ResultInfoView> {
    match value.member("count"@) {
        Some(count) => match count.unsigned() {
            Some(count) => match present_member(value, "cursor"@) {
                Some(cursor) => match cursor.text() {
                    Some(cursor) => Some(ResultInfoView { count, cursor: Some(cursor) }),
                    None => None,
                },
                None => Some(ResultInfoView { count, cursor: None }),
            },
            None => None,
        },
        None => None,
    }
}

/// The errors that the elements of `items` are, where each of them is one.
pub open spec fn error_records(items: Seq<JsonView>) -> Option<Seq<ApiErrorView>> {
    collect(Seq::new(items.len(), |i: int| error_record(items[i])))
}

/// The strings that the elements of `items` are, where each of them is one.
pub open spec fn text_records(items: Seq<JsonView>) -> Option<Seq<Seq<char>>> {
    collect(Seq::new(items.len(), |i: int| items[i].text()))
}

/// The namespaces that the elements of `items` are, where each of them is
/// one.
pub open spec fn namespace_records(items: Seq<JsonView>) -> Option<Seq<NamespaceRecordView>> {
    collect(Seq::new(items.len(), |i: int| namespace_record(items[i])))
}

/// The keys that the elements of `items` are, where each of them is one.
pub open spec fn key_records(items: Seq<JsonView>) -> Option<Seq<KeyRecordView>> {
    collect(Seq::new(items.len(), |i: int| key_record(items[i])))
}

/// The elements of the array member `name` of `value`.
pub open spec fn array_member(value: JsonView, name: Seq<char>) -> Option<Seq<JsonView>> {
    match value.member(name) {
        Some(member) => member.elements(),
        None => None,
    }
}

/// The envelope that `value` is, with its `result` read by `records`:
/// `success` is a truth value, `errors` an array of errors, `messages` an
/// array of strings, `result` an array, and `result_info`, where it is there
/// and not `null`, the paging part. Members beyond these are ignored.
pub open spec fn envelope<R>(value: JsonView, records: Option<Seq<R>>) -> Option<
    ListResponseView<R>,
> {
    match (
        value.member("success"@),
        array_member(value, "errors"@),
        array_member(value, "messages"@),
        records,
    ) {
        (Some(success), Some(errors), Some(messages), Some(result)) => match (
            success.truth(),
            error_records(errors),
            text_records(messages),
        ) {
            (Some(success), Some(errors), Some(messages)) => match present_member(
                value,
                "result_info"@,
            ) {
                Some(info) => match result_info_record(info) {
                    Some(info) => Some(
                        ListResponseView {
                            success,
                            errors,
                            messages,
                            result,
                            result_info: Some(info),
                        },
                    ),
                    None => None,
                },
                None => Some(
                    ListResponseView { success, errors, messages, result, result_info: None },
                ),
            },
            _ => None,
        },
        _ => None,
    }
}

/// The envelope of a namespace listing that `value` is.
pub open spec fn namespace_envelope(value: JsonView) -> Option<
    ListResponseView<NamespaceRecordView>,
> {
    envelope(
        value,
        match array_member(value, "result"@) {
            Some(items) => namespace_records(items),
            None => None,
        },
    )
}

/// The envelope of a key listing that `value` is.
pub open spec fn key_envelope(value: JsonView) -> Option<ListResponseView<KeyRecordView>> {
    envelope(
        value,
        match array_member(value, "result"@) {
            Some(items) => key_records(items),
            None => None,
        },
    )
}

/// The member `name` of `value`, where it is there and not `null`.
pub fn read_present_member<'a>(value: &'a Json, name: &str) -> (found: Option<&'a Json>)
    ensures
        option_view(found) == present_member(value@, name@),
{
    match value.member(name) {
        Some(member) => if member.is_null() {
            None
        } else {
            Some(member)
        },
        None => None,
    }
}

/// The elements of the array member `name` of `value`.
pub fn read_array_member<'a>(value: &'a Json, name: &str) -> (found: Option<&'a Vec<Json>>)
    ensures
        match found {
            Some(items) => array_member(value@, name@) == Some(views(items@)),
            None => array_member(value@, name@) is None,
        },
{
    match value.member(name) {
        Some(member) => member.elements(),
        None => None,
    }
}

/// Reads one error of an envelope.
pub fn read_error(value: &Json) -> (record: Option<CloudflareError>)
    ensures
        option_view(record) == error_record(value@),
{
    let code = match value.member("code") {
        Some(code) => code,
        None => {
            return None;
        },
    };
    let message = match value.member("message") {
        Some(message) => message,
        None => {
            return None;
        },
    };
    match (code.signed(), message.text()) {
        (Some(code), Some(message)) => if -0x8000_0000i64 <= code && code <= 0x7fff_ffffi64 {
            Some(CloudflareError { code: code as i32, message: message.clone() })
        } else {
            None
        },
        _ => None,
    }
}

/// Reads one listed namespace.
pub fn read_namespace(value: &Json) -> (record: Option<CloudflareNamespace>)
    ensures
        option_view(record) == namespace_record(value@),
{
    let id = match value.member("id") {
        Some(id) => id,
        None => {
            return None;
        },
    };
    let title = match value.member("title") {
        Some(title) => title,
        None => {
            return None;
        },
    };
    match (id.text(), title.text()) {
        (Some(id), Some(title)) => Some(
            CloudflareNamespace { id: id.clone(), title: title.clone() },
        ),
        _ => None,
    }
}

/// Reads the paging part of an envelope.
pub fn read_result_info(value: &Json) -> (record: Option<CloudflareResultInfo>)
    ensures
        option_view(record) == result_info_record(value@),
{
    let count = match value.member("count") {
        Some(count) => match count.unsigned() {
            Some(count) => count,
            None => {
                return None;
            },
        },
        None => {
            return None;
        },
    };
    match read_present_member(value, "cursor") {
        Some(cursor) => match cursor.text() {
            Some(cursor) => Some(CloudflareResultInfo { count, cursor: Some(cursor.clone()) }),
            None => None,
        },
        None => Some(CloudflareResultInfo { count, cursor: None }),
    }
}

/// Reads every element of `items` as an error.
pub fn read_errors(items: &Vec<Json>) -> (records: Option<Vec<CloudflareError>>)
    ensures
        match records {
            Some(list) => error_records(views(items@)) == Some(views(list@)),
            None => error_records(views(items@)) is None,
        },
{
    let ghost source = Seq::new(items@.len(), |i: int| error_record(views(items@)[i]));
    let mut list: Vec<CloudflareError> = Vec::new();
    let mut i: usize = 0;
    while i < items.len()
        invariant
            i <= items.len(),
            source == Seq::new(items@.len(), |i: int| error_record(views(items@)[i])),
            forall|k: int| 0 <= k < i ==> (#[trigger] source[k]) is Some,
            views(list@) == Seq::new(i as nat, |k: int| source[k].unwrap()),
        decreases items.len() - i,
    {
        match read_error(&items[i]) {
            Some(record) => {
                proof {
                    lemma_views_push(list@, record);
                }
                list.push(record);
                assert(views(list@) =~= Seq::new((i + 1) as nat, |k: int| source[k].unwrap()));
            },
            None => {
                assert(source[i as int] is None);
                return None;
            },
        }
        i += 1;
    }
    assert(views(list@) =~= Seq::new(source.len(), |k: int| source[k].unwrap()));
    Some(list)
}

/// Reads one listed key.
pub fn read_key(value: &Json) -> (record: Option<CloudflareKey>)
    ensures
        option_view(record) == key_record(value@),
{
    let name = match value.member("name") {
        Some(name) => match name.text() {
            Some(name) => name.clone(),
            None => {
                return None;
            },
        },
        None => {
            return None;
        },
    };
    let expiration = match read_present_member(value, "expiration") {
        Some(expiration) => match expiration.signed() {
            Some(seconds) => Some(seconds),
            None => {
                return None;
            },
        },
        None => None,
    };
    let metadata = match read_present_member(value, "metadata") {
        Some(metadata) => Some(metadata.duplicate()),
        None => None,
    };
    Some(CloudflareKey { name, expiration, metadata })
}

/// The string that `value` is, copied.
pub fn read_text(value: &Json) -> (record: Option<String>)
    ensures
        option_view(record) == value@.text(),
{
    match value.text() {
        Some(text) => Some(text.clone()),
        None => None,
    }
}

/// Reads every element of `items` as a string.
pub fn read_texts(items: &Vec<Json>) -> (records: Option<Vec<String>>)
    ensures
        match records {
            Some(list) => text_records(views(items@)) == Some(views(list@)),
            None => text_records(views(items@)) is None,
        },
{
    let ghost source = Seq::new(items@.len(), |i: int| views(items@)[i].text());
    let mut list: Vec<String> = Vec::new();
    let mut i: usize = 0;
    while i < items.len()
        invariant
            i <= items.len(),
            source == Seq::new(items@.len(), |i: int| views(items@)[i].text()),
            forall|k: int| 0 <= k < i ==> (#[trigger] source[k]) is Some,
            views(list@) == Seq::new(i as nat, |k: int| source[k].unwrap()),
        decreases items.len() - i,
    {
        match read_text(&items[i]) {
            Some(record) => {
                proof {
                    lemma_views_push(list@, record);
                }
                list.push(record);
                assert(views(list@) =~= Seq::new((i + 1) as nat, |k: int| source[k].unwrap()));
            },
            None => {
                assert(source[i as int] is None);
                return None;
            },
        }
        i += 1;
    }
    assert(views(list@) =~= Seq::new(source.len(), |k: int| source[k].unwrap()));
    Some(list)
}

/// Reads every element of `items` as a listed namespace.
pub fn read_namespaces(items: &Vec<Json>) -> (records: Option<Vec<CloudflareNamespace>>)
    ensures
        match records {
            Some(list) => namespace_records(views(items@)) == Some(views(list@)),
            None => namespace_records(views(items@)) is None,
        },
{
    let ghost source = Seq::new(items@.len(), |i: int| namespace_record(views(items@)[i]));
    let mut list: Vec<CloudflareNamespace> = Vec::new();
    let mut i: usize = 0;
    while i < items.len()
        invariant
            i <= items.len(),
            source == Seq::new(items@.len(), |i: int| namespace_record(views(items@)[i])),
            forall|k: int| 0 <= k < i ==> (#[trigger] source[k]) is Some,
            views(list@) == Seq::new(i as nat, |k: int| source[k].unwrap()),
        decreases items.len() - i,
    {
        match read_namespace(&items[i]) {
            Some(record) => {
                proof {
                    lemma_views_push(list@, record);
                }
                list.push(record);
                assert(views(list@) =~= Seq::new((i + 1) as nat, |k: int| source[k].unwrap()));
            },
            None => {
                assert(source[i as int] is None);
                return None;
            },
        }
        i += 1;
    }
    assert(views(list@) =~= Seq::new(source.len(), |k: int| source[k].unwrap()));
    Some(list)
}

/// Reads every element of `items` as a listed key.
pub fn read_keys(items: &Vec<Json>) -> (records: Option<Vec<CloudflareKey>>)
    ensures
        match records {
            Some(list) => key_records(views(items@)) == Some(views(list@)),
            None => key_records(views(items@)) is None,
        },
{
    let ghost source = Seq::new(items@.len(), |i: int| key_record(views(items@)[i]));
    let mut list: Vec<CloudflareKey> = Vec::new();
    let mut i: usize = 0;
    while i < items.len()
        invariant
            i <= items.len(),
            source == Seq::new(items@.len(), |i: int| key_record(views(items@)[i])),
            forall|k: int| 0 <= k < i ==> (#[trigger] source[k]) is Some,
            views(list@) == Seq::new(i as nat, |k: int| source[k].unwrap()),
        decreases items.len() - i,
    {
        match read_key(&items[i]) {
            Some(record) => {
                proof {
                    lemma_views_push(list@, record);
                }
                list.push(record);
                assert(views(list@) =~= Seq::new((i + 1) as nat, |k: int| source[k].unwrap()));
            },
            None => {
                assert(source[i as int] is None);
                return None;
            },
        }
        i += 1;
    }
    assert(views(list@) =~= Seq::new(source.len(), |k: int| source[k].unwrap()));
    Some(list)
}

/// Reads `value` as an envelope whose `result` has been read already.
pub fn read_envelope<T: View>(value: &Json, result: Option<Vec<T>>) -> (response: Option<
    CloudflareListResponse<T>,
>)
    ensures
        option_view(response) == envelope(
            value@,
            match result {
                Some(list) => Some(views(list@)),
                None => None,
            },
        ),
{
    let success = match value.member("success") {
        Some(success) => match success.truth() {
            Some(success) => success,
            None => {
                return None;
            },
        },
        None => {
            return None;
        },
    };
    let errors = match read_array_member(value, "errors") {
        Some(items) => match read_errors(items) {
            Some(errors) => errors,
            None => {
                return None;
            },
        },
        None => {
            return None;
        },
    };
    let messages = match read_array_member(value, "messages") {
        Some(items) => match read_texts(items) {
            Some(messages) => messages,
            None => {
                return None;
            },
        },
        None => {
            return None;
        },
    };
    let result = match result {
        Some(result) => result,
        None => {
            return None;
        },
    };
    let result_info = match read_present_member(value, "result_info") {
        Some(info) => match read_result_info(info) {
            Some(info) => Some(info),
            None => {
                return None;
            },
        },
        None => None,
    };
    Some(CloudflareListResponse { success, errors, messages, result, result_info })
}

/// Reads `value` as the envelope of a namespace listing.
pub fn read_namespace_envelope(value: &Json) -> (response: Option<
    CloudflareListResponse<CloudflareNamespace>,
>)
    ensures
        option_view(response) == namespace_envelope(value@),
{
    let result = match read_array_member(value, "result") {
        Some(items) => read_namespaces(items),
        None => None,
    };
    read_envelope(value, result)
}

/// Reads `value` as the envelope of a key listing.
pub fn read_key_envelope(value: &Json) -> (response: Option<CloudflareListResponse<CloudflareKey>>)
    ensures
        option_view(response) == key_envelope(value@),
{
    let result = match read_array_member(value, "result") {
        Some(items) => read_keys(items),
        None => None,
    };
    read_envelope(value, result)
}

} // verus!
