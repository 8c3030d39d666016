//! The requests that the remote operations send.

use crate::error::{result_view, KvError, KvErrorView};
use crate::json::{json_of_text, text_of_json, Json, JsonView};
use crate::models::kv::RemoteConnection;
use crate::text::{push_str, string_of};
use crate::views::{lemma_views_push, views};
use vstd::prelude::*;

verus! {

/// The HTTP methods that the provider's interface uses.
#[derive(Debug, Clone, Copy, PartialEq, Eq, Structural)]
pub enum HttpMethod {
    Get,
    Put,
    Post,
    Delete,
}

/// One request to the provider, authenticated by a bearer token. A request
/// with a body sends it as JSON content.
#[derive(Debug, PartialEq, Eq)]
pub struct HttpRequest {
    pub method: HttpMethod,
    pub url: String,
    pub bearer_token: String,
    pub json_body: Option<String>,
}

/// Mathematical model of an [`HttpRequest`].
pub struct RequestView {
    pub method: HttpMethod,
    pub url: Seq<char>,
    pub bearer_token: Seq<char>,
    pub json_body: Option<Seq<char>>,
}

impl View for HttpRequest {
    type V = RequestView;

    open spec fn view(&self) -> RequestView {
        RequestView {
            method: self.method,
            url: self.url@,
            bearer_token: self.bearer_token@,
            json_body: match self.json_body {
                Some(body) => Some(body@),
                None => None,
            },
        }
    }
}

/// How many keys one page of a key listing holds at most.
pub open spec fn page_limit() -> Seq<char> {
    "1000"@
}

/// Where the namespaces of `account` are listed.
pub open spec fn namespaces_url(account: Seq<char>) -> Seq<char> {
    "https://api.cloudflare.com/client/v4/accounts/"@ + account + "/storage/kv/namespaces"@
}

/// Where the namespace `namespace` of `account` lives.
pub open spec fn namespace_url(account: Seq<char>, namespace: Seq<char>) -> Seq<char> {
    namespaces_url(account) + "/"@ + namespace
}

/// Where one page of the keys of a namespace is listed: the page that
/// starts at `cursor` where one is given, the first page else.
pub open spec fn keys_url(
    account: Seq<char>,
    namespace: Seq<char>,
    cursor: Option<Seq<char>>,
) -> Seq<char> {
    namespace_url(account, namespace) + "/keys?limit="@ + page_limit() + match cursor {
        Some(cursor) => "&cursor="@ + cursor,
        None => Seq::empty(),
    }
}

/// Where the value of `key` lives.
pub open spec fn value_url(account: Seq<char>, namespace: Seq<char>, key: Seq<char>) -> Seq<char> {
    namespace_url(account, namespace) + "/values/"@ + key
}

/// Where several keys are deleted at once.
pub open spec fn bulk_delete_url(account: Seq<char>, namespace: Seq<char>) -> Seq<char> {
    namespace_url(account, namespace) + "/bulk/delete"@
}

/// A request of `connection`'s account without a body.
pub open spec fn plain_request(
    method: HttpMethod,
    url: Seq<char>,
    connection: RemoteConnection,
) -> RequestView {
    RequestView { method, url, bearer_token: connection.api_token@, json_body: None }
}

/// A request of `connection`'s account that sends `body` as JSON content.
pub open spec fn json_request(
    method: HttpMethod,
    url: Seq<char>,
    connection: RemoteConnection,
    body: Seq<char>,
) -> RequestView {
    RequestView { method, url, bearer_token: connection.api_token@, json_body: Some(body) }
}

/// The JSON array of the strings `keys`.
pub open spec fn key_array(keys: Seq<Seq<char>>) -> JsonView {
    JsonView::Array(Seq::new(keys.len(), |i: int| JsonView::Text(keys[i])))
}

/// The request that deletes `keys`: one key is deleted at its own address,
/// any other number of keys at the bulk address, which takes them as a JSON
/// array.
pub open spec fn delete_request(
    connection: RemoteConnection,
    namespace: Seq<char>,
    keys: Seq<Seq<char>>,
) -> RequestView {
    if keys.len() == 1 {
        plain_request(
            HttpMethod::Delete,
            value_url(connection.account_id@, namespace, keys[0]),
            connection,
        )
    } else {
        json_request(
            HttpMethod::Post,
            bulk_delete_url(connection.account_id@, namespace),
            connection,
            text_of_json(key_array(keys)),
        )
    }
}

/// Appends the address of a namespace to `out`.
fn push_namespace_url(out: &mut Vec<char>, account: &str, namespace: &str)
    ensures
        final(out)@ == old(out)@ + namespace_url(account@, namespace@),
{
    push_str(out, "https://api.cloudflare.com/client/v4/accounts/");
    push_str(out, account);
    push_str(out, "/storage/kv/namespaces");
    push_str(out, "/");
    push_str(out, namespace);
    assert(final(out)@ =~= old(out)@ + namespace_url(account@, namespace@));
}

/// The request that lists the namespaces of the account. The same request
/// probes whether the token is valid.
pub fn list_namespaces_request(connection: &RemoteConnection) -> (request: HttpRequest)
    ensures
        request@ == plain_request(
            HttpMethod::Get,
            namespaces_url(connection.account_id@),
            *connection,
        ),
{
    let mut url: Vec<char> = Vec::new();
    push_str(&mut url, "https://api.cloudflare.com/client/v4/accounts/");
    push_str(&mut url, connection.account_id.as_str());
    push_str(&mut url, "/storage/kv/namespaces");
    assert(url@ =~= namespaces_url(connection.account_id@));
    HttpRequest {
        method: HttpMethod::Get,
        url: string_of(&url),
        bearer_token: connection.api_token.clone(),
        json_body: None,
    }
}

/// The request that lists one page of the keys of `namespace`. The cursor
/// is sent only where one is given.
pub fn list_keys_request(
    connection: &RemoteConnection,
    namespace: &str,
    cursor: Option<&str>,
) -> (request: HttpRequest)
    ensures
        request@ == plain_request(
            HttpMethod::Get,
            keys_url(
                connection.account_id@,
                namespace@,
                match cursor {
                    Some(c) => Some(c@),
                    None => None,
                },
            ),
            *connection,
        ),
{
    let mut url: Vec<char> = Vec::new();
    push_namespace_url(&mut url, connection.account_id.as_str(), namespace);
    push_str(&mut url, "/keys?limit=");
    push_str(&mut url, "1000");
    match cursor {
        Some(c) => {
            push_str(&mut url, "&cursor=");
            push_str(&mut url, c);
            assert(url@ =~= keys_url(connection.account_id@, namespace@, Some(c@)));
        },
        None => {
            assert(url@ =~= keys_url(connection.account_id@, namespace@, None));
        },
    }
    HttpRequest {
        method: HttpMethod::Get,
        url: string_of(&url),
        bearer_token: connection.api_token.clone(),
        json_body: None,
    }
}

/// The address of the value of `key`.
fn value_address(connection: &RemoteConnection, namespace: &str, key: &str) -> (url: String)
    ensures
        url@ == value_url(connection.account_id@, namespace@, key@),
{
    let mut url: Vec<char> = Vec::new();
    push_namespace_url(&mut url, connection.account_id.as_str(), namespace);
    push_str(&mut url, "/values/");
    push_str(&mut url, key);
    assert(url@ =~= value_url(connection.account_id@, namespace@, key@));
    string_of(&url)
}

/// The request that fetches the value of `key`.
pub fn get_value_request(connection: &RemoteConnection, namespace: &str, key: &str) -> (request:
    HttpRequest)
    ensures
        request@ == plain_request(
            HttpMethod::Get,
            value_url(connection.account_id@, namespace@, key@),
            *connection,
        ),
{
    HttpRequest {
        method: HttpMethod::Get,
        url: value_address(connection, namespace, key),
        bearer_token: connection.api_token.clone(),
        json_body: None,
    }
}

/// The request that stores the JSON text `value` under `key`. A text that
/// is not JSON is refused here, before anything is sent.
pub fn put_value_request(
    connection: &RemoteConnection,
    namespace: &str,
    key: &str,
    value: &str,
) -> (request: Result<HttpRequest, KvError>)
    ensures
        result_view(request) == if json_of_text(value@) is Some {
            Ok::<RequestView, KvErrorView>(
                json_request(
                    HttpMethod::Put,
                    value_url(connection.account_id@, namespace@, key@),
                    *connection,
                    value@,
                ),
            )
        } else {
            Err::<RequestView, KvErrorView>(KvErrorView::InvalidJson)
        },
{
    match Json::from_text(value) {
        Some(_) => Ok(
            HttpRequest {
                method: HttpMethod::Put,
                url: value_address(connection, namespace, key),
                bearer_token: connection.api_token.clone(),
                json_body: Some(value.to_owned()),
            },
        ),
        None => Err(KvError::InvalidJson),
    }
}

/// The request that deletes `keys`.
pub fn delete_keys_request(
    connection: &RemoteConnection,
    namespace: &str,
    keys: &Vec<String>,
) -> (request: HttpRequest)
    ensures
        request@ == delete_request(*connection, namespace@, views(keys@)),
{
    if keys.len() == 1 {
        HttpRequest {
            method: HttpMethod::Delete,
            url: value_address(connection, namespace, keys[0].as_str()),
            bearer_token: connection.api_token.clone(),
            json_body: None,
        }
    } else {
        let mut url: Vec<char> = Vec::new();
        push_namespace_url(&mut url, connection.account_id.as_str(), namespace);
        push_str(&mut url, "/bulk/delete");
        assert(url@ =~= bulk_delete_url(connection.account_id@, namespace@));
        let mut items: Vec<Json> = Vec::new();
        let mut i: usize = 0;
        while i < keys.len()
            invariant
                i <= keys.len(),
                views(items@) == Seq::new(i as nat, |k: int| JsonView::Text(keys@[k]@)),
            decreases keys.len() - i,
        {
            let item = Json::Text(keys[i].clone());
            proof {
                lemma_views_push(items@, item);
            }
            items.push(item);
            i += 1;
            assert(views(items@) =~= Seq::new(i as nat, |k: int| JsonView::Text(keys@[k]@)));
        }
        let body = Json::Array(items);
        proof {
            crate::json::lemma_array_view(items);
            assert(views(items@) =~= key_array(views(keys@))->Array_0);
        }
        HttpRequest {
            method: HttpMethod::Post,
            url: string_of(&url),
            bearer_token: connection.api_token.clone(),
            json_body: Some(body.to_text()),
        }
    }
}

} // verus!
