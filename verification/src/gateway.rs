//! One entry point for both backends: a namespace id says by its shape
//! which backend it belongs to, and the registry gives the folder or the
//! connection that the operation needs there.

use crate::error::{result_view, KvError, KvErrorView};
use crate::models::kv::{ConnectionView, FolderView, LocalFolder, RemoteConnection};
use crate::registry::{Registry, RegistryView};
use crate::text::{
    chars_of, count_digits, decimal, decimal_value, digit_run, is_canonical_decimal, is_digit,
    lemma_canonical_is_written, lemma_decimal_reads_back, lemma_digit_run, lemma_digit_run_bounds,
    push_signed_decimal, push_str, read_decimal, signed_decimal, slice_chars, starts_with,
    string_of,
};
use vstd::prelude::*;

verus! {

/// What opens the id of every local namespace.
pub open spec fn local_marker() -> Seq<char> {
    "folder-"@
}

/// What stands in a local id between the folder's number and the raw name.
pub open spec fn name_marker() -> Seq<char> {
    "-ns-"@
}

/// The id of the local namespace `raw_name` of folder `folder_id`.
pub open spec fn local_id(folder_id: int, raw_name: Seq<char>) -> Seq<char> {
    local_marker() + signed_decimal(folder_id) + name_marker() + raw_name
}

/// Whether `id` opens as the id of a local namespace does.
pub open spec fn has_local_marker(id: Seq<char>) -> bool {
    local_marker().is_prefix_of(id)
}

/// The folder and the raw name that `id` encodes: after the local marker
/// a folder number as [`decimal`] writes it and within `i64`, then the name
/// marker, then the raw name, which is all the rest. `None` for any other
/// shape.
pub open spec fn parse_local(id: Seq<char>) -> Option<(i64, Seq<char>)> {
    let tail = id.skip(local_marker().len() as int);
    let digits = tail.take(digit_run(tail) as int);
    let rest = tail.skip(digit_run(tail) as int);
    if has_local_marker(id) && is_canonical_decimal(digits) && decimal_value(digits) <= i64::MAX
        && name_marker().is_prefix_of(rest) {
        Some((decimal_value(digits) as i64, rest.skip(name_marker().len() as int)))
    } else {
        None
    }
}

/// A namespace as the backends know it.
#[derive(Debug, PartialEq, Eq)]
pub enum NamespaceRef {
    /// The directory `raw_name` in the state of folder `folder_id`.
    Local { folder_id: i64, raw_name: String },
    /// The provider's namespace `namespace_id` of account `account_id`.
    Remote { account_id: String, namespace_id: String },
}

/// Mathematical model of a [`NamespaceRef`].
pub enum NamespaceRefView {
    Local { folder_id: i64, raw_name: Seq<char> },
    Remote { account_id: Seq<char>, namespace_id: Seq<char> },
}

impl View for NamespaceRef {
    type V = NamespaceRefView;

    open spec fn view(&self) -> NamespaceRefView {
        match *self {
            NamespaceRef::Local { folder_id, raw_name } => NamespaceRefView::Local {
                folder_id,
                raw_name: raw_name@,
            },
            NamespaceRef::Remote { account_id, namespace_id } => NamespaceRefView::Remote {
                account_id: account_id@,
                namespace_id: namespace_id@,
            },
        }
    }
}

/// Where the gateway sends an operation on `namespace_id` that a caller
/// asks for on behalf of `account_id`.
pub open spec fn resolved(namespace_id: Seq<char>, account_id: Seq<char>) -> Result<
    NamespaceRefView,
    KvErrorView,
> {
    if has_local_marker(namespace_id) {
        match parse_local(namespace_id) {
            Some((folder_id, raw_name)) => Ok(NamespaceRefView::Local { folder_id, raw_name }),
            None => Err(KvErrorView::InvalidNamespaceId),
        }
    } else {
        Ok(NamespaceRefView::Remote { account_id, namespace_id })
    }
}

/// The directory name that a local operation on `namespace_id` works in: the
/// raw name of an id with the local marker, and any other id as it stands.
pub open spec fn local_raw_name(namespace_id: Seq<char>) -> Result<Seq<char>, KvErrorView> {
    if has_local_marker(namespace_id) {
        match parse_local(namespace_id) {
            Some((_, raw_name)) => Ok(raw_name),
            None => Err(KvErrorView::InvalidNamespaceId),
        }
    } else {
        Ok(namespace_id)
    }
}

/// Reading an id that was written for a folder numbered from zero up gives
/// back the folder and the raw name, whatever separators the name holds.
pub proof fn lemma_parse_reads_local_id(folder_id: i64, raw_name: Seq<char>)
    requires
        folder_id >= 0,
    ensures
        has_local_marker(local_id(folder_id as int, raw_name)),
        parse_local(local_id(folder_id as int, raw_name)) == Some((folder_id, raw_name)),
{
    reveal_strlit("folder-");
    reveal_strlit("-ns-");
    let id = local_id(folder_id as int, raw_name);
    let number = decimal(folder_id as nat);
    lemma_decimal_reads_back(folder_id as nat);
    assert(id.subrange(0, 7) =~= local_marker());
    let tail = id.skip(7);
    assert(tail =~= number + name_marker() + raw_name);
    assert(tail[number.len() as int] == '-');
    assert forall|i: int| 0 <= i < number.len() implies is_digit(#[trigger] tail[i]) by {
        assert(tail[i] == number[i]);
    }
    lemma_digit_run(tail, number.len());
    assert(tail.take(number.len() as int) =~= number);
    let rest = tail.skip(number.len() as int);
    assert(rest =~= name_marker() + raw_name);
    assert(rest.subrange(0, 4) =~= name_marker());
    assert(rest.skip(4) =~= raw_name);
}

/// An id that reads as a local one is the id that is written for the folder
/// and the raw name read from it: no two ids stand for one namespace.
pub proof fn lemma_local_id_writes_parsed(id: Seq<char>)
    requires
        parse_local(id) is Some,
    ensures
        match parse_local(id) {
            Some((folder_id, raw_name)) => local_id(folder_id as int, raw_name) == id,
            None => false,
        },
{
    reveal_strlit("folder-");
    reveal_strlit("-ns-");
    let tail = id.skip(7);
    lemma_digit_run_bounds(tail);
    let n = digit_run(tail) as int;
    let digits = tail.take(n);
    let rest = tail.skip(n);
    lemma_canonical_is_written(digits);
    assert(id =~= id.subrange(0, 7) + tail);
    assert(tail =~= digits + rest);
    assert(rest =~= rest.subrange(0, 4) + rest.skip(4));
}

/// No two namespaces of folders numbered from zero up share an id.
pub proof fn lemma_local_id_is_unique(
    folder_a: i64,
    name_a: Seq<char>,
    folder_b: i64,
    name_b: Seq<char>,
)
    requires
        folder_a >= 0,
        folder_b >= 0,
        local_id(folder_a as int, name_a) == local_id(folder_b as int, name_b),
    ensures
        folder_a == folder_b,
        name_a == name_b,
{
    lemma_parse_reads_local_id(folder_a, name_a);
    lemma_parse_reads_local_id(folder_b, name_b);
}

impl NamespaceRef {
    /// Tells by the shape of `namespace_id` which backend it belongs to: an
    /// id with the local marker is read as a local one, and any other id is
    /// the provider's own, within `account_id`.
    pub fn resolve(namespace_id: &str, account_id: &str) -> (route: Result<NamespaceRef, KvError>)
        ensures
            result_view(route) == resolved(namespace_id@, account_id@),
    {
        let id = chars_of(namespace_id);
        let marker = chars_of("folder-");
        if starts_with(&id, &marker) {
            match read_local(&id) {
                Some((folder_id, raw_name)) => Ok(NamespaceRef::Local { folder_id, raw_name }),
                None => Err(KvError::InvalidNamespaceId),
            }
        } else {
            Ok(
                NamespaceRef::Remote {
                    account_id: account_id.to_owned(),
                    namespace_id: namespace_id.to_owned(),
                },
            )
        }
    }

    /// The id that names this namespace to a caller.
    pub fn id(&self) -> (id: String)
        ensures
            id@ == match self@ {
                NamespaceRefView::Local { folder_id, raw_name } => local_id(
                    folder_id as int,
                    raw_name,
                ),
                NamespaceRefView::Remote { namespace_id, .. } => namespace_id,
            },
    {
        match self {
            NamespaceRef::Local { folder_id, raw_name } => local_namespace_id(
                *folder_id,
                raw_name.as_str(),
            ),
            NamespaceRef::Remote { namespace_id, .. } => namespace_id.clone(),
        }
    }
}

/// Reads `id`, which has the local marker, as a local id.
fn read_local(id: &Vec<char>) -> (parsed: Option<(i64, String)>)
    requires
        has_local_marker(id@),
    ensures
        match parsed {
            Some((folder_id, raw_name)) => parse_local(id@) == Some((folder_id, raw_name@)),
            None => parse_local(id@) is None,
        },
{
    proof {
        reveal_strlit("folder-");
        reveal_strlit("-ns-");
    }
    let start: usize = 7;
    let n = count_digits(id, start);
    let end = start + n;
    let ghost tail = id@.skip(7);
    let ghost digits = tail.take(n as int);
    let ghost rest = tail.skip(n as int);
    proof {
        lemma_digit_run_bounds(tail);
        assert(digits =~= id@.subrange(start as int, end as int));
        assert forall|j: int| start <= j < end implies is_digit(#[trigger] id@[j]) by {
            assert(id@[j] == tail[j - 7]);
        }
        assert(rest =~= id@.skip(end as int));
    }
    if n == 0 || (n > 1 && id[start] == '0') {
        assert(n > 1 ==> digits[0] == id@[7]);
        return None;
    }
    assert(is_canonical_decimal(digits)) by {
        assert(digits[0] == id@[7]);
    }
    let folder_id = match read_decimal(id, start, end, i64::MAX as u64) {
        Some(number) => number as i64,
        None => {
            return None;
        },
    };
    let marker = chars_of("-ns-");
    let after = slice_chars(id, end, id.len());
    assert(after@ =~= rest);
    if !starts_with(&after, &marker) {
        return None;
    }
    let raw_name = slice_chars(&after, 4, after.len());
    assert(raw_name@ =~= rest.skip(4));
    Some((folder_id, string_of(&raw_name)))
}

/// The id of the local namespace `raw_name` of folder `folder_id`.
pub fn local_namespace_id(folder_id: i64, raw_name: &str) -> (id: String)
    ensures
        id@ == local_id(folder_id as int, raw_name@),
{
    let mut out: Vec<char> = Vec::new();
    push_str(&mut out, "folder-");
    push_signed_decimal(&mut out, folder_id);
    push_str(&mut out, "-ns-");
    push_str(&mut out, raw_name);
    assert(out@ =~= local_id(folder_id as int, raw_name@));
    string_of(&out)
}

/// The directory name that a local operation on `namespace_id` works in.
pub fn raw_name_of(namespace_id: &str) -> (name: Result<String, KvError>)
    ensures
        result_view(name) == local_raw_name(namespace_id@),
{
    let id = chars_of(namespace_id);
    let marker = chars_of("folder-");
    if starts_with(&id, &marker) {
        match read_local(&id) {
            Some((_, raw_name)) => Ok(raw_name),
            None => Err(KvError::InvalidNamespaceId),
        }
    } else {
        Ok(namespace_id.to_owned())
    }
}

/// Where an operation goes, with what it needs of the registry: the folder
/// of a local namespace, or the connection of a remote one.
#[derive(Debug)]
pub enum Route {
    /// To the directory `raw_name` in the state of `folder`.
    Local { folder: LocalFolder, raw_name: String },
    /// To the provider's namespace `namespace_id`, by `connection`.
    Remote { connection: RemoteConnection, namespace_id: String },
}

/// Mathematical model of a [`Route`].
pub enum RouteView {
    Local { folder: FolderView, raw_name: Seq<char> },
    Remote { connection: ConnectionView, namespace_id: Seq<char> },
}

impl View for Route {
    type V = RouteView;

    open spec fn view(&self) -> RouteView {
        match *self {
            Route::Local { folder, raw_name } => RouteView::Local {
                folder: folder@,
                raw_name: raw_name@,
            },
            Route::Remote { connection, namespace_id } => RouteView::Remote {
                connection: connection@,
                namespace_id: namespace_id@,
            },
        }
    }
}

/// Where an operation on `namespace_id` goes that a caller asks for on
/// behalf of `account_id`, given what `registry` knows: a local id goes to
/// its folder, which has to be known, and any other id to the connection of
/// the account, which has to be known too.
pub open spec fn routed(
    registry: RegistryView,
    namespace_id: Seq<char>,
    account_id: Seq<char>,
) -> Result<RouteView, KvErrorView> {
    match resolved(namespace_id, account_id) {
        Ok(NamespaceRefView::Local { folder_id, raw_name }) => match registry.folder(folder_id) {
            Some(folder) => Ok(RouteView::Local { folder, raw_name }),
            None => Err(KvErrorView::FolderNotFound),
        },
        Ok(NamespaceRefView::Remote { account_id, namespace_id }) => match registry.connection(
            account_id,
        ) {
            Some(connection) => Ok(RouteView::Remote { connection, namespace_id }),
            None => Err(KvErrorView::ConnectionNotFound),
        },
        Err(e) => Err(e),
    }
}

/// Finds where an operation on `namespace_id` goes that a caller asks for
/// on behalf of `account_id`.
pub fn route(registry: &Registry, namespace_id: &str, account_id: &str) -> (way: Result<
    Route,
    KvError,
>)
    ensures
        result_view(way) == routed(registry@, namespace_id@, account_id@),
{
    match NamespaceRef::resolve(namespace_id, account_id) {
        Ok(NamespaceRef::Local { folder_id, raw_name }) => match registry.folder(folder_id) {
            Ok(folder) => Ok(Route::Local { folder, raw_name }),
            Err(e) => Err(e),
        },
        Ok(NamespaceRef::Remote { account_id, namespace_id }) => match registry.connection(
            account_id.as_str(),
        ) {
            Ok(connection) => Ok(Route::Remote { connection, namespace_id }),
            Err(e) => Err(e),
        },
        Err(e) => Err(e),
    }
}

} // verus!
