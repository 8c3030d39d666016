//! The records of the remote provider's answers.

use crate::json::{Json, JsonView};
use crate::models::kv::{EntryView, KVEntry};
use crate::views::{option_view, views};
use vstd::prelude::*;

verus! {

/// A namespace as the provider lists it.
#[derive(Debug, PartialEq, Eq)]
pub struct CloudflareNamespace {
    pub id: String,
    pub title: String,
}

/// Mathematical model of a [`CloudflareNamespace`].
pub struct NamespaceRecordView {
    pub id: Seq<char>,
    pub title: Seq<char>,
}

impl View for CloudflareNamespace {
    type V = NamespaceRecordView;

    open spec fn view(&self) -> NamespaceRecordView {
        NamespaceRecordView { id: self.id@, title: self.title@ }
    }
}

/// The paging part of an answer.
#[derive(Debug, PartialEq, Eq)]
pub struct CloudflareResultInfo {
    pub count: u64,
    pub cursor: Option<String>,
}

/// Mathematical model of a [`CloudflareResultInfo`].
pub struct ResultInfoView {
    pub count: u64,
    pub cursor: Option<Seq<char>>,
}

impl View for CloudflareResultInfo {
    type V = ResultInfoView;

    open spec fn view(&self) -> ResultInfoView {
        ResultInfoView { count: self.count, cursor: option_view(self.cursor) }
    }
}

/// One error of an answer that reports failure.
#[derive(Debug, PartialEq, Eq)]
pub struct CloudflareError {
    pub code: i32,
    pub message: String,
}

/// Mathematical model of a [`CloudflareError`].
pub struct ApiErrorView {
    pub code: i32,
    pub message: Seq<char>,
}

impl View for CloudflareError {
    type V = ApiErrorView;

    open spec fn view(&self) -> ApiErrorView {
        ApiErrorView { code: self.code, message: self.message@ }
    }
}

/// The envelope of every listing answer.
#[derive(Debug, PartialEq, Eq)]
pub struct CloudflareListResponse<T> {
    pub success: bool,
    pub errors: Vec<CloudflareError>,
    pub messages: Vec<String>,
    pub result: Vec<T>,
    pub result_info: Option<CloudflareResultInfo>,
}

/// Mathematical model of a [`CloudflareListResponse`].
pub struct ListResponseView<R> {
    pub success: bool,
    pub errors: Seq<ApiErrorView>,
    pub messages: Seq<Seq<char>>,
    pub result: Seq<R>,
    pub result_info: Option<ResultInfoView>,
}

impl<T: View> View for CloudflareListResponse<T> {
    type V = ListResponseView<T::V>;

    open spec fn view(&self) -> ListResponseView<T::V> {
        ListResponseView {
            success: self.success,
            errors: views(self.errors@),
            messages: views(self.messages@),
            result: views(self.result@),
            result_info: option_view(self.result_info),
        }
    }
}

/// One page of the keys of a remote namespace.
#[derive(Debug, PartialEq, Eq)]
pub struct CloudflareKeysResponse {
    pub entries: Vec<KVEntry>,
    /// Where the next page starts; `None` after the last page.
    pub cursor: Option<String>,
    pub total: u64,
}

/// Mathematical model of a [`CloudflareKeysResponse`].
pub struct KeysPageView {
    pub entries: Seq<EntryView>,
    pub cursor: Option<Seq<char>>,
    pub total: u64,
}

impl View for CloudflareKeysResponse {
    type V = KeysPageView;

    open spec fn view(&self) -> KeysPageView {
        KeysPageView {
            entries: views(self.entries@),
            cursor: option_view(self.cursor),
            total: self.total,
        }
    }
}

/// A key as the provider lists it.
#[derive(Debug, PartialEq, Eq)]
pub struct CloudflareKey {
    pub name: String,
    pub expiration: Option<i64>,
    pub metadata: Option<Json>,
}

/// Mathematical model of a [`CloudflareKey`].
pub struct KeyRecordView {
    pub name: Seq<char>,
    pub expiration: Option<i64>,
    pub metadata: Option<JsonView>,
}

impl View for CloudflareKey {
    type V = KeyRecordView;

    open spec fn view(&self) -> KeyRecordView {
        KeyRecordView {
            name: self.name@,
            expiration: self.expiration,
            metadata: option_view(self.metadata),
        }
    }
}

} // verus!
