//! Blob files: JSON text that may follow a prefix which is not JSON.

use crate::error::{KvError, KvErrorView};
use crate::json::{json_of_bytes, json_of_text, Json, JsonView};
use crate::views::option_view;
use vstd::prelude::*;
use vstd::slice::slice_subrange;
use vstd::utf8::encode_utf8;

verus! {

/// Whether `byte` is `{` or `[`, the bytes that open a JSON object or array.
pub open spec fn opens_json(byte: u8) -> bool {
    byte == 0x7b || byte == 0x5b
}

/// Whether `start` is where the first `{` or `[` of `raw` stands.
pub open spec fn is_json_start(raw: Seq<u8>, start: int) -> bool {
    &&& 0 <= start < raw.len()
    &&& opens_json(raw[start])
    &&& forall|i: int| 0 <= i < start ==> !opens_json(#[trigger] raw[i])
}

/// Whether `raw` holds a `{` or a `[` at all.
pub open spec fn has_json_start(raw: Seq<u8>) -> bool {
    exists|i: int| 0 <= i < raw.len() && opens_json(#[trigger] raw[i])
}

/// Where the first `{` or `[` of `raw` stands.
pub open spec fn json_start(raw: Seq<u8>) -> int {
    choose|start: int| is_json_start(raw, start)
}

/// The value of a blob file that holds `raw`: what `serde_json` reads from
/// the first `{` or `[` to the end, and `None` where there is no such byte
/// or the rest is not one JSON value.
pub open spec fn decoded(raw: Seq<u8>) -> Option<JsonView> {
    if has_json_start(raw) {
        json_of_bytes(raw.skip(json_start(raw)))
    } else {
        None
    }
}

/// There is one first `{` or `[` at most.
pub proof fn lemma_json_start_is(raw: Seq<u8>, start: int)
    requires
        is_json_start(raw, start),
    ensures
        has_json_start(raw),
        json_start(raw) == start,
{
    let chosen = json_start(raw);
    assert(is_json_start(raw, chosen));
    if chosen < start {
        assert(!opens_json(raw[chosen]));
    }
    if start < chosen {
        assert(!opens_json(raw[start]));
    }
}

/// Where the first `{` or `[` of `raw` stands, if there is one.
pub fn find_json_start(raw: &[u8]) -> (found: Option<usize>)
    ensures
        match found {
            Some(start) => is_json_start(raw@, start as int) && json_start(raw@) == start,
            None => !has_json_start(raw@),
        },
{
    let mut i: usize = 0;
    while i < raw.len()
        invariant
            i <= raw.len(),
            forall|j: int| 0 <= j < i ==> !opens_json(#[trigger] raw@[j]),
        decreases raw.len() - i,
    {
        if raw[i] == 0x7b || raw[i] == 0x5b {
            proof {
                lemma_json_start_is(raw@, i as int);
            }
            return Some(i);
        }
        i += 1;
    }
    None
}

/// The value of a blob file that holds `raw`. A file without JSON in it
/// has no value; that is no error.
pub fn decode(raw: &[u8]) -> (value: Option<Json>)
    ensures
        option_view(value) == decoded(raw@),
{
    match find_json_start(raw) {
        Some(start) => {
            let rest = slice_subrange(raw, start, raw.len());
            assert(rest@ =~= raw@.skip(start as int));
            Json::from_bytes(rest)
        },
        None => None,
    }
}

/// The bytes to write into a blob file for the value `json_text`: the text
/// itself, once it is known to be JSON.
pub fn encode(json_text: &str) -> (bytes: Result<Vec<u8>, KvError>)
    ensures
        match bytes {
            Ok(raw) => json_of_text(json_text@) is Some && raw@ == encode_utf8(json_text@),
            Err(e) => json_of_text(json_text@) is None && e@ == KvErrorView::InvalidJson,
        },
{
    match Json::from_text(json_text) {
        Some(_) => Ok(json_text.as_bytes_vec()),
        None => Err(KvError::InvalidJson),
    }
}

/// A file that opens with `{` or `[` has the value that is read from the
/// whole of it.
pub proof fn lemma_decoded_whole(raw: Seq<u8>)
    requires
        raw.len() > 0,
        opens_json(raw[0]),
    ensures
        decoded(raw) == json_of_bytes(raw),
{
    lemma_json_start_is(raw, 0);
    assert(raw.skip(0) =~= raw);
}

} // verus!
