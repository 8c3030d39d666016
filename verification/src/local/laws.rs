//! What holds of the local operations taken together.

use crate::codec::{decoded, lemma_decoded_whole, opens_json};
use crate::error::KvErrorView;
use crate::gateway::{lemma_parse_reads_local_id, local_id, local_raw_name, parse_local};
use crate::json::{json_of_text, JsonView};
use crate::local::catalog::{blob_id_of, has_key, is_namespace_dir, RowView};
use crate::local::listing::{
    blob_value, catalog_rows, lemma_listing_is_partial, listing_result, local_entry,
    local_namespace, surveyed, visit_outcome, BlobView, FolderScanView, SkippedView,
};
use crate::local::store::{
    blob_position, dir_position, lemma_blob_position, lemma_first_blob, lemma_first_dir,
    rows_without, StoreView,
};
use crate::models::kv::NamespaceView;
use vstd::prelude::*;
use vstd::utf8::{encode_scalar, encode_utf8};

verus! {

/// A root without a `kv` directory gives an error, never a listing, not
/// even a part of one.
pub proof fn lemma_missing_root_is_no_listing(folder_id: i64)
    ensures
        listing_result(folder_id, FolderScanView::Missing) == Err::<
            Seq<NamespaceView>,
            KvErrorView,
        >(KvErrorView::NotAKvRoot),
{
}

/// Every namespace of a local listing belongs to its folder and to no
/// account, and its id reads back as the folder and the directory name.
pub proof fn lemma_local_namespace_well_formed(
    folder_id: i64,
    raw_name: Seq<char>,
    rows: Seq<RowView>,
    blobs: Seq<BlobView>,
)
    ensures
        local_namespace(folder_id, raw_name, rows, blobs).well_formed(),
        local_namespace(folder_id, raw_name, rows, blobs).entries.len() == rows.len(),
        folder_id >= 0 ==> parse_local(local_namespace(folder_id, raw_name, rows, blobs).id)
            == Some((folder_id, raw_name)),
{
    if folder_id >= 0 {
        lemma_parse_reads_local_id(folder_id, raw_name);
    }
}

/// The first row for a key is one of the rows, and it holds the blob id
/// that the catalog gives for the key.
pub proof fn lemma_blob_id_has_row(rows: Seq<RowView>, key: Seq<char>)
    requires
        blob_id_of(rows, key) is Some,
    ensures
        exists|i: int|
            0 <= i < rows.len() && (#[trigger] rows[i]).key == key && rows[i].blob_id
                == blob_id_of(rows, key).unwrap(),
    decreases rows.len(),
{
    if rows[0].key == key {
        assert(rows[0].blob_id == blob_id_of(rows, key).unwrap());
    } else {
        let rest = rows.drop_first();
        lemma_blob_id_has_row(rest, key);
        let i = choose|i: int|
            0 <= i < rest.len() && (#[trigger] rest[i]).key == key && rest[i].blob_id
                == blob_id_of(rest, key).unwrap();
        assert(rows[i + 1] == rest[i]);
    }
}

/// A text that opens with `{` or `[` is written as bytes that open so.
pub proof fn lemma_opener_is_first_byte(value: Seq<char>)
    requires
        value.len() > 0,
        value[0] == '{' || value[0] == '[',
    ensures
        encode_utf8(value).len() > 0,
        opens_json(encode_utf8(value)[0]),
{
    assert((0x7bu32 & 0x7f) as u8 == 0x7b) by (bit_vector);
    assert((0x5bu32 & 0x7f) as u8 == 0x5b) by (bit_vector);
    assert('{' as u32 == 0x7b);
    assert('[' as u32 == 0x5b);
    assert(encode_scalar(value[0] as u32).len() == 1);
    assert(encode_utf8(value)[0] == encode_scalar(value[0] as u32)[0]);
}

/// Whether the namespace `namespace_id` is among `namespaces` and holds an
/// entry for `key` with the value `value`.
pub open spec fn shows_entry(
    namespaces: Seq<NamespaceView>,
    namespace_id: Seq<char>,
    key: Seq<char>,
    value: Option<JsonView>,
) -> bool {
    exists|n: int, e: int|
        {
            &&& 0 <= n < namespaces.len()
            &&& 0 <= e < namespaces[n].entries.len()
            &&& namespaces[n].id == namespace_id
            &&& (#[trigger] namespaces[n].entries[e]).key == key
            &&& namespaces[n].entries[e].value == value
        }
}

/// After the value of a key was replaced, a listing of the same state shows
/// an entry for the key in the namespace, and its value is what the written
/// bytes hold. This is said of a namespace whose directory a listing shows:
/// a directory that the emulator does not keep for itself.
pub proof fn lemma_update_then_list(
    store: StoreView,
    folder_id: i64,
    namespace_id: Seq<char>,
    key: Seq<char>,
    value: Seq<char>,
)
    requires
        store.update(namespace_id, key, value).1 is Ok,
        is_namespace_dir(
            store.dirs.unwrap()[dir_position(
                store.dirs.unwrap(),
                local_raw_name(namespace_id)->Ok_0,
            )].entry,
        ),
    ensures
        match listing_result(folder_id, store.update(namespace_id, key, value).0.scan()) {
            Ok(namespaces) => shows_entry(
                namespaces,
                local_id(folder_id as int, local_raw_name(namespace_id)->Ok_0),
                key,
                decoded(encode_utf8(value)),
            ),
            Err(_) => false,
        },
{
    let raw_name = local_raw_name(namespace_id)->Ok_0;
    let rows = catalog_rows(store.catalog)->Ok_0;
    let blob_id = blob_id_of(rows, key).unwrap();
    let content = encode_utf8(value);
    let after = store.update(namespace_id, key, value).0;
    assert(after == store.with_content(raw_name, blob_id, content));
    let dirs = store.dirs.unwrap();
    let d = dir_position(dirs, raw_name);
    let b = blob_position(dirs[d].blobs, blob_id);
    assert(store.has_blob_file(raw_name, blob_id));
    lemma_first_dir(dirs, raw_name);
    let old_blobs = dirs[d].blobs;
    lemma_first_blob(old_blobs, blob_id);
    let new_blobs = after.dirs.unwrap()[d].blobs;
    assert(crate::local::store::is_blob_at(new_blobs, blob_id, b)) by {
        assert forall|i: int| 0 <= i < b implies (#[trigger] new_blobs[i]).name != blob_id by {
            assert(new_blobs[i] == old_blobs[i]);
        }
    }
    lemma_blob_position(new_blobs, blob_id, b);
    assert(blob_value(new_blobs, blob_id) == decoded(content));
    let scans = after.scan()->Found_0;
    let visit = scans[d];
    let namespace = local_namespace(folder_id, raw_name, rows, new_blobs);
    assert(visit_outcome(folder_id, visit) == Some(
        Ok::<NamespaceView, SkippedView>(namespace),
    ));
    lemma_listing_is_partial(folder_id, scans);
    let namespaces = surveyed(folder_id, scans).namespaces;
    assert(namespaces.contains(namespace));
    let n = choose|n: int| 0 <= n < namespaces.len() && namespaces[n] == namespace;
    lemma_blob_id_has_row(rows, key);
    let e = choose|i: int|
        0 <= i < rows.len() && (#[trigger] rows[i]).key == key && rows[i].blob_id == blob_id;
    assert(namespace.entries[e] == local_entry(namespace.id, rows[e], new_blobs));
    assert(after.scan() == FolderScanView::Found(scans));
    assert(listing_result(folder_id, after.scan()) == Ok::<Seq<NamespaceView>, KvErrorView>(
        namespaces,
    ));
    assert(0 <= n < namespaces.len());
    assert(0 <= e < namespaces[n].entries.len());
    assert(namespaces[n].id == local_id(folder_id as int, raw_name));
    assert(namespaces[n].entries[e].key == key);
    assert(namespaces[n].entries[e].value == decoded(encode_utf8(value)));
}

/// Round trip: after the value of a key was replaced by a JSON text that
/// opens with `{` or `[`, a listing of the same state shows an entry for
/// the key whose value is the value that the text reads as.
pub proof fn lemma_update_round_trip(
    store: StoreView,
    folder_id: i64,
    namespace_id: Seq<char>,
    key: Seq<char>,
    value: Seq<char>,
)
    requires
        store.update(namespace_id, key, value).1 is Ok,
        is_namespace_dir(
            store.dirs.unwrap()[dir_position(
                store.dirs.unwrap(),
                local_raw_name(namespace_id)->Ok_0,
            )].entry,
        ),
        value.len() > 0,
        value[0] == '{' || value[0] == '[',
    ensures
        json_of_text(value) is Some,
        match listing_result(folder_id, store.update(namespace_id, key, value).0.scan()) {
            Ok(namespaces) => shows_entry(
                namespaces,
                local_id(folder_id as int, local_raw_name(namespace_id)->Ok_0),
                key,
                json_of_text(value),
            ),
            Err(_) => false,
        },
{
    lemma_update_then_list(store, folder_id, namespace_id, key, value);
    lemma_opener_is_first_byte(value);
    lemma_decoded_whole(encode_utf8(value));
}

/// A text that is not JSON replaces no value: the update fails and the
/// state is as before, every blob file with it. The failure is the invalid
/// JSON where the checks before it pass: the namespace id gives a directory
/// name, the catalog resolves and has a row for the key, and the blob file
/// of that row is there.
pub proof fn lemma_invalid_json_changes_nothing(
    store: StoreView,
    namespace_id: Seq<char>,
    key: Seq<char>,
    value: Seq<char>,
)
    requires
        json_of_text(value) is None,
    ensures
        store.update(namespace_id, key, value).1 is Err,
        store.update(namespace_id, key, value).0 == store,
        (local_raw_name(namespace_id) is Ok && catalog_rows(store.catalog) is Ok && blob_id_of(
            catalog_rows(store.catalog)->Ok_0,
            key,
        ) is Some && store.has_blob_file(
            local_raw_name(namespace_id)->Ok_0,
            blob_id_of(catalog_rows(store.catalog)->Ok_0, key).unwrap(),
        )) ==> store.update(namespace_id, key, value).1 == Err::<(), KvErrorView>(
            KvErrorView::InvalidJson,
        ),
{
}

/// The rows that are left after those for a key went are the rows for the
/// other keys.
pub proof fn lemma_rows_without(rows: Seq<RowView>, key: Seq<char>)
    ensures
        forall|row: RowView| #[trigger]
            rows_without(rows, key).contains(row) <==> rows.contains(row) && row.key != key,
        !has_key(rows_without(rows, key), key),
    decreases rows.len(),
{
    let left = rows_without(rows, key);
    if rows.len() > 0 {
        let front = rows.drop_last();
        lemma_rows_without(front, key);
        let before = rows_without(front, key);
        let last = rows.last();
        assert forall|row: RowView| #[trigger] left.contains(row) <==> rows.contains(row)
            && row.key != key by {
            if left.contains(row) {
                let i = choose|i: int| 0 <= i < left.len() && left[i] == row;
                if i < before.len() {
                    assert(before[i] == row);
                    assert(before.contains(row));
                    let j = choose|j: int| 0 <= j < front.len() && front[j] == row;
                    assert(rows[j] == row);
                } else {
                    assert(last.key != key);
                    assert(rows[rows.len() - 1] == row);
                }
            }
            if rows.contains(row) && row.key != key {
                let j = choose|j: int| 0 <= j < rows.len() && rows[j] == row;
                if j < front.len() {
                    assert(front[j] == row);
                    assert(front.contains(row));
                    assert(before.contains(row));
                    let i = choose|i: int| 0 <= i < before.len() && before[i] == row;
                    assert(left[i] == row);
                } else {
                    assert(row == last);
                    assert(left == before.push(last));
                    assert(left[left.len() - 1] == row);
                }
            }
        }
    }
    if has_key(left, key) {
        let i = choose|i: int| 0 <= i < left.len() && (#[trigger] left[i]).key == key;
        assert(left.contains(left[i]));
    }
}

/// A batch that meets a key without a row fails with that key and leaves
/// the catalog as it was before the batch, rows of earlier keys included;
/// only blob files may be gone. And a batch that does not fail leaves no row
/// for any of its keys.
pub proof fn lemma_delete_is_one_unit(
    store: StoreView,
    namespace_id: Seq<char>,
    keys: Seq<Seq<char>>,
)
    ensures
        store.delete(namespace_id, keys).0.catalog.files == store.catalog.files,
        store.delete(namespace_id, keys).1 is Err ==> store.delete(namespace_id, keys).0.catalog
            == store.catalog,
        store.delete(namespace_id, keys).1 is Ok ==> {
            &&& store.delete(namespace_id, keys).0.catalog.rows is Some
            &&& forall|i: int|
                0 <= i < keys.len() ==> !has_key(
                    store.delete(namespace_id, keys).0.catalog.rows.unwrap(),
                    #[trigger] keys[i],
                )
            &&& forall|row: RowView| #[trigger]
                store.delete(namespace_id, keys).0.catalog.rows.unwrap().contains(row) <==> (
                catalog_rows(store.catalog)->Ok_0.contains(row) && !keys.contains(row.key))
        },
{
    if local_raw_name(namespace_id) is Ok && catalog_rows(store.catalog) is Ok {
        let raw_name = local_raw_name(namespace_id)->Ok_0;
        let rows = catalog_rows(store.catalog)->Ok_0;
        lemma_delete_run(store, rows, raw_name, keys, 0);
        assert(keys.skip(0) =~= keys);
    }
}

/// What a run over the keys from `from` on comes to: it stops at a key
/// that has no row any more, which is a key without a row at the start or
/// one that stands in the run a second time; else the rows that are left are
/// those for keys outside the run.
pub proof fn lemma_delete_run(
    store: StoreView,
    rows: Seq<RowView>,
    raw_name: Seq<char>,
    keys: Seq<Seq<char>>,
    from: nat,
)
    requires
        from <= keys.len(),
    ensures
        store.delete_run(rows, raw_name, keys, from).0.catalog == store.catalog,
        match store.delete_run(rows, raw_name, keys, from).2 {
            Some(position) => {
                &&& from <= position < keys.len()
                &&& (!has_key(rows, keys[position as int]) || exists|i: int|
                    from <= i < position && #[trigger] keys[i] == keys[position as int])
            },
            None => {
                &&& forall|row: RowView| #[trigger]
                    store.delete_run(rows, raw_name, keys, from).1.contains(row) <==> (
                    rows.contains(row) && !keys.skip(from as int).contains(row.key))
                &&& forall|i: int|
                    from <= i < keys.len() ==> !has_key(
                        store.delete_run(rows, raw_name, keys, from).1,
                        #[trigger] keys[i],
                    )
            },
        },
    decreases keys.len() - from,
{
    if from < keys.len() {
        let key = keys[from as int];
        crate::local::catalog::lemma_blob_id_iff_has_key(rows, key);
        match blob_id_of(rows, key) {
            Some(blob_id) => {
                let next_store = store.without_blob_file(raw_name, blob_id);
                let next_rows = rows_without(rows, key);
                lemma_rows_without(rows, key);
                lemma_delete_run(next_store, next_rows, raw_name, keys, from + 1);
                let end = next_store.delete_run(next_rows, raw_name, keys, from + 1);
                assert(end == store.delete_run(rows, raw_name, keys, from));
                match end.2 {
                    Some(position) => {
                        if !has_key(next_rows, keys[position as int]) {
                            if has_key(rows, keys[position as int]) {
                                let i = choose|i: int|
                                    0 <= i < rows.len() && (#[trigger] rows[i]).key
                                        == keys[position as int];
                                assert(rows.contains(rows[i]));
                                if keys[position as int] != key {
                                    assert(next_rows.contains(rows[i]));
                                    let j = choose|j: int|
                                        0 <= j < next_rows.len() && next_rows[j] == rows[i];
                                    assert(next_rows[j].key == keys[position as int]);
                                }
                                assert(keys[from as int] == keys[position as int]);
                            }
                        } else {
                            let i = choose|i: int|
                                from + 1 <= i < position && #[trigger] keys[i]
                                    == keys[position as int];
                            assert(keys[i] == keys[position as int]);
                        }
                    },
                    None => {
                        let tail = keys.skip(from as int);
                        let rest = keys.skip(from as int + 1);
                        assert forall|row: RowView| #[trigger]
                            end.1.contains(row) <==> (rows.contains(row) && !tail.contains(
                                row.key,
                            )) by {
                            if rows.contains(row) && !tail.contains(row.key) {
                                assert(tail[0] == key);
                                assert(row.key != key);
                                if rest.contains(row.key) {
                                    let i = choose|i: int|
                                        0 <= i < rest.len() && rest[i] == row.key;
                                    assert(tail[i + 1] == row.key);
                                }
                            }
                            if end.1.contains(row) {
                                if tail.contains(row.key) {
                                    let i = choose|i: int|
                                        0 <= i < tail.len() && tail[i] == row.key;
                                    if i > 0 {
                                        assert(rest[i - 1] == row.key);
                                    }
                                }
                            }
                        }
                        assert forall|i: int| from <= i < keys.len() implies !has_key(
                            end.1,
                            #[trigger] keys[i],
                        ) by {
                            if i == from {
                                if has_key(end.1, key) {
                                    let j = choose|j: int|
                                        0 <= j < end.1.len() && (#[trigger] end.1[j]).key == key;
                                    assert(end.1.contains(end.1[j]));
                                    assert(next_rows.contains(end.1[j]));
                                }
                            }
                        }
                    },
                }
            },
            None => {},
        }
    } else {
        assert(keys.skip(from as int) =~= Seq::<Seq<char>>::empty());
    }
}

} // verus!
