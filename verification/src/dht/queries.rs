//! How the answers to successive queries hang together.

use crate::dht::service::{contents_after, execution, missing_key_text, Execution};
use crate::rpc::dht::OperationType;
use vstd::prelude::*;

verus! {

/// A SET answers with the value that the key had before, if it had one.
pub proof fn lemma_set_returns_previous(contents: Map<u64, Seq<u8>>, key: u64, value: Seq<u8>)
    ensures
        execution(contents, OperationType::Put.code(), key, Some(value)) == Execution::Answered(
            if contents.contains_key(key) {
                Some(contents[key])
            } else {
                None
            },
        ),
{
}

/// A GET after a SET of the same key answers with the value that was set,
/// whatever value the GET itself carries.
pub proof fn lemma_get_after_set(
    contents: Map<u64, Seq<u8>>,
    key: u64,
    value: Seq<u8>,
    carried: Option<Seq<u8>>,
)
    ensures
        execution(
            contents_after(contents, OperationType::Put.code(), key, Some(value)),
            OperationType::Get.code(),
            key,
            carried,
        ) == Execution::Answered(Some(value)),
{
}

/// A GET leaves the store as it was.
pub proof fn lemma_get_changes_nothing(
    contents: Map<u64, Seq<u8>>,
    key: u64,
    carried: Option<Seq<u8>>,
)
    ensures
        contents_after(contents, OperationType::Get.code(), key, carried) == contents,
{
}

/// A DELETE answers with the value that the key had, or fails if it had
/// none; a GET after it fails, for the key is not there.
pub proof fn lemma_get_after_delete(
    contents: Map<u64, Seq<u8>>,
    key: u64,
    carried: Option<Seq<u8>>,
    again: Option<Seq<u8>>,
)
    ensures
        execution(contents, OperationType::Delete.code(), key, carried) == if contents.contains_key(
            key,
        ) {
            Execution::Answered(Some(contents[key]))
        } else {
            Execution::Rejected(missing_key_text())
        },
        execution(
            contents_after(contents, OperationType::Delete.code(), key, carried),
            OperationType::Get.code(),
            key,
            again,
        ) == Execution::Rejected(missing_key_text()),
{
}

/// A query for one key changes the answer to no query for another.
pub proof fn lemma_other_keys_untouched(
    contents: Map<u64, Seq<u8>>,
    ty: i32,
    key: u64,
    value: Option<Seq<u8>>,
    other_ty: i32,
    other: u64,
    other_value: Option<Seq<u8>>,
)
    requires
        key != other,
    ensures
        execution(contents_after(contents, ty, key, value), other_ty, other, other_value)
            == execution(contents, other_ty, other, other_value),
{
}

} // verus!
