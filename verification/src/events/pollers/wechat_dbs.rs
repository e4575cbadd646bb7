//! Which of WeChat's database files hold messages, and whether a key for each
//! is on hand.

use crate::text::{contains_seq, is_prefix_of, is_suffix_of};
use vstd::prelude::*;

verus! {

broadcast use vstd::string::group_string_axioms;

/// A `message_*.db` file name.
pub open spec fn is_message_db_file(name: Seq<char>) -> bool {
    is_prefix_of("message_"@, name) && is_suffix_of(".db"@, name)
}

/// A `message_*.db` file that holds messages: not a full-text index (`fts`)
/// nor a resource table (`resource`).
pub open spec fn is_message_store(name: Seq<char>) -> bool {
    is_message_db_file(name) && !contains_seq(name, "fts"@) && !contains_seq(name, "resource"@)
}

/// Whether `name` is a `message_*.db` file name.
pub fn is_message_db_file_name(name: &str) -> (r: bool)
    ensures
        r == is_message_db_file(name@),
{
    crate::text::starts_with(name, "message_") && crate::text::ends_with(name, ".db")
}

/// Whether `name` is a message store.
pub fn is_message_store_name(name: &str) -> (r: bool)
    ensures
        r == is_message_store(name@),
{
    is_message_db_file_name(name) && !crate::text::contains(name, "fts") && !crate::text::contains(
        name,
        "resource",
    )
}

/// Whether `names` holds `name`.
fn holds(names: &Vec<String>, name: &str) -> (r: bool)
    ensures
        r == exists|i: int| 0 <= i < names@.len() && (#[trigger] names@[i])@ == name@,
{
    let mut i: usize = 0;
    while i < names.len()
        invariant
            i <= names@.len(),
            forall|k: int| 0 <= k < i ==> (#[trigger] names@[k])@ != name@,
        decreases names.len() - i,
    {
        if crate::text::str_eq(names[i].as_str(), name) {
            return true;
        }
        i = i + 1;
    }
    false
}

/// Whether some message store on disk has no key among `key_names`: then the
/// keys must be extracted again.
pub fn has_missing_message_db(on_disk: &Vec<String>, key_names: &Vec<String>) -> (r: bool)
    ensures
        r == exists|i: int|
            0 <= i < on_disk@.len() && is_message_store((#[trigger] on_disk@[i])@) && !(exists|j: int|
                0 <= j < key_names@.len() && (#[trigger] key_names@[j])@ == on_disk@[i]@),
{
    let mut i: usize = 0;
    while i < on_disk.len()
        invariant
            i <= on_disk@.len(),
            forall|k: int|
                0 <= k < i ==> !(is_message_store((#[trigger] on_disk@[k])@) && !(exists|j: int|
                    0 <= j < key_names@.len() && (#[trigger] key_names@[j])@ == on_disk@[k]@)),
        decreases on_disk.len() - i,
    {
        if is_message_store_name(on_disk[i].as_str()) && !holds(key_names, on_disk[i].as_str()) {
            return true;
        }
        i = i + 1;
    }
    false
}

/// Whether some key is for a message store.
pub fn has_message_store_key(key_names: &Vec<String>) -> (r: bool)
    ensures
        r == exists|i: int| 0 <= i < key_names@.len() && is_message_store((#[trigger] key_names@[i])@),
{
    let mut i: usize = 0;
    while i < key_names.len()
        invariant
            i <= key_names@.len(),
            forall|k: int| 0 <= k < i ==> !is_message_store((#[trigger] key_names@[k])@),
        decreases key_names.len() - i,
    {
        if is_message_store_name(key_names[i].as_str()) {
            return true;
        }
        i = i + 1;
    }
    false
}

/// Whether some key is for a `message_*.db` file (index and resource files
/// included).
pub fn has_message_db_key(key_names: &Vec<String>) -> (r: bool)
    ensures
        r == exists|i: int| 0 <= i < key_names@.len() && is_message_db_file((#[trigger] key_names@[i])@),
{
    let mut i: usize = 0;
    while i < key_names.len()
        invariant
            i <= key_names@.len(),
            forall|k: int| 0 <= k < i ==> !is_message_db_file((#[trigger] key_names@[k])@),
        decreases key_names.len() - i,
    {
        if is_message_db_file_name(key_names[i].as_str()) {
            return true;
        }
        i = i + 1;
    }
    false
}

} // verus!
