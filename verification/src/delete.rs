//! Messages and overall outcome of deleting several paths.
use vstd::prelude::*;

use crate::text::{append_str, chars_of, string_from_chars};

verus! {

/// `Failed to move <path> to trash: <error>`.
pub open spec fn trash_failure_text(path: Seq<char>, error: Seq<char>) -> Seq<char> {
    "Failed to move "@ + path + " to trash: "@ + error
}

/// `Failed to delete <path>: <error>`.
pub open spec fn delete_failure_text(path: Seq<char>, error: Seq<char>) -> Seq<char> {
    "Failed to delete "@ + path + ": "@ + error
}

/// Message for a path that could not be moved to the trash.
pub fn trash_failure_message(path: &str, error: &str) -> (r: String)
    ensures
        r@ == trash_failure_text(path@, error@),
{
    let mut out = chars_of("Failed to move ");
    append_str(&mut out, path);
    append_str(&mut out, " to trash: ");
    append_str(&mut out, error);
    assert(out@ =~= trash_failure_text(path@, error@));
    string_from_chars(&out)
}

/// Message for a path that could not be deleted.
pub fn delete_failure_message(path: &str, error: &str) -> (r: String)
    ensures
        r@ == delete_failure_text(path@, error@),
{
    let mut out = chars_of("Failed to delete ");
    append_str(&mut out, path);
    append_str(&mut out, ": ");
    append_str(&mut out, error);
    assert(out@ =~= delete_failure_text(path@, error@));
    string_from_chars(&out)
}

/// The message of the last failure among `rs`, if any failed.
pub open spec fn last_failure(rs: Seq<Result<(), String>>) -> Option<Seq<char>>
    decreases rs.len(),
{
    if rs.len() == 0 {
        None
    } else {
        match rs.last() {
            Err(e) => Some(e@),
            Ok(_) => last_failure(rs.drop_last()),
        }
    }
}

/// Outcome of deleting several paths one by one: every path is tried, and the last failure,
/// if any, is the error reported.
pub fn combined_outcome(results: Vec<Result<(), String>>) -> (r: Result<(), String>)
    ensures
        match r {
            Ok(()) => last_failure(results@) is None,
            Err(e) => last_failure(results@) == Some(e@),
        },
{
    let ghost all = results@;
    let rest = results;
    let mut error: Option<String> = None;
    assert(all.take(0) =~= Seq::<Result<(), String>>::empty());
    let mut i: usize = 0;
    while i < rest.len()
        invariant
            rest@ == all,
            i <= all.len(),
            match error {
                Some(e) => last_failure(all.take(i as int)) == Some(e@),
                None => last_failure(all.take(i as int)) is None,
            },
        decreases all.len() - i,
    {
        assert(all.take(i + 1).drop_last() =~= all.take(i as int));
        assert(all.take(i + 1).last() == all[i as int]);
        match &rest[i] {
            Err(message) => {
                error = Some(crate::text::copy_string(message));
            },
            Ok(()) => {},
        }
        i = i + 1;
    }
    assert(all.take(i as int) =~= all);
    match error {
        Some(e) => Err(e),
        None => Ok(()),
    }
}

} // verus!
