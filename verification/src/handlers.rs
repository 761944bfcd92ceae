//! The messages with which the resource endpoints answer.
use vstd::prelude::*;

use crate::text::owned;
use vstd::string::StringExecFns;

verus! {

/// The body of a resource endpoint's answer.
pub struct ApiResponse {
    pub message: String,
}

/// `before`, then `id`, then `after`.
fn around(before: &str, id: &str, after: &str) -> (r: String)
    ensures
        r@ == before@ + id@ + after@,
{
    let mut s = owned(before);
    s.append(id);
    s.append(after);
    s
}

/// The answer to reading user `user_id`.
pub fn user_accessed(user_id: &str) -> (r: ApiResponse)
    ensures
        r.message@ == "User "@ + user_id@ + " data accessed successfully"@,
{
    ApiResponse { message: around("User ", user_id, " data accessed successfully") }
}

/// The answer to updating user `user_id`.
pub fn user_updated(user_id: &str) -> (r: ApiResponse)
    ensures
        r.message@ == "User "@ + user_id@ + " updated successfully"@,
{
    ApiResponse { message: around("User ", user_id, " updated successfully") }
}

/// The answer to reading document `doc_id`.
pub fn document_accessed(doc_id: &str) -> (r: ApiResponse)
    ensures
        r.message@ == "Document "@ + doc_id@ + " accessed successfully"@,
{
    ApiResponse { message: around("Document ", doc_id, " accessed successfully") }
}

/// The answer to updating document `doc_id`.
pub fn document_updated(doc_id: &str) -> (r: ApiResponse)
    ensures
        r.message@ == "Document "@ + doc_id@ + " updated successfully"@,
{
    ApiResponse { message: around("Document ", doc_id, " updated successfully") }
}

/// The message that confirms that every session of `user_id` was ended.
pub fn sessions_invalidated_message(user_id: &str) -> (r: String)
    ensures
        r@ == "All sessions for user "@ + user_id@ + " have been invalidated"@,
{
    around("All sessions for user ", user_id, " have been invalidated")
}

} // verus!
