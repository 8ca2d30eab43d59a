//! The send operation's synchronous checks: message validation and
//! session lookup, everything that is decided before any transport work
//! happens.

use vstd::prelude::*;
use vstd::string::StringExecFns;
use vstd::string::StringSliceAdditionalSpecFns;
use vstd::utf8::encode_utf8;

use crate::error::AppError;
use crate::registry::{SessionInfo, SessionRegistry};
use crate::text::{is_space, is_space_char};

verus! {

/// Upper bound, in bytes of the encoded text, on the content of one
/// outgoing message.
pub const MAX_MESSAGE_SIZE: usize = 1_000_000;

/// Whether message content may be sent: within the size bound and not
/// empty after trimming.
pub open spec fn message_ok(s: Seq<char>) -> bool {
    encode_utf8(s).len() <= MAX_MESSAGE_SIZE && exists|i: int|
        0 <= i < s.len() && !is_space_char(#[trigger] s[i])
}

/// The reason given for rejecting an oversized message.
pub open spec fn oversize_reason() -> Seq<char> {
    "Message is too large. Please shorten your message."@
}

/// The reason given for rejecting an empty-after-trim message.
pub open spec fn empty_reason() -> Seq<char> {
    "Message cannot be empty."@
}

/// The reason given when the session is not registered.
pub open spec fn not_found_reason() -> Seq<char> {
    "Session not found"@
}

/// Rejects oversized and empty-after-trim content before any transport
/// work; accepts everything else.
pub fn validate_message(content: &str) -> (r: Result<(), AppError>)
    ensures
        r is Ok <==> message_ok(content@),
        encode_utf8(content@).len() > MAX_MESSAGE_SIZE ==> (r matches Err(e) && e is Validation
            && e.spec_message() == oversize_reason()),
        encode_utf8(content@).len() <= MAX_MESSAGE_SIZE && !message_ok(content@) ==> (r matches Err(
            e,
        ) && e is Validation && e.spec_message() == empty_reason()),
{
    if content.as_bytes().len() > MAX_MESSAGE_SIZE {
        return Err(
            AppError::Validation(
                String::from_str("Message is too large. Please shorten your message."),
            ),
        );
    }
    let len = content.unicode_len();
    let mut i: usize = 0;
    while i < len
        invariant
            0 <= i <= len,
            len == content@.len(),
            encode_utf8(content@).len() <= MAX_MESSAGE_SIZE,
            forall|m: int| 0 <= m < i ==> is_space_char(#[trigger] content@[m]),
        decreases len - i,
    {
        if !is_space(content.get_char(i)) {
            proof {
                assert(!is_space_char(content@[i as int]));
            }
            return Ok(());
        }
        i = i + 1;
    }
    Err(AppError::Validation(String::from_str("Message cannot be empty.")))
}

/// The synchronous part of the send operation: validates the content,
/// then looks the session up. On success the caller subscribes to the
/// session's event source, forwards the message, and runs one dispatch
/// loop under the entry's cancellation controller; on any error here
/// no event is ever produced.
pub fn prepare_send<'a, H>(
    registry: &'a SessionRegistry<H>,
    session_id: &str,
    content: &str,
) -> (r: Result<&'a SessionInfo<H>, AppError>)
    requires
        registry.wf(),
    ensures
        r is Ok <==> message_ok(content@) && registry@.contains_key(session_id@),
        r matches Ok(e) ==> e@ == registry@[session_id@] && e.id@ == session_id@,
        encode_utf8(content@).len() > MAX_MESSAGE_SIZE ==> (r matches Err(e) && e is Validation
            && e.spec_message() == oversize_reason()),
        encode_utf8(content@).len() <= MAX_MESSAGE_SIZE && !message_ok(content@) ==> (r matches Err(
            e,
        ) && e is Validation && e.spec_message() == empty_reason()),
        message_ok(content@) && !registry@.contains_key(session_id@) ==> (r matches Err(e)
            && e is NotFound && e.spec_message() == not_found_reason()),
{
    match validate_message(content) {
        Err(e) => Err(e),
        Ok(()) => match registry.get(session_id) {
            Some(entry) => Ok(entry),
            None => Err(AppError::NotFound(String::from_str("Session not found"))),
        },
    }
}

} // verus!
