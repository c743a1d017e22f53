//! Size limits on IPC messages.
use vstd::prelude::*;

use crate::text::{decimal, push_decimal};

verus! {

/// Maximum allowed message size for IPC communication (1 MiB).
pub const MAX_MESSAGE_SIZE: u64 = 1_048_576;

/// Maximum allowed individual log entry size (1 MiB).
pub const MAX_LOG_ENTRY_SIZE: usize = 1_048_576;

/// Error returned when a message exceeds the allowed size limit.
#[derive(Debug, Clone, Copy, PartialEq, Eq, Structural)]
pub enum MessageSizeError {
    TooLarge { actual: usize, max: u64 },
}

impl MessageSizeError {
    pub open spec fn spec_message(&self) -> Seq<char> {
        match self {
            MessageSizeError::TooLarge { actual, max } => "message too large: "@ + decimal(
                *actual as nat,
            ) + " bytes exceeds maximum of "@ + decimal(*max as nat) + " bytes"@,
        }
    }

    /// The error's human-readable text.
    pub fn message(&self) -> (s: String)
        ensures
            s@ == self.spec_message(),
    {
        match self {
            MessageSizeError::TooLarge { actual, max } => {
                let mut s = String::from_str("message too large: ");
                push_decimal(&mut s, *actual as u64);
                s.append(" bytes exceeds maximum of ");
                push_decimal(&mut s, *max);
                s.append(" bytes");
                s
            },
        }
    }
}

/// Accepts messages of at most [`MAX_MESSAGE_SIZE`] bytes.
pub fn validate_message_size(data: &[u8]) -> (r: Result<(), MessageSizeError>)
    ensures
        data@.len() <= MAX_MESSAGE_SIZE ==> r is Ok,
        data@.len() > MAX_MESSAGE_SIZE ==> r == Err::<(), MessageSizeError>(
            MessageSizeError::TooLarge { actual: data@.len() as usize, max: MAX_MESSAGE_SIZE },
        ),
{
    if data.len() as u64 > MAX_MESSAGE_SIZE {
        Err(MessageSizeError::TooLarge { actual: data.len(), max: MAX_MESSAGE_SIZE })
    } else {
        Ok(())
    }
}

} // verus!
