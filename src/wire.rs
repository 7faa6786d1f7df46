//! Reading the kind of a message from its JSON body.
use vstd::prelude::*;

use crate::proto::{cmd_of_code, MessageCMD};

verus! {

/// The integer that the `cmd` member of a JSON body holds, if the body is
/// JSON with such a member.
pub uninterp spec fn cmd_member_of(body: Seq<u8>) -> Option<i64>;

/// Relies on `serde_json::from_slice` (parse the body as a JSON value),
/// `Value::get` (its `cmd` member) and `Value::as_i64` (that member as a
/// 64-bit integer): the result depends on the bytes alone.
#[verifier::external_body]
fn cmd_member(body: &[u8]) -> (r: Option<i64>)
    ensures
        r == cmd_member_of(body@),
{
    let v: serde_json::Value = match serde_json::from_slice(body) {
        Ok(v) => v,
        Err(_) => return None,
    };
    match v.get("cmd") {
        Some(c) => c.as_i64(),
        None => None,
    }
}

/// Why the kind of a message could not be read.
#[derive(Debug, Clone, PartialEq, Eq)]
pub enum WireError {
    /// The body is not JSON with an integer `cmd` member.
    MissingCmd,
    /// The `cmd` member names no known kind.
    UnknownCommand(i64),
}

/// The kind named by a body's `cmd` member: a missing member and an
/// unknown code are errors.
pub fn cmd_from_field(field: Option<i64>) -> (r: Result<MessageCMD, WireError>)
    ensures
        match field {
            None => r == Err::<MessageCMD, WireError>(WireError::MissingCmd),
            Some(c) => if cmd_of_code(c as int) == MessageCMD::Unknown {
                r == Err::<MessageCMD, WireError>(WireError::UnknownCommand(c))
            } else {
                r == Ok::<MessageCMD, WireError>(cmd_of_code(c as int))
            },
        },
{
    match field {
        None => Err(WireError::MissingCmd),
        Some(c) => {
            let cmd = MessageCMD::from_code(c);
            if cmd == MessageCMD::Unknown {
                Err(WireError::UnknownCommand(c))
            } else {
                Ok(cmd)
            }
        },
    }
}

/// The kind of a message, read from the integer `cmd` member of its JSON
/// body.
pub fn decode_cmd(body: &[u8]) -> (r: Result<MessageCMD, WireError>)
    ensures
        match cmd_member_of(body@) {
            None => r == Err::<MessageCMD, WireError>(WireError::MissingCmd),
            Some(c) => if cmd_of_code(c as int) == MessageCMD::Unknown {
                r == Err::<MessageCMD, WireError>(WireError::UnknownCommand(c))
            } else {
                r == Ok::<MessageCMD, WireError>(cmd_of_code(c as int))
            },
        },
{
    cmd_from_field(cmd_member(body))
}

} // verus!
