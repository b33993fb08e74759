//! The message sink: what the host does with each message the plugin
//! delivers to its callback.
//!
//! The callback's contract is "copy what you need, then hand the envelope
//! back": the text is copied into the log, and the very message that came
//! in is returned so the shell can pass it to the plugin's
//! `deallocate_message`. Because `Message` is an owned, non-copyable
//! value, returning it is the single hand-back: the caller can neither
//! drop the obligation silently nor discharge it twice.

use vstd::prelude::*;
use crate::comment_log::CommentLog;
use crate::message::Message;

verus! {

/// Appends a copy of the message text to the log and returns the same
/// message, to be released by the plugin that allocated it.
pub fn deliver(log: &mut CommentLog, msg: Message) -> (envelope: Message)
    ensures
        final(log)@ == old(log)@.push(msg.text@),
        envelope == msg,
{
    let copy = msg.text.clone();
    log.append(copy);
    msg
}

} // verus!
