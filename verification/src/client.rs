//! What a client keeps of the conversation: the lines it has to show.

use vstd::prelude::*;

verus! {

/// One line of the conversation as a client shows it.
#[derive(Debug, Clone, Hash, PartialEq, Eq, PartialOrd, Ord)]
pub struct Msg {
    /// The text of the line.
    pub msg: String,
    /// The position of the line in the log, which also serves as its key.
    pub id: usize,
}

/// Whether every line of `msgs` is numbered by its position, so that no
/// two lines share a key.
pub open spec fn numbered(msgs: Seq<Msg>) -> bool {
    forall|i: int| 0 <= i < msgs.len() ==> (#[trigger] msgs[i]).id == i
}

/// Appends `text` to the log under the next free number.
pub fn push_msg(msgs: &mut Vec<Msg>, text: String)
    ensures
        final(msgs)@ == old(msgs)@.push(Msg { msg: text, id: old(msgs)@.len() as usize }),
        numbered(old(msgs)@) ==> numbered(final(msgs)@),
{
    let id = msgs.len();
    msgs.push(Msg { msg: text, id });
}

} // verus!
