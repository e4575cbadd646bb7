//! Records read from WeChat's databases that the event logic consumes.

use vstd::prelude::*;

verus! {

/// A message quoted by a reply.
#[derive(Debug, Clone)]
pub struct ReplyInfo {
    pub sender: Option<String>,
    pub content: String,
}

/// One chat message, as read from a `message_*.db` table.
#[derive(Debug, Clone)]
pub struct Message {
    /// Row id in the chat's message table; increases with every new message.
    pub local_id: i64,
    /// Server-assigned id; not monotonic.
    pub server_id: i64,
    pub chat_id: String,
    pub sender: Option<String>,
    pub sender_name: Option<String>,
    pub msg_type: i32,
    pub content: String,
    pub timestamp: String,
    pub is_mentioned: Option<bool>,
    pub mentioned_wxids: Option<Vec<String>>,
    pub is_self: Option<bool>,
    pub reply: Option<ReplyInfo>,
}

/// A member of a chatroom.
#[derive(Debug, Clone)]
pub struct ChatroomMember {
    pub wxid: String,
    pub nickname: String,
}

/// `sorted` is `msgs` stably sorted by `local_id`: a permutation `p` of the
/// positions puts them in order of `local_id` and keeps messages with equal
/// `local_id` in their original order.
pub open spec fn is_stable_sort_by_local_id(msgs: Seq<Message>, sorted: Seq<Message>) -> bool {
    exists|p: Seq<int>|
        #![trigger p.len()]
        {
            &&& p.len() == msgs.len()
            &&& sorted.len() == msgs.len()
            &&& forall|i: int| 0 <= i < p.len() ==> 0 <= #[trigger] p[i] < msgs.len()
            &&& forall|i: int, j: int| 0 <= i < j < p.len() ==> p[i] != p[j]
            &&& forall|i: int| 0 <= i < p.len() ==> #[trigger] sorted[i] == msgs[p[i]]
            &&& forall|i: int, j: int|
                0 <= i < j < sorted.len() ==> sorted[i].local_id <= sorted[j].local_id
            &&& forall|i: int, j: int|
                0 <= i < j < sorted.len() && sorted[i].local_id == sorted[j].local_id ==> p[i]
                    < p[j]
        }
}

/// Calls `slice::sort_by_key` with the key `local_id`. The standard library
/// documents this sort as stable.
#[verifier::external_body]
pub(crate) fn sort_by_local_id(messages: &mut Vec<Message>)
    ensures
        is_stable_sort_by_local_id(old(messages)@, final(messages)@),
{
    messages.sort_by_key(|m| m.local_id);
}

} // verus!
