//! The assistant chat: the messages that go to the engine.
use vstd::prelude::*;

verus! {

/// A message of the chat: who wrote it (`system`, `user`, `assistant`)
/// and what.
#[derive(Clone, Debug)]
pub struct ChatMsg {
    pub role: String,
    pub content: String,
}

pub const ROLE_SYSTEM: &'static str = "system";

/// How the assistant is asked to behave.
pub const CHAT_SYSTEM: &'static str = "Ты — полезный, дружелюбный ассистент. Отвечай понятно и по делу, на том же языке, на котором пишет пользователь. Пиши живым естественным языком.";

pub open spec fn msg_views(v: Seq<ChatMsg>) -> Seq<(Seq<char>, Seq<char>)> {
    v.map_values(|m: ChatMsg| (m.role@, m.content@))
}

/// The messages sent to the engine: the assistant's instruction first,
/// then the conversation as it is.
pub fn chat_messages(messages: &Vec<ChatMsg>) -> (r: Vec<ChatMsg>)
    ensures
        msg_views(r@) == seq![(ROLE_SYSTEM@, CHAT_SYSTEM@)] + msg_views(messages@),
{
    let mut r: Vec<ChatMsg> = Vec::new();
    r.push(ChatMsg { role: String::from_str(ROLE_SYSTEM), content: String::from_str(CHAT_SYSTEM) });
    let mut i: usize = 0;
    while i < messages.len()
        invariant
            i <= messages.len(),
            msg_views(r@) == seq![(ROLE_SYSTEM@, CHAT_SYSTEM@)] + msg_views(messages@).take(i as int),
        decreases messages.len() - i,
    {
        let ghost before = msg_views(r@);
        let m = ChatMsg { role: messages[i].role.clone(), content: messages[i].content.clone() };
        let ghost mv = (m.role@, m.content@);
        r.push(m);
        assert(msg_views(r@) =~= before.push(mv));
        assert(msg_views(messages@).take(i + 1) =~= msg_views(messages@).take(i as int).push(mv));
        i = i + 1;
    }
    assert(msg_views(messages@).take(messages.len() as int) =~= msg_views(messages@));
    r
}

} // verus!
