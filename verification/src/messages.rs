//! Chat messages and the responses of a model.

use vstd::prelude::*;
use crate::json;

verus! {

/// The function that a model asks to call, with its arguments as JSON text.
#[derive(Debug, PartialEq, Eq)]
pub struct FunctionCall {
    pub name: String,
    pub arguments: String,
}

/// A tool call that a model asks for.
#[derive(Debug, PartialEq, Eq)]
pub struct ToolCall {
    pub index: Option<u32>,
    pub id: String,
    pub tool_type: String,
    pub function: FunctionCall,
}

/// A message of a conversation.
#[derive(Debug, PartialEq, Eq)]
pub struct Message {
    pub role: String,
    pub content: Option<String>,
    pub tool_call_id: Option<String>,
    pub name: Option<String>,
    pub tool_calls: Option<Vec<ToolCall>>,
}

/// What a tool call holds.
pub ghost struct Call {
    pub index: Option<u32>,
    pub id: Seq<char>,
    pub tool_type: Seq<char>,
    pub name: Seq<char>,
    pub arguments: Seq<char>,
}

/// What a message holds.
pub ghost struct Msg {
    pub role: Seq<char>,
    pub content: Option<Seq<char>>,
    pub tool_call_id: Option<Seq<char>>,
    pub name: Option<Seq<char>>,
    pub calls: Option<Seq<Call>>,
}

impl View for ToolCall {
    type V = Call;

    open spec fn view(&self) -> Call {
        Call {
            index: self.index,
            id: self.id@,
            tool_type: self.tool_type@,
            name: self.function.name@,
            arguments: self.function.arguments@,
        }
    }
}

/// What a list of tool calls holds.
pub open spec fn call_views(v: Seq<ToolCall>) -> Seq<Call> {
    Seq::new(v.len(), |i: int| v[i]@)
}

/// What an optional list of tool calls holds.
pub open spec fn calls_view(v: Option<Vec<ToolCall>>) -> Option<Seq<Call>> {
    match v {
        Some(c) => Some(call_views(c@)),
        None => None,
    }
}

impl View for Message {
    type V = Msg;

    open spec fn view(&self) -> Msg {
        Msg {
            role: self.role@,
            content: json::opt_view(self.content),
            tool_call_id: json::opt_view(self.tool_call_id),
            name: json::opt_view(self.name),
            calls: calls_view(self.tool_calls),
        }
    }
}

/// What a list of messages holds.
pub open spec fn msg_views(v: Seq<Message>) -> Seq<Msg> {
    Seq::new(v.len(), |i: int| v[i]@)
}

/// The views grow with the list.
pub proof fn msg_views_push(v: Seq<Message>, m: Message)
    ensures
        msg_views(v.push(m)) == msg_views(v).push(m@),
{
    assert(msg_views(v.push(m)) =~= msg_views(v).push(m@));
}

/// A copy of an optional text.
pub fn copy_opt(t: &Option<String>) -> (r: Option<String>)
    ensures
        r == *t,
{
    match t {
        Some(s) => Some(s.clone()),
        None => None,
    }
}

impl Clone for ToolCall {
    fn clone(&self) -> (r: Self)
        ensures
            r@ == self@,
    {
        ToolCall {
            index: self.index,
            id: self.id.clone(),
            tool_type: self.tool_type.clone(),
            function: FunctionCall {
                name: self.function.name.clone(),
                arguments: self.function.arguments.clone(),
            },
        }
    }
}

/// A copy of a list of tool calls.
pub fn copy_calls(v: &[ToolCall]) -> (r: Vec<ToolCall>)
    ensures
        call_views(r@) == call_views(v@),
{
    let mut r: Vec<ToolCall> = Vec::new();
    let mut i: usize = 0;
    while i < v.len()
        invariant
            i <= v@.len(),
            call_views(r@) =~= call_views(v@).take(i as int),
        decreases v@.len() - i,
    {
        let c = v[i].clone();
        let ghost before = call_views(r@);
        r.push(c);
        assert(call_views(r@) =~= before.push(c@));
        assert(call_views(v@).take(i + 1) =~= call_views(v@).take(i as int).push(v@[i as int]@));
        i += 1;
    }
    assert(call_views(v@).take(v@.len() as int) =~= call_views(v@));
    r
}

impl Clone for Message {
    fn clone(&self) -> (r: Self)
        ensures
            r@ == self@,
    {
        Message {
            role: self.role.clone(),
            content: copy_opt(&self.content),
            tool_call_id: copy_opt(&self.tool_call_id),
            name: copy_opt(&self.name),
            tool_calls: match &self.tool_calls {
                Some(c) => Some(copy_calls(c.as_slice())),
                None => None,
            },
        }
    }
}

/// A copy of the messages from `i` to `j`.
pub fn copy_messages(v: &[Message], i: usize, j: usize) -> (r: Vec<Message>)
    requires
        i <= j <= v@.len(),
    ensures
        msg_views(r@) == msg_views(v@).subrange(i as int, j as int),
{
    let mut r: Vec<Message> = Vec::new();
    let mut k: usize = i;
    while k < j
        invariant
            i <= k <= j <= v@.len(),
            msg_views(r@) =~= msg_views(v@).subrange(i as int, k as int),
        decreases j - k,
    {
        let m = v[k].clone();
        proof {
            msg_views_push(r@, m);
            assert(msg_views(v@).subrange(i as int, k + 1) =~= msg_views(v@).subrange(
                i as int,
                k as int,
            ).push(v@[k as int]@));
        }
        r.push(m);
        k += 1;
    }
    r
}

/// A message with a role and a content alone.
pub open spec fn plain_msg(role: Seq<char>, content: Seq<char>) -> Msg {
    Msg { role, content: Some(content), tool_call_id: None, name: None, calls: None }
}

/// A message with a role and a content.
pub fn make_message(role: &str, content: String) -> (r: Message)
    ensures
        r@ == plain_msg(role@, content@),
{
    Message {
        role: role.to_owned(),
        content: Some(content),
        tool_call_id: None,
        name: None,
        tool_calls: None,
    }
}

/// The token counts of a response.
#[derive(Clone, Copy, Debug, PartialEq, Eq, Structural)]
pub struct Usage {
    pub prompt_tokens: Option<u32>,
    pub completion_tokens: Option<u32>,
    pub total_tokens: Option<u32>,
}

} // verus!
