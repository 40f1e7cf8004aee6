//! The stored conversations of agents.

use vstd::prelude::*;
use crate::database::{Db, Line, MessageRow, NO_AGENT, Store, keep_messages};
use crate::database;
use crate::rows;
use crate::text::same;
use crate::words;

verus! {

/// The messages of the conversation of an agent, oldest first.
pub open spec fn conversation(v: Seq<Line>, agent: Seq<char>) -> Seq<Seq<char>> {
    let own = rows::kept(v, |m: Line| m.agent == agent);
    Seq::new(own.len(), |i: int| own[i].json)
}

/// Messages of a conversation.
pub open spec fn lines_for(agent: Seq<char>, texts: Seq<Seq<char>>) -> Seq<Line> {
    Seq::new(texts.len(), |i: int| Line { agent, json: texts[i] })
}

/// The stored messages once an agent has another conversation.
pub open spec fn saved(v: Seq<Line>, agent: Seq<char>, texts: Seq<Seq<char>>) -> Seq<Line> {
    rows::kept(v, |m: Line| m.agent != agent) + lines_for(agent, texts)
}

proof fn messages_sound(d: Db, v: Seq<Line>)
    requires
        database::sound(d),
        database::owned(d) ==> forall|i: int|
            0 <= i < v.len() ==> database::known(d.agents, (#[trigger] v[i]).agent),
    ensures
        database::sound(Db { messages: v, ..d }),
        database::owned(d) ==> database::owned(Db { messages: v, ..d }),
{
}

proof fn others_known(d: Db, agent: Seq<char>)
    requires
        database::sound(d),
    ensures
        ({
            let v = rows::kept(d.messages, |m: Line| m.agent != agent);
            database::owned(d) ==> forall|i: int|
                0 <= i < v.len() ==> database::known(d.agents, (#[trigger] v[i]).agent)
        }),
{
    let q = |m: Line| m.agent != agent;
    let v = rows::kept(d.messages, q);
    rows::kept_are_kept(d.messages, q);
    assert forall|i: int| database::owned(d) && 0 <= i < v.len() implies database::known(
        d.agents,
        (#[trigger] v[i]).agent,
    ) by {
        let x = choose|x: int| 0 <= x < d.messages.len() && d.messages[x] == v[i];
        assert(database::known(d.agents, d.messages[x].agent));
    }
}

impl Store {
    /// The messages of the conversation of an agent.
    pub fn load_agent_messages(&self, agent: &str) -> (r: Vec<String>)
        ensures
            words::views(r@) == conversation(self@.messages, agent@),
    {
        let ghost v = self@.messages;
        let ghost q = |m: Line| m.agent == agent@;
        let mut out: Vec<String> = Vec::new();
        let mut i: usize = 0;
        assert(words::views(out@) =~= conversation(v.take(0), agent@));
        while i < self.messages.len()
            invariant
                i <= self.messages@.len(),
                v == self@.messages,
                q == (|m: Line| m.agent == agent@),
                words::views(out@) == conversation(v.take(i as int), agent@),
            decreases self.messages@.len() - i,
        {
            assert(v.take(i + 1).drop_last() =~= v.take(i as int));
            assert(v.take(i + 1).last() == self.messages@[i as int]@);
            if same(self.messages[i].agent.as_str(), agent) {
                let t = self.messages[i].json.clone();
                proof {
                    words::views_push(out@, t);
                    assert(conversation(v.take(i + 1), agent@) =~= conversation(
                        v.take(i as int),
                        agent@,
                    ).push(t@));
                }
                out.push(t);
            } else {
                assert(conversation(v.take(i + 1), agent@) =~= conversation(
                    v.take(i as int),
                    agent@,
                ));
            }
            i += 1;
        }
        assert(v.take(v.len() as int) =~= v);
        out
    }

    /// How many messages the conversation of an agent has.
    pub fn agent_message_count(&self, agent: &str) -> (r: usize)
        ensures
            r == conversation(self@.messages, agent@).len(),
    {
        let texts = self.load_agent_messages(agent);
        assert(words::views(texts@).len() == texts@.len());
        texts.len()
    }

    /// Drops the conversation of an agent.
    pub fn clear_agent_messages(&mut self, agent: &str)
        requires
            database::sound(old(self)@),
        ensures
            database::sound(final(self)@),
            database::owned(old(self)@) ==> database::owned(final(self)@),
            final(self)@ == (Db {
                messages: rows::kept(old(self)@.messages, |m: Line| m.agent != agent@),
                ..old(self)@
            }),
    {
        let ghost d = self@;
        let mut messages: Vec<MessageRow> = Vec::new();
        std::mem::swap(&mut messages, &mut self.messages);
        self.messages = keep_messages(messages, agent);
        proof {
            others_known(d, agent@);
            messages_sound(d, self@.messages);
        }
    }

    /// Adds a message to the conversation of an agent.
    pub fn append_agent_message(&mut self, agent: &str, json: &str) -> (r: Result<(), String>)
        requires
            database::sound(old(self)@),
        ensures
            database::sound(final(self)@),
            database::owned(old(self)@) ==> database::owned(final(self)@),
            match r {
                Ok(_) => {
                    &&& database::known(old(self)@.agents, agent@)
                    &&& final(self)@ == (Db {
                        messages: old(self)@.messages.push(Line { agent: agent@, json: json@ }),
                        ..old(self)@
                    })
                },
                Err(e) => {
                    &&& !database::known(old(self)@.agents, agent@)
                    &&& e@ == NO_AGENT@
                    &&& final(self)@ == old(self)@
                },
            },
    {
        if !self.has_agent(agent) {
            return Err(NO_AGENT.to_owned());
        }
        let ghost d = self@;
        let row = MessageRow { agent: agent.to_owned(), json: json.to_owned() };
        proof {
            rows::rows_push(self.messages@, row);
        }
        self.messages.push(row);
        proof {
            messages_sound(d, self@.messages);
        }
        Ok(())
    }

    /// Gives an agent another conversation. Only one without messages is taken for an agent that
    /// is not there.
    pub fn save_agent_messages(&mut self, agent: &str, texts: &[String]) -> (r: Result<(), String>)
        requires
            database::sound(old(self)@),
        ensures
            database::sound(final(self)@),
            database::owned(old(self)@) ==> database::owned(final(self)@),
            match r {
                Ok(_) => {
                    &&& database::known(old(self)@.agents, agent@) || texts@.len() == 0
                    &&& final(self)@ == (Db {
                        messages: saved(old(self)@.messages, agent@, words::views(texts@)),
                        ..old(self)@
                    })
                },
                Err(e) => {
                    &&& !database::known(old(self)@.agents, agent@) && texts@.len() > 0
                    &&& e@ == NO_AGENT@
                    &&& final(self)@ == old(self)@
                },
            },
    {
        if texts.len() > 0 && !self.has_agent(agent) {
            return Err(NO_AGENT.to_owned());
        }
        let ghost d = self@;
        self.clear_agent_messages(agent);
        let ghost rest = self@.messages;
        let ghost all = lines_for(agent@, words::views(texts@));
        let mut i: usize = 0;
        assert(rest =~= rest + all.take(0));
        while i < texts.len()
            invariant
                i <= texts@.len(),
                all == lines_for(agent@, words::views(texts@)),
                self@ == (Db { messages: self@.messages, ..d }),
                self@.messages == rest + all.take(i as int),
            decreases texts@.len() - i,
        {
            let row = MessageRow { agent: agent.to_owned(), json: texts[i].clone() };
            proof {
                rows::rows_push(self.messages@, row);
                assert(row@ == all[i as int]);
                assert((rest + all.take(i as int)).push(all[i as int]) =~= rest + all.take(i + 1));
            }
            self.messages.push(row);
            i += 1;
        }
        proof {
            assert(all.take(all.len() as int) =~= all);
            others_known(d, agent@);
            messages_sound(d, self@.messages);
        }
        Ok(())
    }
}

proof fn own_lines(agent: Seq<char>, texts: Seq<Seq<char>>, other: Seq<char>)
    ensures
        rows::kept(lines_for(agent, texts), |m: Line| m.agent == other) == (if other == agent {
            lines_for(agent, texts)
        } else {
            Seq::empty()
        }),
    decreases texts.len(),
{
    let v = lines_for(agent, texts);
    let q = |m: Line| m.agent == other;
    if texts.len() == 0 {
        assert(rows::kept(v, q) =~= Seq::<Line>::empty());
        assert(v =~= Seq::<Line>::empty());
    } else {
        own_lines(agent, texts.drop_last(), other);
        assert(v.drop_last() =~= lines_for(agent, texts.drop_last()));
        if other == agent {
            assert(v.drop_last().push(v.last()) =~= v);
        }
    }
}

proof fn others_lines(v: Seq<Line>, agent: Seq<char>, other: Seq<char>)
    ensures
        rows::kept(rows::kept(v, |m: Line| m.agent != agent), |m: Line| m.agent == other) == (
        if other == agent {
            Seq::empty()
        } else {
            rows::kept(v, |m: Line| m.agent == other)
        }),
    decreases v.len(),
{
    let p = |m: Line| m.agent != agent;
    let q = |m: Line| m.agent == other;
    if v.len() > 0 {
        others_lines(v.drop_last(), agent, other);
        if p(v.last()) {
            assert(rows::kept(v, p).drop_last() =~= rows::kept(v.drop_last(), p));
            assert(rows::kept(v, p).last() == v.last());
        }
    } else {
        assert(rows::kept(v, p) =~= Seq::<Line>::empty());
        assert(rows::kept(rows::kept(v, p), q) =~= Seq::<Line>::empty());
        assert(rows::kept(v, q) =~= Seq::<Line>::empty());
    }
}

/// A conversation that was saved is the one that is loaded, and the others stay as they were.
pub proof fn saved_conversations_are_loaded(
    v: Seq<Line>,
    agent: Seq<char>,
    texts: Seq<Seq<char>>,
    other: Seq<char>,
)
    ensures
        conversation(saved(v, agent, texts), other) == (if other == agent {
            texts
        } else {
            conversation(v, other)
        }),
{
    own_lines(agent, texts, other);
    others_lines(v, agent, other);
    let q = |m: Line| m.agent == other;
    rows::kept_adds(
        rows::kept(v, |m: Line| m.agent != agent),
        lines_for(agent, texts),
        q,
    );
    if other == agent {
        assert(Seq::<Line>::empty() + lines_for(agent, texts) =~= lines_for(agent, texts));
        assert(conversation(saved(v, agent, texts), other) =~= texts);
    } else {
        assert(rows::kept(v, q) + Seq::<Line>::empty() =~= rows::kept(v, q));
    }
}

/// A message that was added is the last one of its conversation, and the others stay as they were.
pub proof fn appended_messages_come_last(
    v: Seq<Line>,
    agent: Seq<char>,
    text: Seq<char>,
    other: Seq<char>,
)
    ensures
        conversation(v.push(Line { agent, json: text }), other) == (if other == agent {
            conversation(v, other).push(text)
        } else {
            conversation(v, other)
        }),
{
    let w = v.push(Line { agent, json: text });
    assert(w.drop_last() =~= v);
    if other == agent {
        assert(conversation(w, other) =~= conversation(v, other).push(text));
    }
}

} // verus!
