//! Stored messages from agents to agents.

use vstd::prelude::*;
use crate::database::{Clock, Db, NO_AGENT, NO_NUMBER, Store};
use crate::database;
use crate::rows;
use crate::store::{Note, NotificationRow, hears};
use crate::store;

verus! {

/// The messages that a session is to see.
pub open spec fn heard_by(d: Db, session: Seq<char>, cutoff: Seq<char>) -> Seq<Note> {
    rows::kept(d.notes, |n: Note| store::some_listens(d.agents, n.to, session, cutoff))
}

/// The messages that a session is not to see.
pub open spec fn unheard_by(d: Db, session: Seq<char>, cutoff: Seq<char>) -> Seq<Note> {
    rows::kept(d.notes, |n: Note| !store::some_listens(d.agents, n.to, session, cutoff))
}

proof fn kept_notes_sound(d: Db, keep: spec_fn(Note) -> bool)
    requires
        database::sound(d),
    ensures
        database::sound(Db { notes: rows::kept(d.notes, keep), ..d }),
        database::owned(d) ==> database::owned(Db { notes: rows::kept(d.notes, keep), ..d }),
{
    let k = rows::kept(d.notes, keep);
    database::kept_notes_numbered(d.notes, d.next_note, keep);
    rows::kept_are_kept(d.notes, keep);
    assert forall|i: int| database::owned(d) && 0 <= i < k.len() implies {
        &&& database::known(d.agents, (#[trigger] k[i]).from)
        &&& database::known(d.agents, k[i].to)
    } by {
        let x = choose|x: int| 0 <= x < d.notes.len() && d.notes[x] == k[i];
        assert(database::known(d.agents, d.notes[x].from));
    }
}

impl Store {
    /// Sends a message from an agent to another; gives its number.
    pub fn send_notification(
        &mut self,
        from_agent: &str,
        to_agent: &str,
        message: &str,
        clock: &Clock,
    ) -> (r: Result<i64, String>)
        requires
            database::sound(old(self)@),
        ensures
            database::sound(final(self)@),
            database::owned(old(self)@) ==> database::owned(final(self)@),
            match r {
                Ok(id) => {
                    &&& old(self)@.next_note < i64::MAX
                    &&& database::known(old(self)@.agents, from_agent@)
                    &&& database::known(old(self)@.agents, to_agent@)
                    &&& id == old(self)@.next_note
                    &&& final(self)@ == (Db {
                        notes: old(self)@.notes.push(
                            Note {
                                id: id as int,
                                from: from_agent@,
                                to: to_agent@,
                                message: message@,
                                created_at: clock.now@,
                            },
                        ),
                        next_note: id + 1,
                        ..old(self)@
                    })
                },
                Err(e) => {
                    &&& final(self)@ == old(self)@
                    &&& if old(self)@.next_note == i64::MAX {
                        e@ == NO_NUMBER@
                    } else {
                        &&& e@ == NO_AGENT@
                        &&& !(database::known(old(self)@.agents, from_agent@)
                            && database::known(old(self)@.agents, to_agent@))
                    }
                },
            },
    {
        if self.next_note == i64::MAX {
            return Err(NO_NUMBER.to_owned());
        }
        if !self.has_agent(from_agent) || !self.has_agent(to_agent) {
            return Err(NO_AGENT.to_owned());
        }
        let ghost d = self@;
        let id: i64 = self.next_note;
        let row = NotificationRow {
            id,
            from_agent: from_agent.to_owned(),
            to_agent: to_agent.to_owned(),
            message: message.to_owned(),
            created_at: clock.now.clone(),
        };
        proof {
            rows::rows_push(self.notes@, row);
        }
        self.notes.push(row);
        self.next_note = id + 1;
        proof {
            let v = self@.notes;
            assert(v == d.notes.push(row@));
            assert forall|i: int, j: int| 0 <= i < j < v.len() implies (#[trigger] v[i]).id < (
            #[trigger] v[j]).id by {
                assert(v[i] == d.notes[i]);
                if j < d.notes.len() {
                    assert(v[j] == d.notes[j]);
                }
            }
            assert forall|i: int| 0 <= i < v.len() implies (#[trigger] v[i]).id < id + 1 by {
                if i < d.notes.len() {
                    assert(v[i] == d.notes[i]);
                }
            }
            assert forall|i: int| database::owned(d) && 0 <= i < v.len() implies database::known(
                d.agents,
                (#[trigger] v[i]).from,
            ) && database::known(d.agents, v[i].to) by {
                if i < d.notes.len() {
                    assert(v[i] == d.notes[i]);
                }
            }
        }
        Ok(id)
    }

    /// Hands the messages that a session is to see to it, oldest first. They are not kept.
    pub fn poll_notifications_for_session(&mut self, session: &str, clock: &Clock) -> (r: Vec<
        NotificationRow,
    >)
        requires
            database::sound(old(self)@),
        ensures
            database::sound(final(self)@),
            database::owned(old(self)@) ==> database::owned(final(self)@),
            rows::rows_view(r@) == heard_by(old(self)@, session@, clock.cutoff@),
            final(self)@ == (Db {
                notes: unheard_by(old(self)@, session@, clock.cutoff@),
                ..old(self)@
            }),
    {
        let ghost d = self@;
        let ghost v = d.notes;
        let ghost yes = |n: Note| store::some_listens(d.agents, n.to, session@, clock.cutoff@);
        let ghost no = |n: Note| !store::some_listens(d.agents, n.to, session@, clock.cutoff@);
        let mut notes: Vec<NotificationRow> = Vec::new();
        std::mem::swap(&mut notes, &mut self.notes);
        let mut heard: Vec<NotificationRow> = Vec::new();
        let mut rest: Vec<NotificationRow> = Vec::new();
        let ghost mut k: int = 0;
        assert(rows::rows_view(heard@) =~= rows::kept(v.take(0), yes));
        assert(rows::rows_view(rest@) =~= rows::kept(v.take(0), no));
        assert(rows::rows_view(notes@) =~= v.skip(0));
        while notes.len() > 0
            invariant
                0 <= k <= v.len(),
                k + notes@.len() == v.len(),
                d.notes == v,
                self@ == (Db { notes: self@.notes, ..d }),
                yes == (|n: Note|
                    store::some_listens(d.agents, n.to, session@, clock.cutoff@)),
                no == (|n: Note|
                    !store::some_listens(d.agents, n.to, session@, clock.cutoff@)),
                rows::rows_view(notes@) == v.skip(k),
                rows::rows_view(heard@) == rows::kept(v.take(k), yes),
                rows::rows_view(rest@) == rows::kept(v.take(k), no),
            decreases notes@.len(),
        {
            let ghost before = notes@;
            let n = notes.remove(0);
            proof {
                assert(rows::rows_view(before)[0] == n@);
                assert(v.skip(k)[0] == v[k]);
                assert(v.take(k + 1).drop_last() =~= v.take(k));
                assert(v.take(k + 1).last() == n@);
                assert(rows::rows_view(notes@) =~= v.skip(k + 1)) by {
                    assert forall|j: int| 0 <= j < notes@.len() implies #[trigger] rows::rows_view(
                        notes@,
                    )[j] == v.skip(k + 1)[j] by {
                        assert(rows::rows_view(before)[j + 1] == v.skip(k)[j + 1]);
                    }
                }
                rows::rows_push(heard@, n);
                rows::rows_push(rest@, n);
            }
            if hears(
                self.agents.as_slice(),
                n.to_agent.as_str(),
                session,
                clock.cutoff.as_str(),
            ) {
                heard.push(n);
            } else {
                rest.push(n);
            }
            proof {
                k = k + 1;
            }
        }
        self.notes = rest;
        proof {
            assert(v.take(v.len() as int) =~= v);
            kept_notes_sound(d, no);
        }
        heard
    }
}

/// What a session saw once, it does not see again.
pub proof fn messages_arrive_once(d: Db, session: Seq<char>, cutoff: Seq<char>)
    ensures
        heard_by(
            Db { notes: unheard_by(d, session, cutoff), ..d },
            session,
            cutoff,
        ).len() == 0,
{
    let yes = |n: Note| store::some_listens(d.agents, n.to, session, cutoff);
    let no = |n: Note| !store::some_listens(d.agents, n.to, session, cutoff);
    let v = rows::kept(d.notes, no);
    let w = rows::kept(v, yes);
    rows::kept_are_kept(d.notes, no);
    rows::kept_are_kept(v, yes);
    if w.len() > 0 {
        assert(yes(w[0]) && v.contains(w[0]));
        let i = choose|i: int| 0 <= i < v.len() && v[i] == w[0];
        assert(no(v[i]));
    }
}

/// A message is kept until the session of the agent that it is for has seen it.
pub proof fn messages_wait(d: Db, session: Seq<char>, cutoff: Seq<char>, i: int)
    requires
        0 <= i < d.notes.len(),
    ensures
        store::some_listens(d.agents, d.notes[i].to, session, cutoff) ==> heard_by(
            d,
            session,
            cutoff,
        ).contains(d.notes[i]),
        !store::some_listens(d.agents, d.notes[i].to, session, cutoff) ==> unheard_by(
            d,
            session,
            cutoff,
        ).contains(d.notes[i]),
{
    let yes = |n: Note| store::some_listens(d.agents, n.to, session, cutoff);
    let no = |n: Note| !store::some_listens(d.agents, n.to, session, cutoff);
    if yes(d.notes[i]) {
        rows::kept_has(d.notes, yes, i);
    } else {
        rows::kept_has(d.notes, no, i);
    }
}

} // verus!
