//! What a tool sees of the session that runs it.

use vstd::prelude::*;
use crate::words;

verus! {

/// The surroundings of a tool call: the lines it prints, whether a database is there, and the agent
/// it runs for.
pub struct ToolContext {
    pub lines: Vec<String>,
    pub has_db: bool,
    pub agent_name: Option<String>,
}

impl ToolContext {
    /// A context without a database and without an agent.
    pub fn new() -> (r: Self)
        ensures
            words::views(r.lines@) == Seq::<Seq<char>>::empty(),
            !r.has_db,
            r.agent_name is None,
    {
        let r = ToolContext { lines: Vec::new(), has_db: false, agent_name: None };
        assert(words::views(r.lines@) =~= Seq::<Seq<char>>::empty());
        r
    }

    /// Prints one line.
    pub fn println(&mut self, msg: &str)
        ensures
            words::views(final(self).lines@) == words::views(old(self).lines@).push(msg@),
            final(self).has_db == old(self).has_db,
            final(self).agent_name == old(self).agent_name,
    {
        let s = msg.to_owned();
        proof {
            words::views_push(self.lines@, s);
        }
        self.lines.push(s);
    }

    /// Whether the database can be used; an error where none is configured.
    pub fn db(&self) -> (r: Result<(), String>)
        ensures
            r is Ok <==> self.has_db,
            r matches Err(e) ==> e@
                == "Database not configured. Set 'db_path' in your config file."@,
    {
        if self.has_db {
            Ok(())
        } else {
            Err("Database not configured. Set 'db_path' in your config file.".to_owned())
        }
    }

    /// Prints a label and a value on one line.
    pub fn println_pair(&mut self, label: &str, value: &str)
        ensures
            words::views(final(self).lines@) == words::views(old(self).lines@).push(
                label@ + value@,
            ),
            final(self).has_db == old(self).has_db,
            final(self).agent_name == old(self).agent_name,
    {
        let mut s = label.to_owned();
        s.append(value);
        self.println(s.as_str());
    }
}

} // verus!
