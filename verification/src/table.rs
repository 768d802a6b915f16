//! The arguments that completed responses have resolved, by call identifier.

use crate::classify::{calls_view, ResolvedCall, ResolvedCallView};
use vstd::prelude::*;

verus! {

/// A table from call identifiers to arguments.
pub type Arguments = Map<Seq<char>, Seq<char>>;

/// The table with the given calls written to it in their order, so that of two
/// calls with one identifier the later one stays.
pub open spec fn merged(table: Arguments, calls: Seq<ResolvedCallView>) -> Arguments
    decreases calls.len(),
{
    if calls.len() == 0 {
        table
    } else {
        merged(table, calls.drop_last()).insert(calls.last().call_id, calls.last().arguments)
    }
}

/// The resolved arguments of one request.
#[derive(Debug)]
pub struct ArgumentTable {
    entries: Vec<ResolvedCall>,
}

impl View for ArgumentTable {
    type V = Arguments;

    closed spec fn view(&self) -> Arguments {
        merged(Map::empty(), calls_view(self.entries@))
    }
}

impl ArgumentTable {
    /// An empty table.
    pub fn new() -> (table: ArgumentTable)
        ensures
            table@ == Map::<Seq<char>, Seq<char>>::empty(),
    {
        ArgumentTable { entries: Vec::new() }
    }

    /// Writes the arguments of a call; what was there for its identifier is
    /// replaced.
    pub fn insert(&mut self, call: ResolvedCall)
        ensures
            final(self)@ == old(self)@.insert(call.call_id@, call.arguments@),
    {
        let ghost before = calls_view(self.entries@);
        self.entries.push(call);
        assert(calls_view(self.entries@).drop_last() == before);
    }

    /// The arguments written for a call identifier.
    pub fn get(&self, call_id: &str) -> (found: Option<&str>)
        ensures
            found matches Some(arguments) ==> self@.contains_key(call_id@) && self@[call_id@]
                == arguments@,
            found is None ==> !self@.contains_key(call_id@),
    {
        let ghost shown = calls_view(self.entries@);
        let mut at: usize = self.entries.len();
        assert(shown.take(at as int) == shown);
        while at > 0
            invariant
                at <= self.entries.len(),
                shown == calls_view(self.entries@),
                merged(Map::empty(), shown).contains_key(call_id@) <==> merged(
                    Map::empty(),
                    shown.take(at as int),
                ).contains_key(call_id@),
                merged(Map::empty(), shown).contains_key(call_id@) ==> merged(
                    Map::empty(),
                    shown,
                )[call_id@] == merged(Map::empty(), shown.take(at as int))[call_id@],
            decreases at,
        {
            at -= 1;
            assert(shown.take(at + 1).drop_last() == shown.take(at as int));
            if self.entries[at].call_id.as_str().eq(call_id) {
                return Some(self.entries[at].arguments.as_str());
            }
        }
        None
    }
}

} // verus!
