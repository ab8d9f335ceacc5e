//! Recording the states of an execution, one JSON object on each line.
use crate::error::Error;
use crate::error::ErrorView;
use crate::error::ValidationError;
use crate::error::ValidationErrorView;
use crate::json::json_debug;
use crate::json::json_debug_of;
use crate::json::json_text;
use crate::json::json_text_of;
use crate::json::lemma_json_view_unfold;
use crate::json::member_views_of;
use crate::json::Json;
use crate::json::JsonView;
use crate::text::add_capped;
use crate::text::capped;
use crate::text::push_text;
use vstd::prelude::*;

verus! {

/// The members of an object with the member `key` set to `value`: the first
/// member of that name is given the value, and where there is none, the
/// member is added at the end.
pub open spec fn with_member(
    members: Seq<(Seq<char>, JsonView)>,
    key: Seq<char>,
    value: JsonView,
) -> Seq<(Seq<char>, JsonView)>
    decreases members.len(),
{
    if members.len() == 0 {
        seq![(key, value)]
    } else if members[0].0 == key {
        seq![(key, value)] + members.skip(1)
    } else {
        seq![members[0]] + with_member(members.skip(1), key, value)
    }
}

/// The line that records a state under an action: the state, which has to
/// be an object, with the action as its member `action`, written as JSON
/// and ended by a line feed.
pub open spec fn emitted_line_of(action: Seq<char>, state: JsonView) -> Result<Seq<char>, ErrorView> {
    match state {
        JsonView::Object(members) => Ok(
            json_text_of(JsonView::Object(with_member(members, "action"@, JsonView::String(action))))
                + "\n"@,
        ),
        _ => Err(
            ErrorView::Validation(
                ValidationErrorView::NonObjectState { found: json_debug_of(state) },
            ),
        ),
    }
}

fn set_member(members: &Vec<(String, Json)>, key: &str, value: Json) -> (r: Vec<(String, Json)>)
    ensures
        member_views_of(r@) == with_member(member_views_of(members@), key@, value@),
{
    let ghost all = member_views_of(members@);
    let wanted = key.to_owned();
    let mut out: Vec<(String, Json)> = Vec::new();
    let mut pending: Option<Json> = Some(value);
    let mut i: usize = 0;
    assert(all.skip(0) =~= all);
    assert(member_views_of(out@) =~= Seq::empty());
    while i < members.len()
        invariant
            i <= members.len(),
            wanted@ == key@,
            all == member_views_of(members@),
            match pending {
                Some(v) => v@ == value@ && with_member(all, key@, value@) == member_views_of(out@)
                    + with_member(all.skip(i as int), key@, value@),
                None => with_member(all, key@, value@) == member_views_of(out@) + all.skip(
                    i as int,
                ),
            },
        decreases members.len() - i,
    {
        let ghost before = member_views_of(out@);
        let ghost rest = all.skip(i as int);
        assert(rest[0] == all[i as int]);
        assert(rest.skip(1) =~= all.skip(i + 1));
        let found = pending.is_some() && members[i].0 == wanted;
        if found {
            let v = pending.take().unwrap();
            out.push((members[i].0.clone(), v));
            assert(member_views_of(out@) =~= before.push((key@, value@)));
            assert(before + (seq![(key@, value@)] + rest.skip(1)) =~= member_views_of(out@)
                + all.skip(i + 1));
        } else {
            out.push((members[i].0.clone(), members[i].1.clone()));
            assert(member_views_of(out@) =~= before.push(all[i as int]));
            if pending.is_some() {
                assert(before + (seq![rest[0]] + with_member(rest.skip(1), key@, value@))
                    =~= member_views_of(out@) + with_member(all.skip(i + 1), key@, value@));
            } else {
                assert(rest =~= seq![rest[0]] + rest.skip(1));
                assert(before + rest =~= member_views_of(out@) + all.skip(i + 1));
            }
        }
        i += 1;
    }
    let ghost before = member_views_of(out@);
    assert(all.skip(i as int) =~= Seq::empty());
    match pending {
        Some(v) => {
            out.push((wanted, v));
            assert(member_views_of(out@) =~= before.push((key@, value@)));
            assert(before + seq![(key@, value@)] =~= member_views_of(out@));
        },
        None => {
            assert(before + all.skip(i as int) =~= before);
        },
    }
    out
}

/// Writes the line that records `state` under `action`.
pub fn emit_line(action: &str, state: &Json) -> (r: Result<String, Error>)
    ensures
        match r {
            Ok(line) => emitted_line_of(action@, state@) == Ok::<Seq<char>, ErrorView>(line@),
            Err(e) => emitted_line_of(action@, state@) == Err::<Seq<char>, ErrorView>(e@),
        },
{
    proof {
        lemma_json_view_unfold(*state);
    }
    match state {
        Json::Object(members) => {
            let named = Json::Object(set_member(members, "action", Json::String(action.to_owned())));
            proof {
                lemma_json_view_unfold(named);
            }
            let mut line = json_text(&named);
            push_text(&mut line, "\n");
            Ok(line)
        },
        _ => Err(Error::Validation(ValidationError::NonObjectState { found: json_debug(state) })),
    }
}

/// Records the states of an execution as lines of JSON. The lines are
/// collected; whoever owns the emitter writes them out.
pub struct StateEmitter {
    pending: String,
    count: usize,
}

impl StateEmitter {
    /// The lines that were emitted and not yet taken.
    pub closed spec fn pending(&self) -> Seq<char> {
        self.pending@
    }

    /// How many states were emitted.
    pub closed spec fn emitted(&self) -> usize {
        self.count
    }

    /// An emitter that has emitted nothing.
    pub fn new() -> (r: Self)
        ensures
            r.pending() == Seq::<char>::empty(),
            r.emitted() == 0,
    {
        StateEmitter { pending: String::new(), count: 0 }
    }

    /// Records `state`, which has to be an object, under `action`. A state
    /// that is no object is refused, and nothing is recorded. The states are
    /// counted as far as the machine counts.
    pub fn emit(&mut self, action: &str, state: &Json) -> (r: Result<(), Error>)
        ensures
            match emitted_line_of(action@, state@) {
                Ok(line) => {
                    &&& r is Ok
                    &&& final(self).pending() == old(self).pending() + line
                    &&& final(self).emitted() == capped(old(self).emitted() + 1)
                },
                Err(e) => {
                    &&& r matches Err(err) && err@ == e
                    &&& final(self).pending() == old(self).pending()
                    &&& final(self).emitted() == old(self).emitted()
                },
            },
    {
        match emit_line(action, state) {
            Ok(line) => {
                push_text(&mut self.pending, line.as_str());
                self.count = add_capped(self.count, 1);
                Ok(())
            },
            Err(e) => Err(e),
        }
    }

    /// Hands out the lines that were emitted since the last call, to be
    /// written out.
    pub fn take_pending(&mut self) -> (lines: String)
        ensures
            lines@ == old(self).pending(),
            final(self).pending() == Seq::<char>::empty(),
            final(self).emitted() == old(self).emitted(),
    {
        let mut lines = String::new();
        push_text(&mut lines, self.pending.as_str());
        assert(lines@ =~= self.pending@);
        self.pending = String::new();
        lines
    }

    /// Ends the recording: the lines that were not yet taken, and the
    /// number of states that were emitted.
    pub fn finish(self) -> (r: (String, usize))
        ensures
            r.0@ == self.pending(),
            r.1 == self.emitted(),
    {
        (self.pending, self.count)
    }

    /// How many states were emitted so far.
    pub fn count(&self) -> (n: usize)
        ensures
            n == self.emitted(),
    {
        self.count
    }
}

} // verus!
