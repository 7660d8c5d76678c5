//! Laws of the engine that span several functions, proved once and for all.

use vstd::prelude::*;
use crate::agent::{assembled_context, instruction_content_view};
use crate::content::ContentView;
use crate::errors::ModelError;
use crate::event::{
    EventView, content_event_count, error_event, error_event_count, errors_are_terminal,
};

verus! {

/// Sequential runs see each other: when a completed turn has appended the
/// user message and the agent reply to a transcript, the context assembled
/// for the next run on the same key is the instruction, the whole earlier
/// transcript, the first run's two entries, and the new input — in that
/// order, with nothing dropped.
pub proof fn lemma_second_run_sees_first_turn(
    instruction: Seq<char>,
    before: Seq<ContentView>,
    user1: ContentView,
    reply1: ContentView,
    user2: ContentView,
)
    ensures
        assembled_context(instruction, before + seq![user1, reply1], user2) == seq![
            instruction_content_view(instruction),
        ] + before + seq![user1, reply1, user2],
{
    assert(assembled_context(instruction, before + seq![user1, reply1], user2) =~= seq![
        instruction_content_view(instruction),
    ] + before + seq![user1, reply1, user2]);
}

/// A model failure before any chunk closes the stream with exactly one
/// terminal error and no content event at all: starting from the empty
/// emission, the error event is the whole stream.
pub proof fn lemma_error_before_first_chunk(author: Seq<char>, err: ModelError)
    ensures
        ({
            let events = Seq::<EventView>::empty().push(error_event(author, err));
            &&& content_event_count(events) == 0
            &&& error_event_count(events) == 1
            &&& errors_are_terminal(events)
            &&& events.last().is_terminal()
        }),
{
    let events = Seq::<EventView>::empty().push(error_event(author, err));
    assert(events.drop_last() =~= Seq::<EventView>::empty());
    assert(content_event_count(events.drop_last()) == 0);
    assert(error_event_count(events.drop_last()) == 0);
    assert(!error_event(author, err).is_content());
    assert(error_event(author, err).is_error());
}

/// The transcript produced by a sequence of whole turns, each appended
/// atomically as its user message followed by its agent reply.
pub open spec fn turns_flattened(
    before: Seq<ContentView>,
    turns: Seq<(ContentView, ContentView)>,
) -> Seq<ContentView>
    decreases turns.len(),
{
    if turns.len() == 0 {
        before
    } else {
        turns_flattened(before, turns.drop_last()) + seq![turns.last().0, turns.last().1]
    }
}

/// Serialized appends keep every turn whole: a transcript built from
/// atomic two-entry appends has twice as many entries as turns, keeps the
/// earlier transcript as its prefix, and keeps each turn's two entries
/// adjacent and in order — no append is ever torn or overwritten.
pub proof fn lemma_turns_flattened_shape(
    before: Seq<ContentView>,
    turns: Seq<(ContentView, ContentView)>,
)
    ensures
        turns_flattened(before, turns).len() == before.len() + 2 * turns.len(),
        forall|i: int|
            0 <= i < before.len() ==> #[trigger] turns_flattened(before, turns)[i] == before[i],
        forall|i: int|
            0 <= i < turns.len() ==> turns_flattened(before, turns)[before.len() + 2 * i] == (
            #[trigger] turns[i]).0 && turns_flattened(before, turns)[before.len() + 2 * i + 1]
                == turns[i].1,
    decreases turns.len(),
{
    if turns.len() == 0 {
    } else {
        let rest = turns.drop_last();
        lemma_turns_flattened_shape(before, rest);
        let p = turns_flattened(before, rest);
        let t = turns_flattened(before, turns);
        assert(t == p + seq![turns.last().0, turns.last().1]);
        assert forall|i: int|
            0 <= i < turns.len() implies t[before.len() + 2 * i] == (#[trigger] turns[i]).0 && t[
            before.len() + 2 * i + 1] == turns[i].1 by {
            if i < turns.len() - 1 {
                assert(rest[i] == turns[i]);
                assert(t[before.len() + 2 * i] == p[before.len() + 2 * i]);
                assert(t[before.len() + 2 * i + 1] == p[before.len() + 2 * i + 1]);
            } else {
                assert(before.len() + 2 * i == p.len());
            }
        }
    }
}

/// Well-formed role alternation: when every turn pairs a user-role message
/// with an agent-role reply, the transcript built from those turns
/// alternates the two roles strictly, user first.
pub proof fn lemma_role_alternation(
    turns: Seq<(ContentView, ContentView)>,
    user_role: Seq<char>,
    agent_role: Seq<char>,
)
    requires
        forall|i: int|
            0 <= i < turns.len() ==> (#[trigger] turns[i]).0.role == user_role && turns[i].1.role
                == agent_role,
    ensures
        turns_flattened(Seq::<ContentView>::empty(), turns).len() == 2 * turns.len(),
        forall|j: int|
            0 <= j < 2 * turns.len() ==> (#[trigger] turns_flattened(
                Seq::<ContentView>::empty(),
                turns,
            )[j]).role == (if j % 2 == 0 {
                user_role
            } else {
                agent_role
            }),
{
    lemma_turns_flattened_shape(Seq::<ContentView>::empty(), turns);
    let t = turns_flattened(Seq::<ContentView>::empty(), turns);
    assert forall|j: int|
        0 <= j < 2 * turns.len() implies (#[trigger] t[j]).role == (if j % 2 == 0 {
        user_role
    } else {
        agent_role
    }) by {
        let i = j / 2;
        assert(j == 2 * i + j % 2);
        assert(0 <= i < turns.len());
        if j % 2 == 0 {
            assert(t[2 * i] == turns[i].0);
        } else {
            assert(t[2 * i + 1] == turns[i].1);
        }
    }
}

} // verus!
