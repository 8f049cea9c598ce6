//! What holds of the window registry over whole sequences of window events.

use crate::message::{EffectView, MessageView};
use crate::state::{effects_after, lemma_vacant_is_zero, vacant, windows_after, StateView};
use crate::window_state::WindowView;
use iced::window::Id;
use vstd::prelude::*;

verus! {

/// The message says that a window was opened or closed.
pub open spec fn is_window_event(message: MessageView) -> bool {
    message is WindowOpened || message is WindowClosed
}

/// The windows after a sequence of messages, handled in order.
pub open spec fn replayed(windows: Map<Id, WindowView>, events: Seq<MessageView>) -> Map<Id, WindowView>
    decreases events.len(),
{
    if events.len() == 0 {
        windows
    } else {
        windows_after(replayed(windows, events.drop_last()), events.last())
    }
}

/// Number of messages that say that a window was opened.
pub open spec fn opens(events: Seq<MessageView>) -> nat
    decreases events.len(),
{
    if events.len() == 0 {
        0
    } else {
        opens(events.drop_last()) + (if events.last() is WindowOpened {
            1nat
        } else {
            0nat
        })
    }
}

/// Whether the message closes a window that is open.
pub open spec fn closes_open_window(windows: Map<Id, WindowView>, message: MessageView) -> bool {
    message is WindowClosed && windows.contains_key(message->WindowClosed_0)
}

/// Number of messages that close a window which is open when they arrive.
pub open spec fn matching_closes(windows: Map<Id, WindowView>, events: Seq<MessageView>) -> nat
    decreases events.len(),
{
    if events.len() == 0 {
        0
    } else {
        matching_closes(windows, events.drop_last()) + (if closes_open_window(
            replayed(windows, events.drop_last()),
            events.last(),
        ) {
            1nat
        } else {
            0nat
        })
    }
}

/// Every window that is reported open comes under an identifier that no open
/// window has at that time.
pub open spec fn opens_are_new(windows: Map<Id, WindowView>, events: Seq<MessageView>) -> bool
    decreases events.len(),
{
    events.len() == 0 || {
        &&& opens_are_new(windows, events.drop_last())
        &&& events.last() is WindowOpened ==> !replayed(windows, events.drop_last()).contains_key(
            events.last()->WindowOpened_0,
        )
    }
}

/// Opened windows minus closed ones, for a registry that started empty.
pub open spec fn open_count(events: Seq<MessageView>) -> int {
    opens(events) - matching_closes(Map::empty(), events)
}

/// Whether the effects ask for the application to end.
pub open spec fn asks_to_exit(effects: Seq<EffectView>) -> bool {
    effects.contains(EffectView::Exit)
}

/// What holds of a sequence of events holds of each of its beginnings.
pub proof fn lemma_prefix_opens_are_new(
    windows: Map<Id, WindowView>,
    events: Seq<MessageView>,
    k: int,
)
    requires
        opens_are_new(windows, events),
        0 <= k <= events.len(),
    ensures
        opens_are_new(windows, events.take(k)),
    decreases events.len(),
{
    if k == events.len() {
        assert(events.take(k) =~= events);
    } else {
        lemma_prefix_opens_are_new(windows, events.drop_last(), k);
        assert(events.drop_last().take(k) =~= events.take(k));
    }
}

/// After any sequence of window events in which each opened window comes
/// under a new identifier, the registry holds as many windows as it held at the
/// start, plus those opened, minus those closed that were open.
pub proof fn lemma_registry_size(windows: Map<Id, WindowView>, events: Seq<MessageView>)
    requires
        windows.dom().finite(),
        forall|i: int| 0 <= i < events.len() ==> is_window_event(#[trigger] events[i]),
        opens_are_new(windows, events),
    ensures
        replayed(windows, events).dom().finite(),
        replayed(windows, events).len() == windows.len() + opens(events) - matching_closes(
            windows,
            events,
        ),
    decreases events.len(),
{
    if events.len() > 0 {
        let earlier = events.drop_last();
        assert forall|i: int| 0 <= i < earlier.len() implies is_window_event(
            #[trigger] earlier[i],
        ) by {
            assert(earlier[i] == events[i]);
        }
        lemma_registry_size(windows, earlier);
        let before = replayed(windows, earlier);
        assert(is_window_event(events[events.len() - 1]));
        match events.last() {
            MessageView::WindowOpened(id, request) => {
                assert(!before.contains_key(id));
            },
            MessageView::WindowClosed(id) => {},
            _ => {},
        }
    }
}

/// For a registry that starts empty: after any sequence of window events in
/// which each opened window comes under a new identifier, the registry holds
/// the number of windows opened minus those closed that were open.
pub proof fn lemma_open_count(events: Seq<MessageView>)
    requires
        forall|i: int| 0 <= i < events.len() ==> is_window_event(#[trigger] events[i]),
        opens_are_new(Map::empty(), events),
    ensures
        replayed(Map::empty(), events).dom().finite(),
        replayed(Map::empty(), events).len() == open_count(events),
        open_count(events) >= 0,
{
    lemma_registry_size(Map::empty(), events);
}

/// For a registry that starts empty: the event at place `k` of such a
/// sequence makes the application ask to end exactly when it brings the
/// number of open windows to zero from a number above zero.
pub proof fn lemma_exit_when_count_reaches_zero(
    state: StateView,
    events: Seq<MessageView>,
    k: int,
)
    requires
        forall|i: int| 0 <= i < events.len() ==> is_window_event(#[trigger] events[i]),
        opens_are_new(Map::empty(), events),
        0 <= k < events.len(),
        state.windows == replayed(Map::empty(), events.take(k)),
    ensures
        asks_to_exit(effects_after(state, events[k])) <==> open_count(events.take(k)) > 0
            && open_count(events.take(k + 1)) == 0,
{
    let upto = events.take(k);
    let with_it = events.take(k + 1);
    assert(with_it.drop_last() =~= upto);
    assert(with_it.last() == events[k]);
    lemma_prefix_opens_are_new(Map::empty(), events, k);
    lemma_prefix_opens_are_new(Map::empty(), events, k + 1);
    assert forall|i: int| 0 <= i < upto.len() implies is_window_event(#[trigger] upto[i]) by {
        assert(upto[i] == events[i]);
    }
    assert forall|i: int| 0 <= i < with_it.len() implies is_window_event(
        #[trigger] with_it[i],
    ) by {
        assert(with_it[i] == events[i]);
    }
    lemma_open_count(upto);
    lemma_open_count(with_it);
    let before = replayed(Map::empty(), upto);
    let after = replayed(Map::empty(), with_it);
    assert(after == windows_after(before, events[k]));
    lemma_vacant_is_zero(before);
    lemma_vacant_is_zero(after);
    let effects = effects_after(state, events[k]);
    assert(is_window_event(events[k]));
    match events[k] {
        MessageView::WindowClosed(id) => {
            if asks_to_exit(effects) {
                assert(effects.len() > 0);
            } else {
                if !vacant(before) && vacant(before.remove(id)) {
                    assert(effects[0] == EffectView::Exit);
                }
            }
        },
        MessageView::WindowOpened(id, request) => {
            assert(after.contains_key(id));
            if asks_to_exit(effects) {
                let at = effects.index_of(EffectView::Exit);
                assert(effects[at] == EffectView::Exit);
            }
        },
        _ => {},
    }
}

} // verus!
