//! What the server asks its surroundings to do.
use vstd::prelude::*;

use crate::addr::{Addr, Remote};
use crate::message::{RendezvousMessage, UnionView};

verus! {

#[derive(Debug)]
pub enum Action {
    /// Write a message to a sink.
    Send { sink: u64, message: RendezvousMessage },
    /// Send a message in a datagram.
    SendUdp { to: Addr, message: RendezvousMessage },
    /// Nothing refers to the sink any more: let go of it.
    Release { sink: u64 },
    /// Record the key of a peer, with where and by which machine it was registered.
    UpdatePk { id: String, addr: Remote, uuid: Vec<u8>, pk: Vec<u8>, ip: String },
    /// Where the peer is in memory, note that it was heard.
    HearPeer { id: String, addr: Remote, now: u64 },
    /// Where the peer is in memory, note when it was heard; where it is stays as it was.
    RefreshPeer { id: String, now: u64 },
}

pub enum ActionView {
    Send { sink: u64, message: Option<UnionView> },
    SendUdp { to: Addr, message: Option<UnionView> },
    Release { sink: u64 },
    UpdatePk { id: Seq<char>, addr: Remote, uuid: Seq<u8>, pk: Seq<u8>, ip: Seq<char> },
    HearPeer { id: Seq<char>, addr: Remote, now: u64 },
    RefreshPeer { id: Seq<char>, now: u64 },
}

impl View for Action {
    type V = ActionView;

    open spec fn view(&self) -> ActionView {
        match self {
            Action::Send { sink, message } => ActionView::Send { sink: *sink, message: message@ },
            Action::SendUdp { to, message } => ActionView::SendUdp { to: *to, message: message@ },
            Action::Release { sink } => ActionView::Release { sink: *sink },
            Action::UpdatePk { id, addr, uuid, pk, ip } => ActionView::UpdatePk {
                id: id@,
                addr: *addr,
                uuid: uuid@,
                pk: pk@,
                ip: ip@,
            },
            Action::HearPeer { id, addr, now } => ActionView::HearPeer {
                id: id@,
                addr: *addr,
                now: *now,
            },
            Action::RefreshPeer { id, now } => ActionView::RefreshPeer { id: id@, now: *now },
        }
    }
}

/// What a list of actions says.
pub open spec fn actions(list: Seq<Action>) -> Seq<ActionView> {
    list.map_values(|action: Action| action@)
}

/// The message written to the sink, where there is one.
pub open spec fn sent(sink: Option<u64>, message: Option<UnionView>) -> Seq<ActionView> {
    match sink {
        Some(sink) => seq![ActionView::Send { sink, message }],
        None => seq![],
    }
}

/// The sink let go of, where there is one.
pub open spec fn released(sink: Option<u64>) -> Seq<ActionView> {
    match sink {
        Some(sink) => seq![ActionView::Release { sink }],
        None => seq![],
    }
}

/// Puts an action at the end of a list.
pub(crate) fn push_action(list: &mut Vec<Action>, action: Action)
    ensures
        actions(final(list)@) == actions(old(list)@).push(action@),
{
    list.push(action);
    assert(actions(list@) =~= actions(old(list)@).push(action@));
}

/// The list that holds no action.
pub(crate) fn no_actions() -> (list: Vec<Action>)
    ensures
        actions(list@) == Seq::<ActionView>::empty(),
{
    let list: Vec<Action> = Vec::new();
    assert(actions(list@) =~= Seq::<ActionView>::empty());
    list
}

/// Writes a message to the sink, where there is one.
pub(crate) fn push_send(list: &mut Vec<Action>, sink: Option<u64>, message: RendezvousMessage)
    ensures
        actions(final(list)@) == actions(old(list)@) + sent(sink, message@),
{
    if let Some(sink) = sink {
        push_action(list, Action::Send { sink, message });
    }
    assert(actions(list@) =~= actions(old(list)@) + sent(sink, message@));
}

/// Lets go of the sink, where there is one.
pub(crate) fn push_release(list: &mut Vec<Action>, sink: Option<u64>)
    ensures
        actions(final(list)@) == actions(old(list)@) + released(sink),
{
    if let Some(sink) = sink {
        push_action(list, Action::Release { sink });
    }
    assert(actions(list@) =~= actions(old(list)@) + released(sink));
}

} // verus!
