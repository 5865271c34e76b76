//! Gamepad hot-plug bookkeeping.
//!
//! The host drains its queue of device connection events into
//! [`gamepad_connections`] once per frame. The first gamepad seen connecting
//! while none is active becomes the active one; it is released only when that
//! same device disconnects. A diagnostic event is produced whenever the
//! selection changes, and for nothing else.

use vstd::prelude::*;

use crate::resources::ActiveGamepad;

verus! {

/// One device connection event, by host-assigned gamepad identifier. A
/// connection carries the device's human-readable name.
#[derive(Clone, Debug)]
pub enum GamepadEvent {
    Connected { id: u64, name: String },
    Disconnected { id: u64 },
}

/// A fire-and-forget diagnostic record: the active selection was set to a
/// newly connected device, or cleared because the selected device left.
#[derive(Clone, Debug)]
pub enum GamepadDiag {
    Selected { id: u64, name: String },
    Cleared { id: u64 },
}

/// The selection after one event, first-connected-wins: a connection is
/// adopted only while nothing is selected; a disconnection clears the
/// selection only if it names the selected device, and any other
/// disconnection is ignored.
pub open spec fn spec_step_selection(sel: Option<u64>, ev: GamepadEvent) -> Option<u64> {
    match ev {
        GamepadEvent::Connected { id, name } => if sel is None {
            Some(id)
        } else {
            sel
        },
        GamepadEvent::Disconnected { id } => if sel == Some(id) {
            None
        } else {
            sel
        },
    }
}

/// The diagnostics of one event: one record exactly when the selection
/// changes.
pub open spec fn spec_step_diags(sel: Option<u64>, ev: GamepadEvent) -> Seq<GamepadDiag> {
    match ev {
        GamepadEvent::Connected { id, name } => if sel is None {
            seq![GamepadDiag::Selected { id, name }]
        } else {
            Seq::empty()
        },
        GamepadEvent::Disconnected { id } => if sel == Some(id) {
            seq![GamepadDiag::Cleared { id }]
        } else {
            Seq::empty()
        },
    }
}

/// The selection after draining a whole event queue, oldest event first.
pub open spec fn spec_connections_sel(sel: Option<u64>, evs: Seq<GamepadEvent>) -> Option<u64>
    decreases evs.len(),
{
    if evs.len() == 0 {
        sel
    } else {
        spec_connections_sel(spec_step_selection(sel, evs[0]), evs.drop_first())
    }
}

/// The diagnostics of draining a whole event queue, in event order.
pub open spec fn spec_connections_diags(sel: Option<u64>, evs: Seq<GamepadEvent>) -> Seq<
    GamepadDiag,
>
    decreases evs.len(),
{
    if evs.len() == 0 {
        Seq::empty()
    } else {
        spec_step_diags(sel, evs[0]) + spec_connections_diags(
            spec_step_selection(sel, evs[0]),
            evs.drop_first(),
        )
    }
}

/// A disconnection of any device other than the selected one changes nothing
/// and produces no diagnostic.
pub proof fn lemma_disconnect_ignored(sel_id: u64, ev_id: u64)
    requires
        ev_id != sel_id,
    ensures
        spec_step_selection(Some(sel_id), GamepadEvent::Disconnected { id: ev_id }) == Some(
            sel_id,
        ),
        spec_step_diags(Some(sel_id), GamepadEvent::Disconnected { id: ev_id }) =~= Seq::<
            GamepadDiag,
        >::empty(),
{
}

/// Drains one frame's gamepad connection events into the active selection,
/// returning the diagnostic records of every selection change, in order.
pub fn gamepad_connections(active: &mut ActiveGamepad, events: Vec<GamepadEvent>) -> (diags: Vec<
    GamepadDiag,
>)
    ensures
        final (active).0 == spec_connections_sel(old(active).0, events@),
        diags@ == spec_connections_diags(old(active).0, events@),
{
    let ghost all = events@;
    let ghost sel0 = old(active).0;
    let mut events = events;
    let mut diags: Vec<GamepadDiag> = Vec::new();
    proof {
        assert(diags@ + spec_connections_diags(active.0, events@) =~= spec_connections_diags(
            sel0,
            all,
        ));
    }
    while events.len() > 0
        invariant
            spec_connections_sel(active.0, events@) == spec_connections_sel(sel0, all),
            diags@ + spec_connections_diags(active.0, events@) == spec_connections_diags(
                sel0,
                all,
            ),
        decreases events.len(),
    {
        let ghost pre_sel = active.0;
        let ghost pre_evs = events@;
        let ev = events.remove(0);
        proof {
            assert(pre_evs[0] == ev);
            assert(pre_evs.drop_first() =~= events@);
        }
        match ev {
            GamepadEvent::Connected { id, name } => {
                if active.0.is_none() {
                    active.0 = Some(id);
                    diags.push(GamepadDiag::Selected { id, name });
                }
            },
            GamepadEvent::Disconnected { id } => {
                let mut remove_gamepad = false;
                match active.0 {
                    Some(old_id) => {
                        if old_id == id {
                            diags.push(GamepadDiag::Cleared { id });
                            remove_gamepad = true;
                        }
                    },
                    None => {},
                }
                if remove_gamepad {
                    active.0 = None;
                }
            },
        }
        proof {
            assert(active.0 == spec_step_selection(pre_sel, pre_evs[0]));
            assert(diags@ =~= (diags@.subrange(
                0,
                diags@.len() - spec_step_diags(pre_sel, pre_evs[0]).len(),
            ) + spec_step_diags(pre_sel, pre_evs[0])));
            assert(diags@ + spec_connections_diags(active.0, events@) =~= spec_connections_diags(
                sel0,
                all,
            ));
        }
    }
    proof {
        assert(spec_connections_diags(active.0, events@) =~= Seq::<GamepadDiag>::empty());
        assert(diags@ =~= spec_connections_diags(sel0, all));
    }
    diags
}

} // verus!
