use crate::selection::SelectionState;
use vstd::prelude::*;

verus! {

/// The events of the interactive loop. `Click(d)` is a user change at
/// dimension `d`; `Refresh(d)` asks for the cascade after a change of type or
/// series; `Repaint(d)` tells the presentation layer to show the current
/// index of `d`; `Query` starts a version check.
#[derive(Debug, Clone, Copy, PartialEq, Eq, Structural)]
pub enum Message {
    Refresh(usize),
    Click(usize),
    Repaint(usize),
    Query,
}

/// The terminal messages a finished query posts back to the interactive
/// loop: a plain notice, or a yes/no choice that carries the download link.
#[derive(Debug, PartialEq, Eq)]
pub enum EMessage {
    ShowDialog(String),
    ShowChoice(String, String),
}

/// A user change at dimension `dim`: the new index is recorded, and a change
/// of the type or series dimension emits the cascade refresh for it.
pub fn handle_click(st: &mut SelectionState, dim: usize, value: i32) -> (msgs: Vec<Message>)
    requires
        old(st).wf(),
        dim < 6,
    ensures
        final(st).wf(),
        final(st).indices@ == old(st).indices@.update(dim as int, value),
        dim < 2 ==> msgs@ == seq![Message::Refresh(dim)],
        dim >= 2 ==> msgs@ == Seq::<Message>::empty(),
{
    st.set_index(dim, value);
    let mut msgs: Vec<Message> = Vec::new();
    if dim < 2 {
        msgs.push(Message::Refresh(dim));
        proof {
            assert(msgs@ =~= seq![Message::Refresh(dim)]);
        }
    } else {
        proof {
            assert(msgs@ =~= Seq::<Message>::empty());
        }
    }
    msgs
}

/// The cascade after a change at dimension `dim`. A type change resets the
/// series index and hands the cascade on to the series dimension; a series
/// change resets the product index and asks the presentation layer to
/// repopulate and repaint the series and product lists; any other dimension
/// has nothing below it.
pub fn handle_refresh(st: &mut SelectionState, dim: usize) -> (msgs: Vec<Message>)
    requires
        old(st).wf(),
    ensures
        final(st).wf(),
        dim == 0 ==> final(st).indices@ == old(st).indices@.update(1, 0i32) && msgs@ == seq![
            Message::Refresh(1),
        ],
        dim == 1 ==> final(st).indices@ == old(st).indices@.update(2, 0i32) && msgs@ == seq![
            Message::Repaint(1),
            Message::Repaint(2),
        ],
        dim >= 2 ==> final(st).indices@ == old(st).indices@ && msgs@ == Seq::<Message>::empty(),
{
    let mut msgs: Vec<Message> = Vec::new();
    if dim == 0 {
        st.set_index(1, 0);
        msgs.push(Message::Refresh(1));
        proof {
            assert(msgs@ =~= seq![Message::Refresh(1)]);
        }
    } else if dim == 1 {
        st.set_index(2, 0);
        msgs.push(Message::Repaint(1));
        msgs.push(Message::Repaint(2));
        proof {
            assert(msgs@ =~= seq![Message::Repaint(1), Message::Repaint(2)]);
        }
    } else {
        proof {
            assert(msgs@ =~= Seq::<Message>::empty());
        }
    }
    msgs
}

} // verus!
