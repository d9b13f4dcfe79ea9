//! The panel stack of one device: an ordered, never empty sequence of live
//! panels whose last element is the active frame.
//!
//! The stack holds handles. The panels themselves live in the store, so
//! that a panel pushed twice, or kept elsewhere, is one and the same.

use crate::panel::{ButtonPanel, ButtonStore, UniqueButton, UniquePanel};
use serde_json::Value;
use vstd::prelude::*;

verus! {

broadcast use vstd::std_specs::hash::group_hash_axioms;

/// What a live panel is: metadata and the cell under each key.
pub ghost struct FrameView {
    pub display_name: Seq<char>,
    pub data: Value,
    pub buttons: Map<u8, UniqueButton>,
}

/// The value of a live panel.
pub open spec fn frame_view(p: ButtonPanel) -> FrameView {
    FrameView { display_name: p.display_name@, data: p.data, buttons: p.buttons@ }
}

/// A navigation operation.
pub ghost enum StackOp {
    Push(UniquePanel),
    Pop,
    Reset(UniquePanel),
}

/// The stack after a push.
pub open spec fn pushed(s: Seq<UniquePanel>, frame: UniquePanel) -> Seq<UniquePanel> {
    s.push(frame)
}

/// The stack after a pop: the top frame leaves, unless it is the only one.
pub open spec fn popped(s: Seq<UniquePanel>) -> Seq<UniquePanel> {
    if s.len() > 1 {
        s.drop_last()
    } else {
        s
    }
}

/// The stack after one operation.
pub open spec fn applied(s: Seq<UniquePanel>, op: StackOp) -> Seq<UniquePanel> {
    match op {
        StackOp::Push(f) => pushed(s, f),
        StackOp::Pop => popped(s),
        StackOp::Reset(root) => seq![root],
    }
}

/// The stack after a run of operations, the first of `ops` applied first.
pub open spec fn applied_all(s: Seq<UniquePanel>, ops: Seq<StackOp>) -> Seq<UniquePanel>
    decreases ops.len(),
{
    if ops.len() == 0 {
        s
    } else {
        applied(applied_all(s, ops.drop_last()), ops.last())
    }
}

/// Whether every operation of `ops` is a push or a pop.
pub open spec fn only_push_pop(ops: Seq<StackOp>) -> bool {
    forall|i: int| 0 <= i < ops.len() ==> !(#[trigger] ops[i] is Reset)
}

/// No run of operations empties a stack that holds a frame, and pushes and
/// pops alone leave its root frame in place.
pub proof fn lemma_never_empty(s: Seq<UniquePanel>, ops: Seq<StackOp>)
    requires
        s.len() >= 1,
    ensures
        applied_all(s, ops).len() >= 1,
        only_push_pop(ops) ==> applied_all(s, ops)[0] == s[0],
    decreases ops.len(),
{
    if ops.len() > 0 {
        lemma_never_empty(s, ops.drop_last());
        if only_push_pop(ops) {
            assert(!(ops[ops.len() - 1] is Reset));
            assert forall|i: int| 0 <= i < ops.drop_last().len() implies !(
            #[trigger] ops.drop_last()[i] is Reset) by {
                assert(!(ops[i] is Reset));
            }
        }
    }
}

/// Popping a stack of one frame changes nothing, however often, and the
/// root stays the active frame.
pub proof fn lemma_pop_single(root: UniquePanel, n: nat)
    ensures
        applied_all(seq![root], Seq::new(n, |i: int| StackOp::Pop)) == seq![root],
        popped(seq![root]) == seq![root],
        popped(popped(seq![root])) == popped(seq![root]),
        popped(seq![root]).last() == root,
    decreases n,
{
    let ops = Seq::new(n, |i: int| StackOp::Pop);
    if n > 0 {
        lemma_pop_single(root, (n - 1) as nat);
        assert(ops.drop_last() =~= Seq::new((n - 1) as nat, |i: int| StackOp::Pop));
    }
}

/// The panel stack of one device.
pub struct PanelStack {
    pub frames: Vec<UniquePanel>,
}

impl View for PanelStack {
    type V = Seq<UniquePanel>;

    open spec fn view(&self) -> Seq<UniquePanel> {
        self.frames@
    }
}

impl PanelStack {
    /// The invariant of the stack: it holds at least its root frame.
    pub open spec fn wf(&self) -> bool {
        self@.len() >= 1
    }

    /// The active frame: the last one.
    pub open spec fn spec_active(&self) -> UniquePanel
        recommends
            self.wf(),
    {
        self@.last()
    }

    /// A stack that holds `root` alone.
    pub fn new(root: UniquePanel) -> (s: PanelStack)
        ensures
            s@ == seq![root],
            s.wf(),
    {
        let mut frames: Vec<UniquePanel> = Vec::new();
        frames.push(root);
        let s = PanelStack { frames };
        assert(s@ =~= seq![root]);
        s
    }

    /// Replaces the whole stack with `root` alone.
    pub fn reset(&mut self, root: UniquePanel)
        ensures
            final(self)@ == applied(old(self)@, StackOp::Reset(root)),
            final(self)@ == seq![root],
            final(self).wf(),
    {
        let mut frames: Vec<UniquePanel> = Vec::new();
        frames.push(root);
        self.frames = frames;
        assert(self@ =~= seq![root]);
    }

    /// Appends `frame`, which becomes the active frame.
    pub fn push(&mut self, frame: UniquePanel)
        ensures
            final(self)@ == pushed(old(self)@, frame),
            final(self).spec_active() == frame,
            final(self).wf(),
    {
        self.frames.push(frame);
    }

    /// Removes the active frame, unless it is the only frame: then nothing
    /// changes.
    pub fn pop(&mut self)
        ensures
            final(self)@ == popped(old(self)@),
            old(self).wf() ==> final(self).wf(),
    {
        if self.frames.len() > 1 {
            self.frames.pop();
        }
    }

    /// The number of frames.
    pub fn len(&self) -> (n: usize)
        ensures
            n == self@.len(),
    {
        self.frames.len()
    }

    /// The current frames, root first, for inspection.
    pub fn snapshot(&self) -> (frames: Vec<UniquePanel>)
        ensures
            frames@ == self@,
    {
        let mut out: Vec<UniquePanel> = Vec::new();
        let mut i: usize = 0;
        while i < self.frames.len()
            invariant
                i <= self.frames.len(),
                out@ == self.frames@.take(i as int),
            decreases self.frames.len() - i,
        {
            out.push(self.frames[i]);
            assert(out@ =~= self.frames@.take(i as int + 1));
            i = i + 1;
        }
        assert(self.frames@.take(i as int) =~= self.frames@);
        out
    }

    /// The active frame.
    pub fn active(&self) -> (p: UniquePanel)
        requires
            self.wf(),
        ensures
            p == self.spec_active(),
    {
        self.frames[self.frames.len() - 1]
    }

    /// The cell under `key` in the active frame, read now; `None` where no
    /// button occupies the key, or where the store has no such frame.
    pub fn button_at(&self, store: &ButtonStore, key: u8) -> (r: Option<UniqueButton>)
        ensures
            r == resolve_key(store.panels@, self@, key),
    {
        if self.frames.len() == 0 {
            return None;
        }
        match store.panel(self.frames[self.frames.len() - 1]) {
            None => None,
            Some(p) => match p.buttons.get(&key) {
                Some(h) => Some(*h),
                None => None,
            },
        }
    }
}

/// The cell that a key event on `key` reaches: the one under that key in
/// the panel behind the last frame of `s`, if any.
pub open spec fn resolve_key(panels: Seq<ButtonPanel>, s: Seq<UniquePanel>, key: u8) -> Option<
    UniqueButton,
> {
    if s.len() > 0 && s.last().slot < panels.len() && panels[s.last().slot as int].buttons@.contains_key(
        key,
    ) {
        Some(panels[s.last().slot as int].buttons@[key])
    } else {
        None
    }
}

} // verus!
