//! The undo/redo history: a two-stack command store over snapshot-cloneable
//! documents, with edit-merge coalescing so a continuous mergeable gesture
//! (a drag) collapses into one undo step.
use crate::actions::{apply_ok, apply_spec, desc_of, merge_spec, Edit, EditDesc, EditV};
use crate::canvas::{canvas_wf, CanvasData, CanvasV};
use vstd::prelude::*;

verus! {

/// Whether an edit may coalesce with the immediately preceding undo entry.
#[derive(Clone, Copy, PartialEq, Eq, Structural, Debug)]
pub enum EditKind {
    NonMergeable,
    Mergeable,
}

/// One undo entry: the pre-edit snapshot, the kind the entry was recorded
/// with, and the edit itself.
struct UndoState {
    old: CanvasData,
    kind: EditKind,
    edit: Edit,
}

/// Ghost model of one undo entry.
#[verifier::ext_equal]
pub ghost struct UndoStateV {
    pub old: CanvasV,
    pub kind: EditKind,
    pub edit: EditV,
}

impl View for UndoState {
    type V = UndoStateV;

    closed spec fn view(&self) -> UndoStateV {
        UndoStateV { old: self.old@, kind: self.kind, edit: self.edit@ }
    }
}

/// Ghost model of the history: the undo entries (oldest first) and the
/// redoable edits (oldest first; the last is redone next).
#[verifier::ext_equal]
pub ghost struct HistoryV {
    pub undos: Seq<UndoStateV>,
    pub redos: Seq<EditV>,
}

/// The undo/redo history over documents.
pub struct UndoHistory {
    undos: Vec<UndoState>,
    redos: Vec<Edit>,
}

impl View for UndoHistory {
    type V = HistoryV;

    closed spec fn view(&self) -> HistoryV {
        HistoryV {
            undos: self.undos@.map_values(|u: UndoState| u@),
            redos: self.redos@.map_values(|e: Edit| e@),
        }
    }
}

/// What recording an edit does: the document becomes the edit's result and
/// the redo stack is cleared. When the top undo entry was recorded as
/// `Mergeable` and the new edit merges with its edit, that entry's edit and
/// kind are replaced in place — its pre-edit snapshot is kept — so the
/// whole gesture undoes in one step; otherwise a new entry is pushed
/// holding the pre-edit snapshot.
pub open spec fn history_edit_spec(h: HistoryV, c: CanvasV, e: EditV, k: EditKind) -> (
    HistoryV,
    CanvasV,
) {
    let c2 = apply_spec(c, e);
    if h.undos.len() > 0 && h.undos.last().kind == EditKind::Mergeable && merge_spec(
        h.undos.last().edit,
        e,
    ) is Some {
        let merged = merge_spec(h.undos.last().edit, e).unwrap();
        (
            HistoryV {
                undos: h.undos.update(
                    h.undos.len() - 1,
                    UndoStateV { old: h.undos.last().old, kind: k, edit: merged },
                ),
                redos: Seq::<EditV>::empty(),
            },
            c2,
        )
    } else {
        (
            HistoryV {
                undos: h.undos.push(UndoStateV { old: c, kind: k, edit: e }),
                redos: Seq::<EditV>::empty(),
            },
            c2,
        )
    }
}

/// What undoing does: with no undo entry, nothing; otherwise the top entry
/// is popped, the document is restored to its pre-edit snapshot, and the
/// entry's edit becomes redoable.
pub open spec fn undo_spec(h: HistoryV, c: CanvasV) -> (HistoryV, CanvasV, Option<Seq<char>>) {
    if h.undos.len() == 0 {
        (h, c, None)
    } else {
        let st = h.undos.last();
        (
            HistoryV { undos: h.undos.drop_last(), redos: h.redos.push(st.edit) },
            st.old,
            Some(desc_of(st.edit)),
        )
    }
}

/// What redoing does: with no redoable edit, nothing; otherwise the last
/// redoable edit is re-applied to the document and recorded as a fresh
/// `NonMergeable` undo entry — a redone edit never re-merges with later
/// gestures.
pub open spec fn redo_spec(h: HistoryV, c: CanvasV) -> (HistoryV, CanvasV, Option<Seq<char>>) {
    if h.redos.len() == 0 {
        (h, c, None)
    } else {
        let e = h.redos.last();
        let c2 = apply_spec(c, e);
        (
            HistoryV {
                undos: h.undos.push(UndoStateV { old: c, kind: EditKind::NonMergeable, edit: e }),
                redos: h.redos.drop_last(),
            },
            c2,
            Some(desc_of(e)),
        )
    }
}

impl UndoHistory {
    /// A history with nothing to undo or redo.
    pub fn new() -> (r: UndoHistory)
        ensures
            r@ == (HistoryV { undos: Seq::<UndoStateV>::empty(), redos: Seq::<EditV>::empty() }),
    {
        let r = UndoHistory { undos: Vec::new(), redos: Vec::new() };
        proof {
            assert(r@.undos =~= Seq::<UndoStateV>::empty());
            assert(r@.redos =~= Seq::<EditV>::empty());
            assert(r@ =~= (HistoryV {
                undos: Seq::<UndoStateV>::empty(),
                redos: Seq::<EditV>::empty(),
            }));
        }
        r
    }

    /// How many edits can be undone.
    pub fn undo_count(&self) -> (n: usize)
        ensures
            n == self@.undos.len(),
    {
        self.undos.len()
    }

    /// How many edits can be redone.
    pub fn redo_count(&self) -> (n: usize)
        ensures
            n == self@.redos.len(),
    {
        self.redos.len()
    }

    /// Apply an edit to the document and record it on the undo stack,
    /// merging it into the previous entry when both are mergeable edits of
    /// the same kind; any redoable edits are discarded.
    pub fn edit(&mut self, data: &mut CanvasData, edit: Edit, kind: EditKind)
        requires
            apply_ok(old(data)@, edit@),
        ensures
            (final(self)@, final(data)@) == history_edit_spec(
                old(self)@,
                old(data)@,
                edit@,
                kind,
            ),
            canvas_wf(final(data)@),
    {
        let ghost ev = edit@;
        let old_snap = edit.execute(data);
        let n = self.undos.len();
        if n > 0 {
            let merged: Option<Edit> = {
                let last = &self.undos[n - 1];
                proof {
                    assert(self@.undos[n - 1 as int] == self.undos@[n - 1 as int]@);
                }
                match last.kind {
                    EditKind::Mergeable => last.edit.merge(&edit),
                    EditKind::NonMergeable => None,
                }
            };
            if let Some(m) = merged {
                let ghost mpre = self.undos@;
                let last = &mut self.undos[n - 1];
                last.edit = m;
                last.kind = kind;
                self.redos = Vec::new();
                proof {
                    let (h2, c2) = history_edit_spec(old(self)@, old(data)@, ev, kind);
                    assert(final(self)@.redos =~= Seq::<EditV>::empty());
                    assert forall|j: int| 0 <= j < n implies #[trigger] final(self)@.undos[j]
                        == h2.undos[j] by {
                        assert(final(self)@.undos[j] == self.undos@[j]@);
                        if j < n - 1 {
                            assert(self.undos@[j] == mpre[j]);
                            assert(old(self)@.undos[j] == mpre[j]@);
                        }
                    }
                    assert(final(self)@.undos =~= h2.undos);
                    assert(final(self)@ =~= h2);
                }
                return ;
            }
        }
        let ghost ppre = self.undos@;
        self.undos.push(UndoState { old: old_snap, kind, edit });
        self.redos = Vec::new();
        proof {
            let (h2, c2) = history_edit_spec(old(self)@, old(data)@, ev, kind);
            assert(final(self)@.redos =~= Seq::<EditV>::empty());
            assert forall|j: int| 0 <= j <= n implies #[trigger] final(self)@.undos[j]
                == h2.undos[j] by {
                assert(final(self)@.undos[j] == self.undos@[j]@);
                if j < n {
                    assert(self.undos@[j] == ppre[j]);
                    assert(old(self)@.undos[j] == ppre[j]@);
                }
            }
            assert(final(self)@.undos =~= h2.undos);
            assert(final(self)@ =~= h2);
        }
    }

    /// Undo the most recent edit, restoring the document to its pre-edit
    /// snapshot; returns the undone edit's description, or `None` with
    /// nothing to undo.
    pub fn undo(&mut self, data: &mut CanvasData) -> (r: Option<EditDesc>)
        ensures
            ({
                let (h2, c2, d2) = undo_spec(old(self)@, old(data)@);
                &&& final(self)@ == h2
                &&& final(data)@ == c2
                &&& match (r, d2) {
                    (None, None) => true,
                    (Some(rd), Some(dv)) => rd@ == dv,
                    _ => false,
                }
            }),
    {
        let ghost upre = self.undos@;
        let ghost rpre = self.redos@;
        let st = match self.undos.pop() {
            None => {
                proof {
                    assert(final(self)@ =~= old(self)@);
                }
                return None;
            },
            Some(st) => st,
        };
        proof {
            assert(old(self)@.undos[upre.len() - 1] == upre[upre.len() - 1]@);
        }
        *data = st.old;
        let desc = st.edit.description();
        self.redos.push(st.edit);
        proof {
            let (h2, c2, d2) = undo_spec(old(self)@, old(data)@);
            assert forall|j: int| 0 <= j < upre.len() - 1 implies #[trigger] final(self)@.undos[j]
                == h2.undos[j] by {
                assert(final(self)@.undos[j] == self.undos@[j]@);
                assert(self.undos@[j] == upre[j]);
                assert(old(self)@.undos[j] == upre[j]@);
            }
            assert(final(self)@.undos =~= h2.undos);
            assert forall|j: int| 0 <= j < rpre.len() implies #[trigger] final(self)@.redos[j]
                == h2.redos[j] by {
                assert(final(self)@.redos[j] == self.redos@[j]@);
                assert(self.redos@[j] == rpre[j]);
                assert(old(self)@.redos[j] == rpre[j]@);
            }
            assert(final(self)@.redos =~= h2.redos);
            assert(final(self)@ =~= h2);
        }
        Some(desc)
    }

    /// Re-apply the most recently undone edit; returns its description, or
    /// `None` with nothing to redo. The re-applied edit is recorded as
    /// `NonMergeable`.
    pub fn redo(&mut self, data: &mut CanvasData) -> (r: Option<EditDesc>)
        requires
            old(self)@.redos.len() > 0 ==> apply_ok(old(data)@, old(self)@.redos.last()),
        ensures
            ({
                let (h2, c2, d2) = redo_spec(old(self)@, old(data)@);
                &&& final(self)@ == h2
                &&& final(data)@ == c2
                &&& match (r, d2) {
                    (None, None) => true,
                    (Some(rd), Some(dv)) => rd@ == dv,
                    _ => false,
                }
            }),
            old(self)@.redos.len() > 0 ==> canvas_wf(final(data)@),
    {
        let ghost upre = self.undos@;
        let ghost rpre = self.redos@;
        let e = match self.redos.pop() {
            None => {
                proof {
                    assert(final(self)@ =~= old(self)@);
                }
                return None;
            },
            Some(e) => e,
        };
        proof {
            assert(old(self)@.redos[rpre.len() - 1] == rpre[rpre.len() - 1]@);
        }
        let desc = e.description();
        let old_snap = e.execute(data);
        self.undos.push(UndoState { old: old_snap, kind: EditKind::NonMergeable, edit: e });
        proof {
            let (h2, c2, d2) = redo_spec(old(self)@, old(data)@);
            assert forall|j: int| 0 <= j < upre.len() implies #[trigger] final(self)@.undos[j]
                == h2.undos[j] by {
                assert(final(self)@.undos[j] == self.undos@[j]@);
                assert(self.undos@[j] == upre[j]);
                assert(old(self)@.undos[j] == upre[j]@);
            }
            assert(final(self)@.undos[upre.len() as int] == h2.undos[upre.len() as int]);
            assert(final(self)@.undos =~= h2.undos);
            assert forall|j: int| 0 <= j < rpre.len() - 1 implies #[trigger] final(self)@.redos[j]
                == h2.redos[j] by {
                assert(final(self)@.redos[j] == self.redos@[j]@);
                assert(self.redos@[j] == rpre[j]);
                assert(old(self)@.redos[j] == rpre[j]@);
            }
            assert(final(self)@.redos =~= h2.redos);
            assert(final(self)@ =~= h2);
        }
        Some(desc)
    }
}

} // verus!
