//! The editor state: an open document (if any), its undo/redo history,
//! and the "is editing" flag that is set while a mergeable gesture (an
//! in-progress drag) is open. Undo and redo are refused while the flag is
//! set, because the document is mid-gesture and restoring a snapshot then
//! would be incoherent.
use crate::actions::{apply_ok, Edit, EditDesc, EditV};
use crate::canvas::{canvas_wf, CanvasData, CanvasV};
use crate::edit::{history_edit_spec, redo_spec, undo_spec, EditKind, HistoryV, UndoHistory,
    UndoStateV};
use vstd::prelude::*;

verus! {

/// Ghost model of the editor state.
#[verifier::ext_equal]
pub ghost struct EditorV {
    pub canvas: Option<CanvasV>,
    pub history: HistoryV,
    pub is_editing: bool,
}

/// The editor: the open document, its history, and the gesture flag.
pub struct Editor {
    pub canvas: Option<CanvasData>,
    history: UndoHistory,
    is_editing: bool,
}

impl View for Editor {
    type V = EditorV;

    closed spec fn view(&self) -> EditorV {
        EditorV {
            canvas: match &self.canvas {
                None => None,
                Some(c) => Some(c@),
            },
            history: self.history@,
            is_editing: self.is_editing,
        }
    }
}

/// What submitting an edit does: the gesture flag tracks whether the edit
/// was mergeable; with no open document nothing else happens and the edit
/// is reported as not applied.
pub open spec fn do_edit_spec(ed: EditorV, e: EditV, k: EditKind) -> (EditorV, bool) {
    let flagged = EditorV { is_editing: k == EditKind::Mergeable, ..ed };
    match ed.canvas {
        None => (flagged, false),
        Some(c) => {
            let (h2, c2) = history_edit_spec(ed.history, c, e, k);
            (EditorV { canvas: Some(c2), history: h2, ..flagged }, true)
        },
    }
}

/// What asking for an undo does: refused mid-gesture or with no document.
pub open spec fn do_undo_spec(ed: EditorV) -> (EditorV, Option<Seq<char>>) {
    if ed.is_editing {
        (ed, None)
    } else {
        match ed.canvas {
            None => (ed, None),
            Some(c) => {
                let (h2, c2, d) = undo_spec(ed.history, c);
                (EditorV { canvas: Some(c2), history: h2, ..ed }, d)
            },
        }
    }
}

/// What asking for a redo does: refused mid-gesture or with no document.
pub open spec fn do_redo_spec(ed: EditorV) -> (EditorV, Option<Seq<char>>) {
    if ed.is_editing {
        (ed, None)
    } else {
        match ed.canvas {
            None => (ed, None),
            Some(c) => {
                let (h2, c2, d) = redo_spec(ed.history, c);
                (EditorV { canvas: Some(c2), history: h2, ..ed }, d)
            },
        }
    }
}

impl Editor {
    /// An editor with no document open, an empty history and no gesture in
    /// progress.
    pub fn new() -> (r: Editor)
        ensures
            r@ == (EditorV {
                canvas: None,
                history: HistoryV {
                    undos: Seq::<UndoStateV>::empty(),
                    redos: Seq::<EditV>::empty(),
                },
                is_editing: false,
            }),
    {
        let r = Editor { canvas: None, history: UndoHistory::new(), is_editing: false };
        proof {
            assert(r@ =~= (EditorV {
                canvas: None,
                history: HistoryV {
                    undos: Seq::<UndoStateV>::empty(),
                    redos: Seq::<EditV>::empty(),
                },
                is_editing: false,
            }));
        }
        r
    }

    /// Replace the open document (opening a file, a new image); the
    /// history is kept as it is.
    pub fn open(&mut self, canvas: CanvasData)
        ensures
            final(self)@ == (EditorV { canvas: Some(canvas@), ..old(self)@ }),
    {
        self.canvas = Some(canvas);
        proof {
            assert(final(self)@ =~= (EditorV { canvas: Some(final(self)@.canvas.unwrap()), ..old(self)@ }));
        }
    }

    /// The open document, if any.
    pub fn canvas(&self) -> (r: &Option<CanvasData>)
        ensures
            match (r, self@.canvas) {
                (None, None) => true,
                (Some(c), Some(cv)) => c@ == cv,
                _ => false,
            },
    {
        &self.canvas
    }

    /// Whether a mergeable gesture is currently open.
    pub fn is_editing(&self) -> (r: bool)
        ensures
            r == self@.is_editing,
    {
        self.is_editing
    }

    /// Submit an edit: record the gesture flag, and with a document open,
    /// apply and record the edit; reports whether an edit was applied.
    pub fn do_edit(&mut self, edit: Edit, kind: EditKind) -> (applied: bool)
        requires
            match old(self)@.canvas {
                None => true,
                Some(c) => apply_ok(c, edit@),
            },
        ensures
            (final(self)@, applied) == do_edit_spec(old(self)@, edit@, kind),
            applied ==> canvas_wf(final(self)@.canvas.unwrap()),
    {
        self.is_editing = match kind {
            EditKind::Mergeable => true,
            EditKind::NonMergeable => false,
        };
        match &mut self.canvas {
            None => {
                proof {
                    assert((final(self)@, false) =~= do_edit_spec(old(self)@, edit@, kind));
                }
                false
            },
            Some(canvas) => {
                self.history.edit(canvas, edit, kind);
                proof {
                    assert((final(self)@, true) =~= do_edit_spec(old(self)@, edit@, kind));
                }
                true
            },
        }
    }

    /// Undo the most recent edit, unless a gesture is open or no document
    /// is; returns the undone edit's description.
    pub fn do_undo(&mut self) -> (r: Option<EditDesc>)
        ensures
            ({
                let (ed2, d2) = do_undo_spec(old(self)@);
                &&& final(self)@ == ed2
                &&& match (r, d2) {
                    (None, None) => true,
                    (Some(rd), Some(dv)) => rd@ == dv,
                    _ => false,
                }
            }),
    {
        if self.is_editing {
            return None;
        }
        match &mut self.canvas {
            None => None,
            Some(canvas) => {
                let r = self.history.undo(canvas);
                proof {
                    let (ed2, d2) = do_undo_spec(old(self)@);
                    assert(final(self)@ =~= ed2);
                }
                r
            },
        }
    }

    /// Redo the most recently undone edit, unless a gesture is open or no
    /// document is; returns its description.
    pub fn do_redo(&mut self) -> (r: Option<EditDesc>)
        requires
            ({
                let ed = old(self)@;
                !ed.is_editing && ed.canvas is Some && ed.history.redos.len() > 0 ==> apply_ok(
                    ed.canvas.unwrap(),
                    ed.history.redos.last(),
                )
            }),
        ensures
            ({
                let (ed2, d2) = do_redo_spec(old(self)@);
                &&& final(self)@ == ed2
                &&& match (r, d2) {
                    (None, None) => true,
                    (Some(rd), Some(dv)) => rd@ == dv,
                    _ => false,
                }
            }),
    {
        if self.is_editing {
            return None;
        }
        match &mut self.canvas {
            None => None,
            Some(canvas) => {
                let r = self.history.redo(canvas);
                proof {
                    let (ed2, d2) = do_redo_spec(old(self)@);
                    assert(final(self)@ =~= ed2);
                }
                r
            },
        }
    }
}

} // verus!
