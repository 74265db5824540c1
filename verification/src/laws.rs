//! The laws the editing engine obeys, stated over the ghost models and
//! proved once for all inputs: merging two gestures of the same kind gives
//! the state one combined gesture would, undoing and redoing any number of
//! steps restores the document exactly, and binding a selection never
//! invents pixel content in an existing plane.
use crate::actions::{apply_spec, merge_spec, EditV};
use crate::canvas::{binder_rect, move_canvas_spec, move_selection_spec, BinderV, CanvasV};
use crate::edit::{history_edit_spec, redo_spec, undo_spec, EditKind, HistoryV, UndoStateV};
use crate::geom::{v2_add, RectV, Vec2V};
use crate::image_utils::transparent;
use crate::plane::{bind_cut_plane, bind_spec, plane_img_v, PlaneDataV};
use vstd::prelude::*;

verus! {

/// Moving the canvas by `a` and then by `b` is moving it by `a + b`.
pub proof fn lemma_move_canvas_compose(c: CanvasV, a: Vec2V, b: Vec2V)
    ensures
        move_canvas_spec(move_canvas_spec(c, a), b) == move_canvas_spec(c, v2_add(a, b)),
{
    assert(move_canvas_spec(move_canvas_spec(c, a), b) =~= move_canvas_spec(c, v2_add(a, b)));
}

/// Moving the selection by `a` and then by `b` is moving it by `a + b`:
/// the binding happens once, with the selection's original region, and the
/// bound plane's offset accumulates.
/// A bound selection's plane handle points at a plane of the stack.
pub open spec fn binder_in_range(c: CanvasV) -> bool {
    match c.selection {
        Some(BinderV::Bind(_, i)) => 0 <= i < c.planes.len(),
        _ => true,
    }
}

#[verifier::rlimit(60)]
pub proof fn lemma_move_selection_compose(c: CanvasV, a: Vec2V, b: Vec2V)
    requires
        binder_in_range(c),
    ensures
        move_selection_spec(move_selection_spec(c, a), b) == move_selection_spec(c, v2_add(a, b)),
{
    match c.selection {
        None => {},
        Some(bd) => {
            let c1 = move_selection_spec(c, a);
            let c2 = move_selection_spec(c1, b);
            let cc = move_selection_spec(c, v2_add(a, b));
            let sel = binder_rect(bd);
            let (planes1, idx) = match bd {
                BinderV::Unbind(_) => (
                    bind_spec(
                        c.planes,
                        crate::geom::rect_translate(sel, crate::geom::v2_neg(c.transform)),
                    ),
                    c.planes.len() as int,
                ),
                BinderV::Bind(_, i) => (c.planes, i),
            };
            assert(planes1.len() > idx >= 0);
            assert(c1.selection == Some(BinderV::Bind(crate::geom::rect_translate(sel, a), idx)));
            assert(crate::geom::rect_translate(crate::geom::rect_translate(sel, a), b)
                == crate::geom::rect_translate(sel, v2_add(a, b)));
            assert(c2.selection == cc.selection);
            if 0 <= idx < planes1.len() {
                assert(c1.planes[idx].plane == planes1[idx].plane);
                assert(c1.planes[idx].transform == v2_add(planes1[idx].transform, a));
                assert(v2_add(v2_add(planes1[idx].transform, a), b) == v2_add(
                    planes1[idx].transform,
                    v2_add(a, b),
                ));
            }
            assert(c2.planes =~= cc.planes);
            assert(c2 =~= cc);
        },
    }
}

/// Merge identity: two edits of the same concrete kind submitted as
/// `Mergeable` on an empty history leave the document in the state a
/// single combined edit gives, and exactly one undo entry, holding the
/// original pre-edit snapshot and the combined edit. Stated for canvas
/// moves; brush strokes record their points in submission order, so two
/// strokes do not collapse to one recorded stroke value.
pub proof fn lemma_merge_identity_move_canvas(h: HistoryV, c: CanvasV, a: Vec2V, b: Vec2V)
    requires
        h.undos.len() == 0,
        merge_spec(EditV::MoveCanvas(a), EditV::MoveCanvas(b)) is Some,
    ensures
        ({
            let (h1, c1) = history_edit_spec(h, c, EditV::MoveCanvas(a), EditKind::Mergeable);
            let (h2, c2) = history_edit_spec(h1, c1, EditV::MoveCanvas(b), EditKind::Mergeable);
            &&& c2 == apply_spec(c, EditV::MoveCanvas(v2_add(a, b)))
            &&& h2.undos.len() == 1
            &&& h2.undos[0].old == c
            &&& h2.undos[0].edit == EditV::MoveCanvas(v2_add(a, b))
            &&& h2.redos.len() == 0
        }),
{
    reveal(apply_spec);
    let (h1, c1) = history_edit_spec(h, c, EditV::MoveCanvas(a), EditKind::Mergeable);
    let (h2, c2) = history_edit_spec(h1, c1, EditV::MoveCanvas(b), EditKind::Mergeable);
    lemma_move_canvas_compose(c, a, b);
    assert(h1.undos.len() == 1);
    assert(h2.undos[0] == UndoStateV {
        old: c,
        kind: EditKind::Mergeable,
        edit: EditV::MoveCanvas(v2_add(a, b)),
    });
}

/// Merge identity for selection moves: as for canvas moves.
pub proof fn lemma_merge_identity_move_selection(h: HistoryV, c: CanvasV, a: Vec2V, b: Vec2V)
    requires
        h.undos.len() == 0,
        binder_in_range(c),
        merge_spec(EditV::MoveSelection(a), EditV::MoveSelection(b)) is Some,
    ensures
        ({
            let (h1, c1) = history_edit_spec(h, c, EditV::MoveSelection(a), EditKind::Mergeable);
            let (h2, c2) = history_edit_spec(
                h1,
                c1,
                EditV::MoveSelection(b),
                EditKind::Mergeable,
            );
            &&& c2 == apply_spec(c, EditV::MoveSelection(v2_add(a, b)))
            &&& h2.undos.len() == 1
            &&& h2.undos[0].old == c
            &&& h2.undos[0].edit == EditV::MoveSelection(v2_add(a, b))
            &&& h2.redos.len() == 0
        }),
{
    reveal(apply_spec);
    let (h1, c1) = history_edit_spec(h, c, EditV::MoveSelection(a), EditKind::Mergeable);
    let (h2, c2) = history_edit_spec(h1, c1, EditV::MoveSelection(b), EditKind::Mergeable);
    lemma_move_selection_compose(c, a, b);
    assert(h2.undos[0] == UndoStateV {
        old: c,
        kind: EditKind::Mergeable,
        edit: EditV::MoveSelection(v2_add(a, b)),
    });
}

/// History soundness: every undo entry's edit, applied to that entry's
/// snapshot, gives the next entry's snapshot (the current document for the
/// top entry). Recording an edit preserves this, and it is what makes an
/// undo/redo round trip exact.
pub open spec fn consistent(h: HistoryV, c: CanvasV) -> bool {
    forall|i: int|
        0 <= i < h.undos.len() ==> apply_spec(
            (#[trigger] h.undos[i]).old,
            h.undos[i].edit,
        ) == (if i == h.undos.len() - 1 {
            c
        } else {
            h.undos[i + 1].old
        })
}

/// Recording an edit preserves history soundness. When the edit merges
/// into the previous entry this rests on the merge-identity law, so it is
/// stated for histories whose merges are canvas or selection moves; a
/// merged brush stroke re-stamps its circles in a different order, which
/// nothing relates back to the two originals.
#[verifier::rlimit(100)]
pub proof fn lemma_edit_consistent(h: HistoryV, c: CanvasV, e: EditV, k: EditKind)
    requires
        consistent(h, c),
        (h.undos.len() > 0 && h.undos.last().kind == EditKind::Mergeable && merge_spec(
            h.undos.last().edit,
            e,
        ) is Some) ==> !(e is DrawBrush) && (e is MoveSelection ==> binder_in_range(
            h.undos.last().old,
        )),
    ensures
        ({
            let (h2, c2) = history_edit_spec(h, c, e, k);
            consistent(h2, c2)
        }),
{
    reveal(apply_spec);
    let (h2, c2) = history_edit_spec(h, c, e, k);
    let n = h.undos.len() as int;
    if n > 0 && h.undos.last().kind == EditKind::Mergeable && merge_spec(
        h.undos.last().edit,
        e,
    ) is Some {
        let top = h.undos.last();
        let merged = merge_spec(top.edit, e).unwrap();
        match (top.edit, e) {
            (EditV::MoveCanvas(a), EditV::MoveCanvas(b)) => {
                lemma_move_canvas_compose(top.old, a, b);
            },
            (EditV::MoveSelection(a), EditV::MoveSelection(b)) => {
                lemma_move_selection_compose(top.old, a, b);
            },
            _ => {},
        }
        assert(apply_spec(top.old, merged) == c2);
        assert forall|i: int| 0 <= i < h2.undos.len() implies apply_spec(
            (#[trigger] h2.undos[i]).old,
            h2.undos[i].edit,
        ) == (if i == h2.undos.len() - 1 {
            c2
        } else {
            h2.undos[i + 1].old
        }) by {
            if i < n - 1 {
                assert(h2.undos[i] == h.undos[i]);
                assert(apply_spec(h.undos[i].old, h.undos[i].edit) == h.undos[i + 1].old);
                assert(h2.undos[i + 1].old == h.undos[i + 1].old);
            }
        }
    } else {
        assert forall|i: int| 0 <= i < h2.undos.len() implies apply_spec(
            (#[trigger] h2.undos[i]).old,
            h2.undos[i].edit,
        ) == (if i == h2.undos.len() - 1 {
            c2
        } else {
            h2.undos[i + 1].old
        }) by {
            if i < n {
                assert(h2.undos[i] == h.undos[i]);
            }
        }
    }
}

/// The state after `n` undos.
pub open spec fn undo_n(h: HistoryV, c: CanvasV, n: nat) -> (HistoryV, CanvasV)
    decreases n,
{
    if n == 0 {
        (h, c)
    } else {
        let (h1, c1, _d) = undo_spec(h, c);
        undo_n(h1, c1, (n - 1) as nat)
    }
}

/// The state after `n` redos.
pub open spec fn redo_n(h: HistoryV, c: CanvasV, n: nat) -> (HistoryV, CanvasV)
    decreases n,
{
    if n == 0 {
        (h, c)
    } else {
        let (h1, c1, _d) = redo_spec(h, c);
        redo_n(h1, c1, (n - 1) as nat)
    }
}

///`n` redos are `n - 1` redos followed by one more.
proof fn lemma_redo_n_snoc(h: HistoryV, c: CanvasV, n: nat)
    requires
        n > 0,
    ensures
        ({
            let (h1, c1) = redo_n(h, c, (n - 1) as nat);
            let (h2, c2, _d) = redo_spec(h1, c1);
            redo_n(h, c, n) == (h2, c2)
        }),
    decreases n,
{
    let (h1, c1, _da) = redo_spec(h, c);
    if n == 1 {
        assert(redo_n(h, c, 1) == redo_n(h1, c1, 0));
        assert(redo_n(h1, c1, 0) == (h1, c1));
        assert(redo_n(h, c, 0) == (h, c));
    } else {
        lemma_redo_n_snoc(h1, c1, (n - 1) as nat);
        assert(redo_n(h, c, n) == redo_n(h1, c1, (n - 1) as nat));
        assert(redo_n(h, c, (n - 1) as nat) == redo_n(h1, c1, (n - 2) as nat));
    }
}

/// One undo keeps the history sound.
#[verifier::rlimit(100)]
proof fn lemma_undo_consistent(h: HistoryV, c: CanvasV)
    requires
        consistent(h, c),
        h.undos.len() > 0,
    ensures
        ({
            let (h1, c1, _d) = undo_spec(h, c);
            consistent(h1, c1)
        }),
{
    let (h1, c1, _d) = undo_spec(h, c);
    assert forall|i: int| 0 <= i < h1.undos.len() implies apply_spec(
        (#[trigger] h1.undos[i]).old,
        h1.undos[i].edit,
    ) == (if i == h1.undos.len() - 1 {
        c1
    } else {
        h1.undos[i + 1].old
    }) by {
        assert(h1.undos[i] == h.undos[i]);
        if i < h1.undos.len() - 1 {
            assert(h1.undos[i + 1].old == h.undos[i + 1].old);
        }
    }
}

/// Undo/redo round trip: on a sound history, undoing `n` edits and then
/// redoing `n` times restores the document exactly — and with it,
/// bit-identical merged output — and leaves the same redoable edits as
/// before.
#[verifier::rlimit(100)]
pub proof fn lemma_undo_redo_roundtrip(h: HistoryV, c: CanvasV, n: nat)
    requires
        consistent(h, c),
        n <= h.undos.len(),
    ensures
        ({
            let (hd, cd) = undo_n(h, c, n);
            let (hr, cr) = redo_n(hd, cd, n);
            cr == c && hr.redos == h.redos
        }),
    decreases n,
{
    if n == 0 {
    } else {
        let (h1, c1, _d) = undo_spec(h, c);
        lemma_undo_consistent(h, c);
        lemma_undo_redo_roundtrip(h1, c1, (n - 1) as nat);
        let (hd, cd) = undo_n(h, c, n);
        assert((hd, cd) == undo_n(h1, c1, (n - 1) as nat));
        let (hr1, cr1) = redo_n(hd, cd, (n - 1) as nat);
        assert(cr1 == c1 && hr1.redos == h1.redos);
        lemma_redo_n_snoc(hd, cd, n);
        let top = h.undos.last();
        assert(h1.redos == h.redos.push(top.edit));
        assert(hr1.redos.last() == top.edit);
        assert(c1 == top.old);
        assert(apply_spec(cr1, top.edit) == c);
        let (h2, c2, _d2) = redo_spec(hr1, cr1);
        assert(c2 == c);
        assert(h2.redos =~= h.redos);
        assert(redo_n(hd, cd, n) == (h2, c2));
    }
}

/// Every snapshot in the history has an in-range plane handle in its
/// selection, when one is bound.
pub open spec fn binder_ok_history(h: HistoryV) -> bool {
    forall|i: int| 0 <= i < h.undos.len() ==> binder_in_range((#[trigger] h.undos[i]).old)
}

/// Applying any edit keeps a bound selection's plane handle in range: the
/// stack only grows, and a fresh binding points at the plane it pushed.
pub proof fn lemma_apply_keeps_binder_in_range(c: CanvasV, e: EditV)
    requires
        binder_in_range(c),
    ensures
        binder_in_range(apply_spec(c, e)),
{
    reveal(apply_spec);
    match e {
        EditV::Paste(_) => {},
        EditV::MoveCanvas(_) => {},
        EditV::MoveSelection(v) => {
            match c.selection {
                None => {},
                Some(BinderV::Unbind(_)) => {
                    let sel = binder_rect(c.selection.unwrap());
                    let local = crate::geom::rect_translate(sel, crate::geom::v2_neg(c.transform));
                    assert(bind_spec(c.planes, local).len() == c.planes.len() + 1);
                },
                Some(BinderV::Bind(_, _)) => {},
            }
        },
        EditV::DrawBrush(pts) => {
            assert(crate::plane::draw_spec(c.planes, pts).len() >= c.planes.len());
        },
    }
}

/// The state after a sequence of edits is recorded, oldest first.
pub open spec fn record_edits(h: HistoryV, c: CanvasV, es: Seq<(EditV, EditKind)>) -> (
    HistoryV,
    CanvasV,
)
    decreases es.len(),
{
    if es.len() == 0 {
        (h, c)
    } else {
        let (h1, c1) = history_edit_spec(h, c, es[0].0, es[0].1);
        record_edits(h1, c1, es.drop_first())
    }
}

/// Recording an edit keeps every snapshot's bound plane handle in range.
#[verifier::rlimit(100)]
proof fn lemma_edit_binder_history(h: HistoryV, c: CanvasV, e: EditV, k: EditKind)
    requires
        binder_in_range(c),
        binder_ok_history(h),
    ensures
        binder_ok_history(history_edit_spec(h, c, e, k).0),
{
    let (h1, c1) = history_edit_spec(h, c, e, k);
    let n = h.undos.len() as int;
    if n > 0 && h.undos.last().kind == EditKind::Mergeable && merge_spec(
        h.undos.last().edit,
        e,
    ) is Some {
        assert forall|i: int| 0 <= i < h1.undos.len() implies binder_in_range(
            (#[trigger] h1.undos[i]).old,
        ) by {
            if i < n - 1 {
                assert(h1.undos[i] == h.undos[i]);
            } else {
                assert(h1.undos[i].old == h.undos[n - 1].old);
            }
        }
    } else {
        assert forall|i: int| 0 <= i < h1.undos.len() implies binder_in_range(
            (#[trigger] h1.undos[i]).old,
        ) by {
            if i < n {
                assert(h1.undos[i] == h.undos[i]);
            } else {
                assert(h1.undos[i].old == c);
            }
        }
    }
}

/// Recording a sequence of non-brush edits keeps the history sound, so the
/// round-trip law applies to the state any such sequence reaches.
#[verifier::rlimit(100)]
#[verifier::spinoff_prover]
pub proof fn lemma_record_edits_consistent(h: HistoryV, c: CanvasV, es: Seq<(EditV, EditKind)>)
    requires
        consistent(h, c),
        binder_in_range(c),
        binder_ok_history(h),
        forall|i: int| 0 <= i < es.len() ==> !((#[trigger] es[i]).0 is DrawBrush),
    ensures
        ({
            let (h2, c2) = record_edits(h, c, es);
            consistent(h2, c2) && binder_in_range(c2) && binder_ok_history(h2)
        }),
    decreases es.len(),
{
    if es.len() == 0 {
    } else {
        let e = es[0].0;
        let k = es[0].1;
        let (h1, c1) = history_edit_spec(h, c, e, k);
        lemma_edit_consistent(h, c, e, k);
        lemma_apply_keeps_binder_in_range(c, e);
        lemma_edit_binder_history(h, c, e, k);
        assert(forall|i: int|
            0 <= i < es.drop_first().len() ==> !((#[trigger] es.drop_first()[i]).0 is DrawBrush));
        lemma_record_edits_consistent(h1, c1, es.drop_first());
    }
}

/// Undo/redo round trip over a whole session: from a well-formed document
/// and an empty history, record any sequence of non-brush edits, undo `n`
/// steps and redo `n` steps: the document — and with it the merged raster —
/// is exactly what it was after the edits.
#[verifier::rlimit(100)]
#[verifier::spinoff_prover]
pub proof fn lemma_session_undo_redo_roundtrip(
    c0: CanvasV,
    es: Seq<(EditV, EditKind)>,
    n: nat,
)
    requires
        binder_in_range(c0),
        forall|i: int| 0 <= i < es.len() ==> !((#[trigger] es[i]).0 is DrawBrush),
        n <= record_edits(
            HistoryV { undos: Seq::<UndoStateV>::empty(), redos: Seq::<EditV>::empty() },
            c0,
            es,
        ).0.undos.len(),
    ensures
        ({
            let (h, c) = record_edits(
                HistoryV { undos: Seq::<UndoStateV>::empty(), redos: Seq::<EditV>::empty() },
                c0,
                es,
            );
            let (hd, cd) = undo_n(h, c, n);
            let (hr, cr) = redo_n(hd, cd, n);
            cr == c
        }),
{
    let h0 = HistoryV { undos: Seq::<UndoStateV>::empty(), redos: Seq::<EditV>::empty() };
    lemma_record_edits_consistent(h0, c0, es);
    let (h, c) = record_edits(h0, c0, es);
    lemma_undo_redo_roundtrip(h, c, n);
}

/// Binding a selection is non-destructive in one direction only: an
/// existing plane's pixel after the bind is either what it was or fully
/// transparent, never new content — so a later bind cannot resurrect what
/// an earlier bind cut out of that plane. The plane's size and offset are
/// unchanged.
pub proof fn lemma_bind_no_new_content(s: Seq<PlaneDataV>, sel: RectV, i: int, j: int)
    requires
        0 <= i < s.len(),
        0 <= j < plane_img_v(bind_spec(s, sel)[i].plane).pixels.len(),
    ensures
        ({
            let before = plane_img_v(s[i].plane);
            let after = plane_img_v(bind_spec(s, sel)[i].plane);
            &&& after.width == before.width
            &&& after.height == before.height
            &&& bind_spec(s, sel)[i].transform == s[i].transform
            &&& (after.pixels[j] == transparent() || (j < before.pixels.len() && after.pixels[j]
                == before.pixels[j]))
        }),
{
    assert(bind_spec(s, sel)[i] == bind_cut_plane(s[i], sel));
}

} // verus!
