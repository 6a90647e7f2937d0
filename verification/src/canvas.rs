//! Stateful validation and reconstruction of one turn's shared canvas.

use std::collections::HashSet;

use vstd::prelude::*;

use crate::failure::CanvasError;
use crate::ids::StrokeId;
use crate::limit::{
    CANVAS_HEIGHT, CANVAS_WIDTH, MAX_BRUSH_WIDTH, MAX_CANVAS_ACTIONS, MAX_COLOR,
    MAX_POINTS_PER_STROKE,
};
use crate::model::{CanvasAction, CanvasSnapshot, DrawOp, Point, Stroke};
use crate::validate::{
    and_then, check_actions, check_canvas, check_count, check_draw_op, check_each, check_point,
    check_points, check_range, check_stroke, Validate,
};

verus! {

broadcast use vstd::std_specs::hash::group_hash_axioms;

/// Total point budget retained for one current-turn drawing.
pub const MAX_CANVAS_POINTS: usize = 50000;

/// Stroke currently receiving point batches.
#[derive(Debug, Clone, PartialEq, Eq)]
pub struct ActiveStroke {
    /// Stroke identity.
    pub stroke_id: StrokeId,
    /// RGB color encoded as `0x00RRGGBB`.
    pub color: u32,
    /// Brush width.
    pub width: u8,
    /// Accumulated points, including the starting point.
    pub points: Vec<Point>,
    /// Next accepted point-batch or end sequence.
    pub next_sequence: u16,
}

/// Mathematical form of one canvas action.
pub enum ActionView {
    /// A stroke with its ordered points.
    Stroke { stroke_id: StrokeId, color: u32, width: u8, points: Seq<Point> },
    /// A point-seeded fill.
    Fill { color: u32, at: Point },
}

/// Mathematical form of the stroke receiving point batches.
pub struct ActiveView {
    pub stroke_id: StrokeId,
    pub color: u32,
    pub width: u8,
    pub points: Seq<Point>,
    pub next_sequence: u16,
}

/// Mathematical form of the canvas: completed actions in rendering order,
/// the active stroke, and the stroke identities used this turn.
pub struct CanvasModel {
    pub actions: Seq<ActionView>,
    pub active: Option<ActiveView>,
    pub used: Set<u32>,
}

impl View for CanvasAction {
    type V = ActionView;

    open spec fn view(&self) -> ActionView {
        match self {
            CanvasAction::Stroke(s) => ActionView::Stroke {
                stroke_id: s.stroke_id,
                color: s.color,
                width: s.width,
                points: s.points@,
            },
            CanvasAction::Fill { color, at } => ActionView::Fill { color: *color, at: *at },
        }
    }
}

impl View for CanvasSnapshot {
    type V = Seq<ActionView>;

    open spec fn view(&self) -> Seq<ActionView> {
        self.actions@.map_values(|a: CanvasAction| a@)
    }
}

impl View for ActiveStroke {
    type V = ActiveView;

    open spec fn view(&self) -> ActiveView {
        ActiveView {
            stroke_id: self.stroke_id,
            color: self.color,
            width: self.width,
            points: self.points@,
            next_sequence: self.next_sequence,
        }
    }
}

/// The completed stroke an active stroke becomes.
pub open spec fn finished(a: ActiveView) -> ActionView {
    ActionView::Stroke { stroke_id: a.stroke_id, color: a.color, width: a.width, points: a.points }
}

/// Points retained by one action.
pub open spec fn action_points(a: ActionView) -> nat {
    match a {
        ActionView::Stroke { points, .. } => points.len(),
        ActionView::Fill { .. } => 0,
    }
}

/// Points retained by a sequence of actions.
pub open spec fn total_of(s: Seq<ActionView>) -> nat
    decreases s.len(),
{
    if s.len() == 0 {
        0
    } else {
        total_of(s.drop_last()) + action_points(s.last())
    }
}

/// Points retained by the whole canvas, active stroke included.
pub open spec fn model_total(m: CanvasModel) -> nat {
    total_of(m.actions) + match m.active {
        Some(a) => a.points.len(),
        None => 0,
    }
}

/// Everything a reconnecting client must replay: completed actions, then
/// the active stroke.
pub open spec fn snapshot_of(m: CanvasModel) -> Seq<ActionView> {
    match m.active {
        Some(a) => m.actions.push(finished(a)),
        None => m.actions,
    }
}

/// Effect of one drawing operation: the next model and the outcome. A
/// rejected operation leaves the model unchanged.
pub open spec fn canvas_step(m: CanvasModel, op: DrawOp) -> (CanvasModel, Result<(), CanvasError>) {
    match check_draw_op(op) {
        Err(e) => (m, Err(CanvasError::InvalidOperation(e))),
        Ok(_) => match op {
            DrawOp::Begin { stroke_id, color, width, start } => if m.active is Some {
                (m, Err(CanvasError::StrokeAlreadyActive))
            } else if m.used.contains(stroke_id.0) {
                (m, Err(CanvasError::DuplicateStroke))
            } else if m.actions.len() >= MAX_CANVAS_ACTIONS {
                (m, Err(CanvasError::ActionBudgetExceeded))
            } else if model_total(m) >= MAX_CANVAS_POINTS {
                (m, Err(CanvasError::PointBudgetExceeded))
            } else {
                (
                    CanvasModel {
                        actions: m.actions,
                        active: Some(
                            ActiveView {
                                stroke_id,
                                color,
                                width,
                                points: seq![start],
                                next_sequence: 0,
                            },
                        ),
                        used: m.used.insert(stroke_id.0),
                    },
                    Ok(()),
                )
            },
            DrawOp::Points { stroke_id, sequence, points } => match m.active {
                None => (m, Err(CanvasError::NoActiveStroke)),
                Some(a) => if a.stroke_id != stroke_id {
                    (m, Err(CanvasError::WrongStroke))
                } else if a.next_sequence != sequence {
                    (
                        m,
                        Err(
                            CanvasError::WrongSequence {
                                expected: a.next_sequence,
                                received: sequence,
                            },
                        ),
                    )
                } else if a.points.len() + points@.len() > MAX_POINTS_PER_STROKE {
                    (m, Err(CanvasError::PointBudgetExceeded))
                } else if model_total(m) + points@.len() > MAX_CANVAS_POINTS {
                    (m, Err(CanvasError::PointBudgetExceeded))
                } else if a.next_sequence == u16::MAX {
                    (m, Err(CanvasError::SequenceExhausted))
                } else {
                    (
                        CanvasModel {
                            active: Some(
                                ActiveView {
                                    points: a.points + points@,
                                    next_sequence: (a.next_sequence + 1) as u16,
                                    ..a
                                },
                            ),
                            ..m
                        },
                        Ok(()),
                    )
                },
            },
            DrawOp::End { stroke_id, sequence } => match m.active {
                None => (m, Err(CanvasError::NoActiveStroke)),
                Some(a) => if a.stroke_id != stroke_id {
                    (m, Err(CanvasError::WrongStroke))
                } else if a.next_sequence != sequence {
                    (
                        m,
                        Err(
                            CanvasError::WrongSequence {
                                expected: a.next_sequence,
                                received: sequence,
                            },
                        ),
                    )
                } else {
                    (
                        CanvasModel { actions: m.actions.push(finished(a)), active: None, used: m.used },
                        Ok(()),
                    )
                },
            },
            DrawOp::Undo => if m.active is Some {
                (m, Err(CanvasError::StrokeAlreadyActive))
            } else if m.actions.len() == 0 {
                (m, Ok(()))
            } else {
                (CanvasModel { actions: m.actions.drop_last(), ..m }, Ok(()))
            },
            DrawOp::Clear => (CanvasModel { actions: Seq::empty(), active: None, used: m.used }, Ok(())),
            DrawOp::Fill { color, at } => if m.active is Some {
                (m, Err(CanvasError::StrokeAlreadyActive))
            } else if m.actions.len() >= MAX_CANVAS_ACTIONS {
                (m, Err(CanvasError::ActionBudgetExceeded))
            } else {
                (
                    CanvasModel { actions: m.actions.push(ActionView::Fill { color, at }), ..m },
                    Ok(()),
                )
            },
        },
    }
}

/// A point inside the logical canvas.
pub open spec fn on_canvas(p: Point) -> bool {
    p.x <= CANVAS_WIDTH && p.y <= CANVAS_HEIGHT
}

/// Color, width, and point constraints of a retained stroke.
pub open spec fn stroke_ok(color: u32, width: u8, points: Seq<Point>) -> bool {
    &&& color <= MAX_COLOR
    &&& 1 <= width <= MAX_BRUSH_WIDTH
    &&& 1 <= points.len() <= MAX_POINTS_PER_STROKE
    &&& forall|i: int| 0 <= i < points.len() ==> on_canvas(#[trigger] points[i])
}

/// Constraints of a retained action.
pub open spec fn action_ok(a: ActionView) -> bool {
    match a {
        ActionView::Stroke { color, width, points, .. } => stroke_ok(color, width, points),
        ActionView::Fill { color, at } => color <= MAX_COLOR && on_canvas(at),
    }
}

/// Whether an action is a stroke with the identifier.
pub open spec fn is_stroke_with(a: ActionView, id: u32) -> bool {
    match a {
        ActionView::Stroke { stroke_id, .. } => stroke_id.0 == id,
        _ => false,
    }
}

/// Stroke identifiers are pairwise distinct.
pub open spec fn distinct_strokes(s: Seq<ActionView>) -> bool {
    forall|i: int, j: int, id: u32|
        0 <= i < j < s.len() && #[trigger] is_stroke_with(s[i], id) ==> !#[trigger] is_stroke_with(
            s[j],
            id,
        )
}

/// The canvas invariant: every retained action is valid, identifiers are
/// distinct and recorded as used, and the action and point budgets hold.
pub open spec fn model_wf(m: CanvasModel) -> bool {
    &&& snapshot_of(m).len() <= MAX_CANVAS_ACTIONS
    &&& forall|i: int| 0 <= i < snapshot_of(m).len() ==> action_ok(#[trigger] snapshot_of(m)[i])
    &&& distinct_strokes(snapshot_of(m))
    &&& forall|i: int, id: u32|
        0 <= i < snapshot_of(m).len() && #[trigger] is_stroke_with(snapshot_of(m)[i], id)
            ==> m.used.contains(id)
    &&& model_total(m) <= MAX_CANVAS_POINTS
}

/// Authoritative current-turn drawing state.
#[derive(Debug)]
pub struct CanvasState {
    actions: Vec<CanvasAction>,
    active: Option<ActiveStroke>,
    used_ids: HashSet<u32>,
    total_points: usize,
}

impl View for CanvasState {
    type V = CanvasModel;

    closed spec fn view(&self) -> CanvasModel {
        CanvasModel {
            actions: self.actions@.map_values(|a: CanvasAction| a@),
            active: match self.active {
                Some(a) => Some(a@),
                None => None,
            },
            used: self.used_ids@,
        }
    }
}

proof fn lemma_total_push(s: Seq<ActionView>, a: ActionView)
    ensures
        total_of(s.push(a)) == total_of(s) + action_points(a),
{
    assert(s.push(a).drop_last() =~= s);
}

proof fn lemma_check_points_ok(s: Seq<Point>)
    ensures
        check_points(s) is Ok <==> forall|i: int| 0 <= i < s.len() ==> on_canvas(#[trigger] s[i]),
    decreases s.len(),
{
    if s.len() > 0 {
        lemma_check_points_ok(s.drop_first());
        if forall|i: int| 0 <= i < s.len() ==> on_canvas(#[trigger] s[i]) {
            assert forall|i: int| 0 <= i < s.drop_first().len() implies on_canvas(
                #[trigger] s.drop_first()[i],
            ) by {
                assert(s.drop_first()[i] == s[i + 1]);
            }
        }
        if check_points(s) is Ok {
            assert forall|i: int| 0 <= i < s.len() implies on_canvas(#[trigger] s[i]) by {
                if i > 0 {
                    assert(s[i] == s.drop_first()[i - 1]);
                }
            }
        }
    }
}

proof fn lemma_check_actions_ok(s: Seq<CanvasAction>, seen: Set<u32>)
    requires
        forall|i: int| 0 <= i < s.len() ==> action_ok(#[trigger] s[i]@),
        distinct_strokes(s.map_values(|a: CanvasAction| a@)),
        forall|i: int, id: u32|
            0 <= i < s.len() && #[trigger] is_stroke_with(s[i]@, id) ==> !seen.contains(id),
    ensures
        check_actions(s, seen) is Ok,
    decreases s.len(),
{
    if s.len() > 0 {
        let v = s.map_values(|a: CanvasAction| a@);
        let rest = s.drop_first();
        assert(rest.map_values(|a: CanvasAction| a@) =~= v.drop_first());
        match s[0] {
            CanvasAction::Stroke(stroke) => {
                lemma_check_points_ok(stroke.points@);
                assert(v[0] == s[0]@);
                assert(is_stroke_with(v[0], stroke.stroke_id.0));
                let seen2 = seen.insert(stroke.stroke_id.0);
                assert forall|i: int, id: u32|
                    0 <= i < rest.len() && #[trigger] is_stroke_with(rest[i]@, id) implies !seen2.contains(
                    id,
                ) by {
                    assert(rest[i] == s[i + 1]);
                    assert(v[i + 1] == s[i + 1]@);
                    if id == stroke.stroke_id.0 {
                        assert(is_stroke_with(v[0], id));
                        assert(!is_stroke_with(v[i + 1], id));
                    }
                }
                assert forall|i: int| 0 <= i < rest.len() implies action_ok(#[trigger] rest[i]@) by {
                    assert(rest[i] == s[i + 1]);
                }
                lemma_check_actions_ok(rest, seen2);
            },
            CanvasAction::Fill { color, at } => {
                assert forall|i: int, id: u32|
                    0 <= i < rest.len() && #[trigger] is_stroke_with(rest[i]@, id) implies !seen.contains(
                    id,
                ) by {
                    assert(rest[i] == s[i + 1]);
                }
                assert forall|i: int| 0 <= i < rest.len() implies action_ok(#[trigger] rest[i]@) by {
                    assert(rest[i] == s[i + 1]);
                }
                lemma_check_actions_ok(rest, seen);
            },
        }
    }
}

fn copy_points(points: &Vec<Point>) -> (r: Vec<Point>)
    ensures
        r@ == points@,
{
    let mut r: Vec<Point> = Vec::with_capacity(points.len());
    let mut i: usize = 0;
    while i < points.len()
        invariant
            i <= points.len(),
            r@ == points@.take(i as int),
        decreases points.len() - i,
    {
        r.push(points[i]);
        i = i + 1;
        assert(r@ =~= points@.take(i as int));
    }
    assert(points@.take(points.len() as int) =~= points@);
    r
}

fn copy_action(a: &CanvasAction) -> (r: CanvasAction)
    ensures
        r@ == a@,
{
    match a {
        CanvasAction::Stroke(s) => CanvasAction::Stroke(
            Stroke {
                stroke_id: s.stroke_id,
                color: s.color,
                width: s.width,
                points: copy_points(&s.points),
            },
        ),
        CanvasAction::Fill { color, at } => CanvasAction::Fill { color: *color, at: *at },
    }
}

impl CanvasState {
    /// The canvas invariant over the retained representation.
    pub closed spec fn wf(&self) -> bool {
        &&& model_wf(self@)
        &&& self.total_points == model_total(self@)
    }

    /// An empty canvas.
    pub fn new() -> (c: CanvasState)
        ensures
            c.wf(),
            c@.actions == Seq::<ActionView>::empty(),
            c@.active is None,
            c@.used == Set::<u32>::empty(),
    {
        let c = CanvasState { actions: Vec::new(), active: None, used_ids: HashSet::new(), total_points: 0 };
        assert(c@.actions =~= Seq::<ActionView>::empty());
        c
    }

    /// Applies one already authenticated drawer operation.
    pub fn apply(&mut self, operation: &DrawOp) -> (r: Result<(), CanvasError>)
        requires
            old(self).wf(),
        ensures
            final(self).wf(),
            (final(self)@, r) == canvas_step(old(self)@, *operation),
    {
        match operation.validate() {
            Err(e) => return Err(CanvasError::InvalidOperation(e)),
            Ok(()) => {},
        }
        match operation {
            DrawOp::Begin { stroke_id, color, width, start } => self.begin(*stroke_id, *color, *width, *start),
            DrawOp::Points { stroke_id, sequence, points } => {
                proof {
                    lemma_check_points_ok(points@);
                }
                assert(points.len() == points@.len());
                self.append(*stroke_id, *sequence, points)
            },
            DrawOp::End { stroke_id, sequence } => self.end(*stroke_id, *sequence),
            DrawOp::Undo => self.undo(),
            DrawOp::Clear => {
                self.clear();
                Ok(())
            },
            DrawOp::Fill { color, at } => self.fill(*color, *at),
        }
    }

    fn begin(&mut self, stroke_id: StrokeId, color: u32, width: u8, start: Point) -> (r: Result<(), CanvasError>)
        requires
            old(self).wf(),
            check_draw_op(DrawOp::Begin { stroke_id, color, width, start }) is Ok,
        ensures
            final(self).wf(),
            (final(self)@, r) == canvas_step(
                old(self)@,
                DrawOp::Begin { stroke_id, color, width, start },
            ),
    {
        if self.active.is_some() {
            return Err(CanvasError::StrokeAlreadyActive);
        }
        if self.used_ids.contains(&stroke_id.0) {
            return Err(CanvasError::DuplicateStroke);
        }
        if self.actions.len() >= MAX_CANVAS_ACTIONS {
            return Err(CanvasError::ActionBudgetExceeded);
        }
        if self.total_points >= MAX_CANVAS_POINTS {
            return Err(CanvasError::PointBudgetExceeded);
        }
        let ghost old_model = self@;
        self.used_ids.insert(stroke_id.0);
        self.total_points = self.total_points + 1;
        let mut points: Vec<Point> = Vec::new();
        points.push(start);
        self.active = Some(ActiveStroke { stroke_id, color, width, points, next_sequence: 0 });
        proof {
            let m = self@;
            assert(m.actions == old_model.actions);
            assert(snapshot_of(m) == old_model.actions.push(finished(m.active.unwrap())));
            assert(points@ =~= seq![start]);
            assert forall|i: int, id: u32|
                0 <= i < snapshot_of(m).len() && #[trigger] is_stroke_with(snapshot_of(m)[i], id)
                    implies m.used.contains(id) by {
                if i < old_model.actions.len() {
                    assert(snapshot_of(old_model)[i] == snapshot_of(m)[i]);
                }
            }
            assert forall|i: int| 0 <= i < snapshot_of(m).len() implies action_ok(
                #[trigger] snapshot_of(m)[i],
            ) by {
                if i < old_model.actions.len() {
                    assert(snapshot_of(old_model)[i] == snapshot_of(m)[i]);
                }
            }
            assert forall|i: int, j: int, id: u32|
                0 <= i < j < snapshot_of(m).len() && #[trigger] is_stroke_with(snapshot_of(m)[i], id)
                    implies !#[trigger] is_stroke_with(snapshot_of(m)[j], id) by {
                assert(snapshot_of(old_model)[i] == snapshot_of(m)[i]);
                if j < old_model.actions.len() {
                    assert(snapshot_of(old_model)[j] == snapshot_of(m)[j]);
                } else {
                    assert(old_model.used.contains(id));
                }
            }
        }
        Ok(())
    }

    fn append(&mut self, stroke_id: StrokeId, sequence: u16, points: &Vec<Point>) -> (r: Result<(), CanvasError>)
        requires
            old(self).wf(),
            1 <= points@.len() <= 64,
            forall|i: int| 0 <= i < points@.len() ==> on_canvas(#[trigger] points@[i]),
        ensures
            final(self).wf(),
            (final(self)@, r) == canvas_step(
                old(self)@,
                DrawOp::Points { stroke_id, sequence, points: *points },
            ),
    {
        proof {
            lemma_check_points_ok(points@);
        }
        let ghost old_model = self@;
        let (active_len, next_sequence) = match &self.active {
            None => return Err(CanvasError::NoActiveStroke),
            Some(active) => {
                if active.stroke_id != stroke_id {
                    return Err(CanvasError::WrongStroke);
                }
                if active.next_sequence != sequence {
                    return Err(
                        CanvasError::WrongSequence { expected: active.next_sequence, received: sequence },
                    );
                }
                (active.points.len(), active.next_sequence)
            },
        };
        if active_len + points.len() > MAX_POINTS_PER_STROKE {
            return Err(CanvasError::PointBudgetExceeded);
        }
        if self.total_points + points.len() > MAX_CANVAS_POINTS {
            return Err(CanvasError::PointBudgetExceeded);
        }
        if next_sequence == u16::MAX {
            return Err(CanvasError::SequenceExhausted);
        }
        let mut active = self.active.take().unwrap();
        assert(active@ == old_model.active.unwrap());
        assert(active.points@.len() == active_len);
        let mut i: usize = 0;
        let ghost start = active.points@;
        let ghost a0 = active@;
        while i < points.len()
            invariant
                i <= points.len(),
                active.stroke_id == a0.stroke_id,
                active.color == a0.color,
                active.width == a0.width,
                active.points@ == start + points@.take(i as int),
            decreases points.len() - i,
        {
            active.points.push(points[i]);
            i = i + 1;
            assert(active.points@ =~= start + points@.take(i as int));
        }
        assert(points@.take(points@.len() as int) =~= points@);
        active.next_sequence = next_sequence + 1;
        self.total_points = self.total_points + points.len();
        self.active = Some(active);
        proof {
            let m = self@;
            let a = old_model.active.unwrap();
            assert(m.actions == old_model.actions);
            assert forall|i: int| 0 <= i < snapshot_of(m).len() implies action_ok(
                #[trigger] snapshot_of(m)[i],
            ) by {
                if i < old_model.actions.len() {
                    assert(snapshot_of(old_model)[i] == snapshot_of(m)[i]);
                } else {
                    assert(snapshot_of(old_model)[i] == finished(a));
                    assert(action_ok(snapshot_of(old_model)[i]));
                    let ps = a.points + points@;
                    assert(m.active.unwrap().points == ps);
                    assert(snapshot_of(m)[i] == finished(m.active.unwrap()));
                    assert forall|k: int| 0 <= k < ps.len() implies on_canvas(#[trigger] ps[k]) by {
                        if k < a.points.len() {
                            assert(ps[k] == a.points[k]);
                        } else {
                            assert(ps[k] == points@[k - a.points.len()]);
                        }
                    }
                }
            }
            assert forall|i: int, id: u32|
                0 <= i < snapshot_of(m).len() && #[trigger] is_stroke_with(snapshot_of(m)[i], id)
                    implies m.used.contains(id) by {
                if i < old_model.actions.len() {
                    assert(snapshot_of(old_model)[i] == snapshot_of(m)[i]);
                } else {
                    assert(snapshot_of(old_model)[i] == finished(a));
                    assert(snapshot_of(m)[i] == finished(m.active.unwrap()));
                }
                assert(is_stroke_with(snapshot_of(old_model)[i], id));
            }
            assert forall|i: int, j: int, id: u32|
                0 <= i < j < snapshot_of(m).len() && #[trigger] is_stroke_with(snapshot_of(m)[i], id)
                    implies !#[trigger] is_stroke_with(snapshot_of(m)[j], id) by {
                assert(snapshot_of(old_model)[i] == snapshot_of(m)[i]);
                assert(is_stroke_with(snapshot_of(old_model)[i], id));
                assert(!is_stroke_with(snapshot_of(old_model)[j], id));
                if j < old_model.actions.len() {
                    assert(snapshot_of(old_model)[j] == snapshot_of(m)[j]);
                } else {
                    assert(snapshot_of(old_model)[j] == finished(a));
                    assert(snapshot_of(m)[j] == finished(m.active.unwrap()));
                }
            }
        }
        Ok(())
    }

    fn end(&mut self, stroke_id: StrokeId, sequence: u16) -> (r: Result<(), CanvasError>)
        requires
            old(self).wf(),
        ensures
            final(self).wf(),
            (final(self)@, r) == canvas_step(old(self)@, DrawOp::End { stroke_id, sequence }),
    {
        match &self.active {
            None => return Err(CanvasError::NoActiveStroke),
            Some(active) => {
                if active.stroke_id != stroke_id {
                    return Err(CanvasError::WrongStroke);
                }
                if active.next_sequence != sequence {
                    return Err(
                        CanvasError::WrongSequence { expected: active.next_sequence, received: sequence },
                    );
                }
            },
        }
        self.finalize_active();
        Ok(())
    }

    /// Finalizes an active stroke, used when a drawer disconnects mid-stroke.
    pub fn finalize_active(&mut self)
        requires
            old(self).wf(),
        ensures
            final(self).wf(),
            final(self)@.used == old(self)@.used,
            final(self)@.active is None,
            final(self)@.actions == snapshot_of(old(self)@),
    {
        let ghost old_model = self@;
        if let Some(active) = self.active.take() {
            let ghost av = active@;
            let stroke = CanvasAction::Stroke(
                Stroke {
                    stroke_id: active.stroke_id,
                    color: active.color,
                    width: active.width,
                    points: active.points,
                },
            );
            let ghost old_actions = self.actions@;
            self.actions.push(stroke);
            proof {
                assert(self.actions@.map_values(|x: CanvasAction| x@) =~= old_model.actions.push(
                    finished(av),
                ));
                lemma_total_push(old_model.actions, finished(av));
            }
        }
        proof {
            assert(snapshot_of(self@) == snapshot_of(old_model));
        }
    }

    fn undo(&mut self) -> (r: Result<(), CanvasError>)
        requires
            old(self).wf(),
        ensures
            final(self).wf(),
            (final(self)@, r) == canvas_step(old(self)@, DrawOp::Undo),
    {
        if self.active.is_some() {
            return Err(CanvasError::StrokeAlreadyActive);
        }
        let ghost old_model = self@;
        if let Some(action) = self.actions.pop() {
            proof {
                assert(self.actions@.map_values(|x: CanvasAction| x@) =~= old_model.actions.drop_last());
                assert(old_model.actions == old_model.actions.drop_last().push(action@));
                lemma_total_push(old_model.actions.drop_last(), action@);
            }
            match action {
                CanvasAction::Stroke(stroke) => {
                    self.total_points = self.total_points - stroke.points.len();
                },
                CanvasAction::Fill { .. } => {},
            }
            proof {
                let m = self@;
                assert forall|i: int| 0 <= i < snapshot_of(m).len() implies action_ok(
                    #[trigger] snapshot_of(m)[i],
                ) by {
                    assert(snapshot_of(old_model)[i] == snapshot_of(m)[i]);
                }
                assert forall|i: int, id: u32|
                    0 <= i < snapshot_of(m).len() && #[trigger] is_stroke_with(snapshot_of(m)[i], id)
                        implies m.used.contains(id) by {
                    assert(snapshot_of(old_model)[i] == snapshot_of(m)[i]);
                }
                assert forall|i: int, j: int, id: u32|
                    0 <= i < j < snapshot_of(m).len() && #[trigger] is_stroke_with(snapshot_of(m)[i], id)
                        implies !#[trigger] is_stroke_with(snapshot_of(m)[j], id) by {
                    assert(snapshot_of(old_model)[i] == snapshot_of(m)[i]);
                    assert(snapshot_of(old_model)[j] == snapshot_of(m)[j]);
                }
            }
        }
        Ok(())
    }

    fn fill(&mut self, color: u32, at: Point) -> (r: Result<(), CanvasError>)
        requires
            old(self).wf(),
            color <= MAX_COLOR,
            on_canvas(at),
        ensures
            final(self).wf(),
            (final(self)@, r) == canvas_step(old(self)@, DrawOp::Fill { color, at }),
    {
        if self.active.is_some() {
            return Err(CanvasError::StrokeAlreadyActive);
        }
        if self.actions.len() >= MAX_CANVAS_ACTIONS {
            return Err(CanvasError::ActionBudgetExceeded);
        }
        let ghost old_model = self@;
        self.actions.push(CanvasAction::Fill { color, at });
        proof {
            let m = self@;
            assert(m.actions =~= old_model.actions.push(ActionView::Fill { color, at }));
            lemma_total_push(old_model.actions, ActionView::Fill { color, at });
            assert forall|i: int| 0 <= i < snapshot_of(m).len() implies action_ok(
                #[trigger] snapshot_of(m)[i],
            ) by {
                if i < old_model.actions.len() {
                    assert(snapshot_of(old_model)[i] == snapshot_of(m)[i]);
                }
            }
            assert forall|i: int, id: u32|
                0 <= i < snapshot_of(m).len() && #[trigger] is_stroke_with(snapshot_of(m)[i], id)
                    implies m.used.contains(id) by {
                assert(snapshot_of(old_model)[i] == snapshot_of(m)[i]);
            }
            assert forall|i: int, j: int, id: u32|
                0 <= i < j < snapshot_of(m).len() && #[trigger] is_stroke_with(snapshot_of(m)[i], id)
                    implies !#[trigger] is_stroke_with(snapshot_of(m)[j], id) by {
                assert(snapshot_of(old_model)[i] == snapshot_of(m)[i]);
                if j < old_model.actions.len() {
                    assert(snapshot_of(old_model)[j] == snapshot_of(m)[j]);
                }
            }
        }
        Ok(())
    }

    /// Removes all drawing state while retaining used identifiers for this turn.
    pub fn clear(&mut self)
        requires
            old(self).wf(),
        ensures
            final(self).wf(),
            final(self)@ == canvas_step(old(self)@, DrawOp::Clear).0,
    {
        self.actions = Vec::new();
        self.active = None;
        self.total_points = 0;
        assert(self@.actions =~= Seq::<ActionView>::empty());
    }

    /// Returns a reconnect-safe rendering snapshot: completed actions in
    /// order followed by the active stroke. It always passes protocol
    /// validation.
    pub fn snapshot(&self) -> (s: CanvasSnapshot)
        requires
            self.wf(),
        ensures
            s@ == snapshot_of(self@),
            check_canvas(s) is Ok,
    {
        let mut actions: Vec<CanvasAction> = Vec::with_capacity(self.actions.len() + 1);
        let mut i: usize = 0;
        while i < self.actions.len()
            invariant
                i <= self.actions.len(),
                actions@.len() == i,
                forall|k: int| 0 <= k < i ==> (#[trigger] actions@[k])@ == self.actions@[k]@,
            decreases self.actions.len() - i,
        {
            let a = copy_action(&self.actions[i]);
            actions.push(a);
            i = i + 1;
        }
        assert(actions@.map_values(|x: CanvasAction| x@) =~= self@.actions);
        if let Some(active) = &self.active {
            let ghost before = actions@;
            actions.push(
                CanvasAction::Stroke(
                    Stroke {
                        stroke_id: active.stroke_id,
                        color: active.color,
                        width: active.width,
                        points: copy_points(&active.points),
                    },
                ),
            );
            assert(actions@.map_values(|x: CanvasAction| x@) =~= before.map_values(
                |x: CanvasAction| x@,
            ).push(finished(active@)));
        }
        let snap = CanvasSnapshot { actions };
        proof {
            let v = snapshot_of(self@);
            assert(snap@ == v);
            assert forall|k: int| 0 <= k < snap.actions@.len() implies action_ok(
                #[trigger] snap.actions@[k]@,
            ) by {
                assert(snap.actions@[k]@ == v[k]);
            }
            assert(snap.actions@.map_values(|a: CanvasAction| a@) == v);
            lemma_check_actions_ok(snap.actions@, Set::empty());
        }
        snap
    }

    /// The point budget: a canvas reached by any sequence of operations
    /// from a new one retains at most 50,000 points, and that count is the
    /// number of points its snapshot replays.
    pub proof fn lemma_point_budget(&self)
        requires
            self.wf(),
        ensures
            model_total(self@) <= MAX_CANVAS_POINTS,
            model_total(self@) == total_of(snapshot_of(self@)),
    {
        if self@.active is Some {
            lemma_total_push(self@.actions, finished(self@.active->0));
        }
    }

    /// Number of retained points across completed and active strokes.
    pub fn total_points(&self) -> (n: usize)
        requires
            self.wf(),
        ensures
            n == model_total(self@),
    {
        self.total_points
    }
}

impl Default for CanvasState {
    /// An empty canvas.
    fn default() -> (c: CanvasState)
        ensures
            c.wf(),
            c@.actions == Seq::<ActionView>::empty(),
            c@.active is None,
            c@.used == Set::<u32>::empty(),
    {
        CanvasState::new()
    }
}

} // verus!
