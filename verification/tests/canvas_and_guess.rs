use ndraw::canvas::CanvasState;
use ndraw::failure::CanvasError;
use ndraw::guess::{contains_secret, is_close, is_correct, normalize};
use ndraw::ids::StrokeId;
use ndraw::model::{CanvasAction, DrawOp, Point};
use ndraw::scoring::guess_score;
use ndraw::time::{GameDeadline, GameTime};

#[test]
fn reconstructs_valid_strokes_and_rejects_bad_sequences() {
    let mut canvas = CanvasState::default();
    let stroke_id = StrokeId(7);
    canvas
        .apply(&DrawOp::Begin { stroke_id, color: 0x11_22_33, width: 4, start: Point { x: 10, y: 20 } })
        .unwrap();
    canvas
        .apply(&DrawOp::Points {
            stroke_id,
            sequence: 0,
            points: vec![Point { x: 11, y: 21 }, Point { x: 12, y: 22 }],
        })
        .unwrap();

    assert_eq!(
        canvas.apply(&DrawOp::End { stroke_id, sequence: 0 }),
        Err(CanvasError::WrongSequence { expected: 1, received: 0 })
    );
    canvas.apply(&DrawOp::End { stroke_id, sequence: 1 }).unwrap();
    assert_eq!(canvas.snapshot().actions.len(), 1);
    assert_eq!(canvas.total_points(), 3);

    canvas.apply(&DrawOp::Undo).unwrap();
    assert!(canvas.snapshot().actions.is_empty());
    assert_eq!(canvas.total_points(), 0);
    assert_eq!(
        canvas.apply(&DrawOp::Begin { stroke_id, color: 0, width: 1, start: Point { x: 0, y: 0 } }),
        Err(CanvasError::DuplicateStroke)
    );
}

#[test]
fn canvas_fill_is_authoritative_and_reconnect_safe() {
    let mut canvas = CanvasState::default();
    let at = Point { x: 120, y: 240 };
    canvas.apply(&DrawOp::Fill { color: 0x12_34_56, at }).unwrap();
    assert_eq!(canvas.snapshot().actions, vec![CanvasAction::Fill { color: 0x12_34_56, at }]);

    canvas.apply(&DrawOp::Clear).unwrap();
    assert!(canvas.snapshot().actions.is_empty());
}

#[test]
fn undo_removes_the_latest_fill_without_losing_previous_strokes() {
    let mut canvas = CanvasState::default();
    let stroke_id = StrokeId(8);
    canvas
        .apply(&DrawOp::Begin { stroke_id, color: 0, width: 4, start: Point { x: 10, y: 10 } })
        .unwrap();
    canvas.apply(&DrawOp::End { stroke_id, sequence: 0 }).unwrap();
    canvas.apply(&DrawOp::Fill { color: 0xff_00_00, at: Point { x: 20, y: 20 } }).unwrap();
    canvas.apply(&DrawOp::Undo).unwrap();

    assert!(matches!(
        canvas.snapshot().actions.as_slice(),
        [CanvasAction::Stroke(stroke)] if stroke.stroke_id == stroke_id
    ));
    assert_eq!(canvas.total_points(), 1);
}

#[test]
fn normalizes_guesses_and_blocks_complete_secret_phrases() {
    assert_eq!(normalize("  T\u{2011}SHIRT!! "), "t shirt");
    assert!(is_correct("T-shirt", "t shirt"));
    assert!(is_close("telescop", "telescope"));
    assert!(!is_close("bicycle", "telescope"));
    assert!(contains_secret("I think it is a RED--FOX!", "red fox"));
    assert!(!contains_secret("the foxtrot is red", "fox"));
}

#[test]
fn score_is_bounded_and_rounded_from_server_time() {
    let deadline = GameDeadline(80_000);
    assert_eq!(guess_score(deadline, GameTime(0), 80_000), 500);
    assert_eq!(guess_score(deadline, GameTime(40_000), 80_000), 250);
    assert_eq!(guess_score(deadline, GameTime(79_999), 80_000), 50);
    assert_eq!(guess_score(deadline, GameTime(90_000), 80_000), 50);
}

#[test]
fn clear_keeps_used_stroke_identifiers() {
    let mut canvas = CanvasState::default();
    let stroke_id = StrokeId(3);
    canvas
        .apply(&DrawOp::Begin { stroke_id, color: 0, width: 2, start: Point { x: 1, y: 1 } })
        .unwrap();
    canvas.apply(&DrawOp::End { stroke_id, sequence: 0 }).unwrap();
    canvas.apply(&DrawOp::Clear).unwrap();
    assert_eq!(canvas.total_points(), 0);
    assert_eq!(
        canvas.apply(&DrawOp::Begin { stroke_id, color: 0, width: 2, start: Point { x: 1, y: 1 } }),
        Err(CanvasError::DuplicateStroke)
    );
}

#[test]
fn an_active_stroke_is_part_of_the_snapshot_and_blocks_fills() {
    let mut canvas = CanvasState::default();
    let stroke_id = StrokeId(5);
    canvas
        .apply(&DrawOp::Begin { stroke_id, color: 7, width: 3, start: Point { x: 4, y: 4 } })
        .unwrap();
    assert_eq!(canvas.snapshot().actions.len(), 1);
    assert_eq!(
        canvas.apply(&DrawOp::Fill { color: 1, at: Point { x: 2, y: 2 } }),
        Err(CanvasError::StrokeAlreadyActive)
    );
    assert_eq!(
        canvas.apply(&DrawOp::End { stroke_id: StrokeId(6), sequence: 0 }),
        Err(CanvasError::WrongStroke)
    );
    canvas.finalize_active();
    assert_eq!(canvas.snapshot().actions.len(), 1);
    assert_eq!(
        canvas.apply(&DrawOp::End { stroke_id, sequence: 0 }),
        Err(CanvasError::NoActiveStroke)
    );
}

#[test]
fn normalization_collapses_separators_and_lowercases() {
    assert_eq!(normalize("Red   Fox"), "red fox");
    assert_eq!(normalize("!!!"), "");
    assert!(!is_correct("!!!", "!!!"));
    assert!(!is_close("telescope", "telescope"));
    assert!(is_close("cat", "car"));
    assert!(!contains_secret("", "fox"));
}

#[test]
fn guess_scores_round_to_nearest() {
    assert_eq!(guess_score(GameDeadline(1_000), GameTime(0), 0), 50);
    assert_eq!(guess_score(GameDeadline(3_000), GameTime(2_000), 3_000), 167);
}
