//! Human-readable explanations of errors, and the user-safe wire form of a
//! rejected game action.

use vstd::prelude::*;

use crate::error::ValidationError;
use crate::failure::{CanvasError, RuleError};
use crate::model::{ErrorCode, ProtocolError};
use crate::text::{decimal, push_decimal, push_str};

verus! {

/// Explanation of a validation failure.
pub open spec fn validation_text(e: ValidationError) -> Seq<char> {
    match e {
        ValidationError::Empty { field } => field@ + " must not be empty"@,
        ValidationError::TooLong { field, maximum, actual } => field@ + " exceeds its maximum of "@
            + decimal(maximum as nat) + "; received "@ + decimal(actual as nat),
        ValidationError::TooShort { field, minimum, actual } => field@ + " requires at least "@
            + decimal(minimum as nat) + " item(s); received "@ + decimal(actual as nat),
        ValidationError::OutOfRange { field, minimum, maximum, actual } => field@ + " must be in "@
            + decimal(minimum as nat) + "..="@ + decimal(maximum as nat) + "; received "@ + decimal(
            actual as nat,
        ),
        ValidationError::ControlCharacter { field } => field@
            + " contains a forbidden control character"@,
        ValidationError::Inconsistent { field, reason } => field@ + " is inconsistent: "@ + reason@,
    }
}

/// Explanation of a rejected canvas operation.
pub open spec fn canvas_text(e: CanvasError) -> Seq<char> {
    match e {
        CanvasError::StrokeAlreadyActive => "a stroke is already active"@,
        CanvasError::NoActiveStroke => "no stroke is active"@,
        CanvasError::DuplicateStroke => "stroke identifier was already used"@,
        CanvasError::WrongStroke => "operation references the wrong active stroke"@,
        CanvasError::WrongSequence { expected, received } => "expected sequence "@ + decimal(
            expected as nat,
        ) + ", received "@ + decimal(received as nat),
        CanvasError::SequenceExhausted => "stroke sequence exhausted"@,
        CanvasError::InvalidOperation(v) => "invalid draw operation: "@ + validation_text(v),
        CanvasError::PointBudgetExceeded => "canvas point budget exceeded"@,
        CanvasError::ActionBudgetExceeded => "canvas action budget exceeded"@,
    }
}

/// Explanation of a rejected game action.
pub open spec fn rule_text(e: RuleError) -> Seq<char> {
    match e {
        RuleError::UnknownPlayer => "player does not exist"@,
        RuleError::PlayerDisconnected => "player is disconnected"@,
        RuleError::HostOnly => "only the host may perform this action"@,
        RuleError::InvalidPhase => "action is not valid in the current phase"@,
        RuleError::NotEnoughPlayers => "at least two connected players are required"@,
        RuleError::RoomFull => "room is full"@,
        RuleError::GameAlreadyStarted => "game has already started"@,
        RuleError::InvalidWordChoice => "word choice is out of range"@,
        RuleError::DrawerOnly => "only the current drawer may draw"@,
        RuleError::DrawerCannotGuess => "drawer cannot guess"@,
        RuleError::DrawerCannotVote => "drawer cannot rate their own drawing"@,
        RuleError::WrongTurn => "drawing vote references the wrong turn"@,
        RuleError::AlreadyGuessed => "player already guessed correctly"@,
        RuleError::Spoiler => "chat message would reveal the secret word"@,
        RuleError::CannotKickSelf => "host cannot kick themselves"@,
        RuleError::CannotKickDrawer => "current drawer cannot be kicked"@,
        RuleError::InvalidKickTarget => "kick target does not exist"@,
        RuleError::DeadlineElapsed => "phase deadline has elapsed"@,
        RuleError::InvalidMessage(v) => "invalid message: "@ + validation_text(v),
        RuleError::Canvas(c) => canvas_text(c),
        RuleError::PlayerIdExhausted => "player identifier space exhausted"@,
        RuleError::TurnIdExhausted => "turn identifier space exhausted"@,
    }
}

/// Wire category of a rejected game action.
pub open spec fn rule_code(e: RuleError) -> ErrorCode {
    match e {
        RuleError::InvalidPhase | RuleError::DeadlineElapsed => ErrorCode::InvalidPhase,
        RuleError::HostOnly
        | RuleError::DrawerOnly
        | RuleError::DrawerCannotGuess
        | RuleError::DrawerCannotVote
        | RuleError::CannotKickSelf
        | RuleError::CannotKickDrawer => ErrorCode::Forbidden,
        _ => ErrorCode::InvalidMessage,
    }
}

/// Appends the explanation of a validation failure.
fn push_validation_text(s: &mut String, e: &ValidationError)
    ensures
        final(s)@ == old(s)@ + validation_text(*e),
{
    let ghost start = s@;
    match e {
        ValidationError::Empty { field } => {
            push_str(s, field);
            push_str(s, " must not be empty");
        },
        ValidationError::TooLong { field, maximum, actual } => {
            push_str(s, field);
            push_str(s, " exceeds its maximum of ");
            push_decimal(s, *maximum as u64);
            push_str(s, "; received ");
            push_decimal(s, *actual as u64);
        },
        ValidationError::TooShort { field, minimum, actual } => {
            push_str(s, field);
            push_str(s, " requires at least ");
            push_decimal(s, *minimum as u64);
            push_str(s, " item(s); received ");
            push_decimal(s, *actual as u64);
        },
        ValidationError::OutOfRange { field, minimum, maximum, actual } => {
            push_str(s, field);
            push_str(s, " must be in ");
            push_decimal(s, *minimum);
            push_str(s, "..=");
            push_decimal(s, *maximum);
            push_str(s, "; received ");
            push_decimal(s, *actual);
        },
        ValidationError::ControlCharacter { field } => {
            push_str(s, field);
            push_str(s, " contains a forbidden control character");
        },
        ValidationError::Inconsistent { field, reason } => {
            push_str(s, field);
            push_str(s, " is inconsistent: ");
            push_str(s, reason);
        },
    }
    assert(s@ =~= start + validation_text(*e));
}

/// Appends the explanation of a rejected canvas operation.
fn push_canvas_text(s: &mut String, e: &CanvasError)
    ensures
        final(s)@ == old(s)@ + canvas_text(*e),
{
    let ghost start = s@;
    match e {
        CanvasError::StrokeAlreadyActive => push_str(s, "a stroke is already active"),
        CanvasError::NoActiveStroke => push_str(s, "no stroke is active"),
        CanvasError::DuplicateStroke => push_str(s, "stroke identifier was already used"),
        CanvasError::WrongStroke => push_str(s, "operation references the wrong active stroke"),
        CanvasError::WrongSequence { expected, received } => {
            push_str(s, "expected sequence ");
            push_decimal(s, *expected as u64);
            push_str(s, ", received ");
            push_decimal(s, *received as u64);
        },
        CanvasError::SequenceExhausted => push_str(s, "stroke sequence exhausted"),
        CanvasError::InvalidOperation(v) => {
            push_str(s, "invalid draw operation: ");
            push_validation_text(s, v);
        },
        CanvasError::PointBudgetExceeded => push_str(s, "canvas point budget exceeded"),
        CanvasError::ActionBudgetExceeded => push_str(s, "canvas action budget exceeded"),
    }
    assert(s@ =~= start + canvas_text(*e));
}

impl ValidationError {
    /// Human-readable explanation.
    pub fn message(&self) -> (r: String)
        ensures
            r@ == validation_text(*self),
    {
        let mut s = String::new();
        push_validation_text(&mut s, self);
        assert(s@ =~= validation_text(*self));
        s
    }
}

impl CanvasError {
    /// Human-readable explanation.
    pub fn message(&self) -> (r: String)
        ensures
            r@ == canvas_text(*self),
    {
        let mut s = String::new();
        push_canvas_text(&mut s, self);
        assert(s@ =~= canvas_text(*self));
        s
    }
}

impl RuleError {
    /// Human-readable explanation.
    pub fn message(&self) -> (r: String)
        ensures
            r@ == rule_text(*self),
    {
        let mut s = String::new();
        match self {
            RuleError::UnknownPlayer => push_str(&mut s, "player does not exist"),
            RuleError::PlayerDisconnected => push_str(&mut s, "player is disconnected"),
            RuleError::HostOnly => push_str(&mut s, "only the host may perform this action"),
            RuleError::InvalidPhase => push_str(&mut s, "action is not valid in the current phase"),
            RuleError::NotEnoughPlayers => push_str(&mut s, "at least two connected players are required"),
            RuleError::RoomFull => push_str(&mut s, "room is full"),
            RuleError::GameAlreadyStarted => push_str(&mut s, "game has already started"),
            RuleError::InvalidWordChoice => push_str(&mut s, "word choice is out of range"),
            RuleError::DrawerOnly => push_str(&mut s, "only the current drawer may draw"),
            RuleError::DrawerCannotGuess => push_str(&mut s, "drawer cannot guess"),
            RuleError::DrawerCannotVote => push_str(&mut s, "drawer cannot rate their own drawing"),
            RuleError::WrongTurn => push_str(&mut s, "drawing vote references the wrong turn"),
            RuleError::AlreadyGuessed => push_str(&mut s, "player already guessed correctly"),
            RuleError::Spoiler => push_str(&mut s, "chat message would reveal the secret word"),
            RuleError::CannotKickSelf => push_str(&mut s, "host cannot kick themselves"),
            RuleError::CannotKickDrawer => push_str(&mut s, "current drawer cannot be kicked"),
            RuleError::InvalidKickTarget => push_str(&mut s, "kick target does not exist"),
            RuleError::DeadlineElapsed => push_str(&mut s, "phase deadline has elapsed"),
            RuleError::InvalidMessage(v) => {
                push_str(&mut s, "invalid message: ");
                push_validation_text(&mut s, v);
            },
            RuleError::Canvas(c) => push_canvas_text(&mut s, c),
            RuleError::PlayerIdExhausted => push_str(&mut s, "player identifier space exhausted"),
            RuleError::TurnIdExhausted => push_str(&mut s, "turn identifier space exhausted"),
        }
        assert(s@ =~= rule_text(*self));
        s
    }

    /// Converts an internal rule failure into a user-safe wire error.
    pub fn as_protocol_error(&self) -> (p: ProtocolError)
        ensures
            p.code == rule_code(*self),
            p.message@ == rule_text(*self),
    {
        let code = match self {
            RuleError::InvalidPhase | RuleError::DeadlineElapsed => ErrorCode::InvalidPhase,
            RuleError::HostOnly
            | RuleError::DrawerOnly
            | RuleError::DrawerCannotGuess
            | RuleError::DrawerCannotVote
            | RuleError::CannotKickSelf
            | RuleError::CannotKickDrawer => ErrorCode::Forbidden,
            _ => ErrorCode::InvalidMessage,
        };
        ProtocolError { code, message: self.message() }
    }
}

} // verus!
