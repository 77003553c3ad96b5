//! Per-frame decisions of the frame loop: what a polled input event does.
//!
//! The loop itself performs I/O (polling keys, sleeping, refreshing the
//! backend), so it lives outside the crate; every decision it takes is a
//! function here from the polled event to plain values, and the backend
//! merely carries the answers out.

use vstd::prelude::*;

verus! {

/// The escape character, which ends the frame loop.
pub const ESCAPE_KEY: char = '\u{1b}';

/// A polled input event, as the backend reports it.
#[derive(Clone, Copy, PartialEq, Eq, Structural, Debug)]
pub enum InputEvent {
    /// A printable key.
    Character(char),
    /// The up arrow.
    KeyUp,
    /// The down arrow.
    KeyDown,
    /// The left arrow.
    KeyLeft,
    /// The right arrow.
    KeyRight,
    /// The terminal was resized.
    KeyResize,
    /// Any other event the loop ignores.
    Other,
}

/// Whether the frame loop keeps running.
#[derive(Clone, Copy, PartialEq, Eq, Structural, Debug)]
pub enum LoopState {
    Running,
    Terminated,
}

/// What one loop iteration does with the event it polled.
#[derive(Clone, Copy, PartialEq, Eq, Structural, Debug)]
pub struct FramePlan {
    /// The loop state after this iteration.
    pub next: LoopState,
    /// Requery the display dimensions and recompute the screen center.
    pub requery_size: bool,
    /// Forward the event and the elapsed delta time to the camera.
    pub update_camera: bool,
    /// Clear, transform, sort and draw this iteration.
    pub draw: bool,
}

/// Decide one frame-loop iteration from the polled event: escape terminates
/// the loop at once, with no camera update and no drawing; a resize
/// requeries the dimensions instead of moving the camera; everything else
/// (a key or no event at all) goes to the camera; the frame is drawn
/// exactly when the loop keeps running.
pub fn plan_frame(key: Option<InputEvent>) -> (p: FramePlan)
    ensures
        p.next is Terminated <==> key == Some(InputEvent::Character(ESCAPE_KEY)),
        p.draw <==> !(p.next is Terminated),
        p.requery_size <==> key == Some(InputEvent::KeyResize),
        p.update_camera <==> (!(p.next is Terminated) && key != Some(InputEvent::KeyResize)),
{
    let is_escape = match key {
        Some(InputEvent::Character(c)) => c == '\u{1b}',
        _ => false,
    };
    let is_resize = match key {
        Some(InputEvent::KeyResize) => true,
        _ => false,
    };
    if is_escape {
        FramePlan { next: LoopState::Terminated, requery_size: false, update_camera: false, draw: false }
    } else if is_resize {
        FramePlan { next: LoopState::Running, requery_size: true, update_camera: false, draw: true }
    } else {
        FramePlan { next: LoopState::Running, requery_size: false, update_camera: true, draw: true }
    }
}

/// What the camera does with one event. A horizontal move is recorded as
/// integer coefficients on the two heading terms `sin_term = speed *
/// sin(yaw)` and `cos_term = speed * cos(yaw)`: the position change is
/// `(ax * sin_term + bx * cos_term)` along x and `(az * sin_term + bz *
/// cos_term)` along z, so the float work stays with the caller.
#[derive(Clone, Copy, PartialEq, Eq, Structural, Debug)]
pub enum CamAction {
    /// Change the y position by `dir` times the speed step.
    MoveVertical { dir: i32 },
    /// Change the x and z positions by the recorded heading coefficients.
    MoveHorizontal { ax: i32, bx: i32, az: i32, bz: i32 },
    /// Change pitch and yaw by the given signs times the speed step.
    Turn { dpitch: i32, dyaw: i32 },
    /// Leave the camera untouched.
    Stay,
}

/// The action each event maps to: q/e move vertically, w/s move along the
/// heading, a/d strafe across it, the arrows turn, and anything else —
/// including no event — leaves the camera still.
pub open spec fn action_for(key: Option<InputEvent>) -> CamAction {
    match key {
        Some(InputEvent::Character(c)) => {
            if c == 'q' {
                CamAction::MoveVertical { dir: 1 }
            } else if c == 'e' {
                CamAction::MoveVertical { dir: -1i32 }
            } else if c == 'w' {
                CamAction::MoveHorizontal { ax: 1, bx: 0, az: 0, bz: 1 }
            } else if c == 's' {
                CamAction::MoveHorizontal { ax: -1i32, bx: 0, az: 0, bz: -1i32 }
            } else if c == 'a' {
                CamAction::MoveHorizontal { ax: 0, bx: -1i32, az: 1, bz: 0 }
            } else if c == 'd' {
                CamAction::MoveHorizontal { ax: 0, bx: 1, az: -1i32, bz: 0 }
            } else {
                CamAction::Stay
            }
        },
        Some(InputEvent::KeyUp) => CamAction::Turn { dpitch: -1i32, dyaw: 0 },
        Some(InputEvent::KeyDown) => CamAction::Turn { dpitch: 1, dyaw: 0 },
        Some(InputEvent::KeyLeft) => CamAction::Turn { dpitch: 0, dyaw: -1i32 },
        Some(InputEvent::KeyRight) => CamAction::Turn { dpitch: 0, dyaw: 1 },
        _ => CamAction::Stay,
    }
}

/// Map one polled event to the camera action it commands.
pub fn camera_action(key: Option<InputEvent>) -> (a: CamAction)
    ensures
        a == action_for(key),
{
    match key {
        Some(InputEvent::Character(c)) => {
            if c == 'q' {
                CamAction::MoveVertical { dir: 1 }
            } else if c == 'e' {
                CamAction::MoveVertical { dir: -1 }
            } else if c == 'w' {
                CamAction::MoveHorizontal { ax: 1, bx: 0, az: 0, bz: 1 }
            } else if c == 's' {
                CamAction::MoveHorizontal { ax: -1, bx: 0, az: 0, bz: -1 }
            } else if c == 'a' {
                CamAction::MoveHorizontal { ax: 0, bx: -1, az: 1, bz: 0 }
            } else if c == 'd' {
                CamAction::MoveHorizontal { ax: 0, bx: 1, az: -1, bz: 0 }
            } else {
                CamAction::Stay
            }
        },
        Some(InputEvent::KeyUp) => CamAction::Turn { dpitch: -1, dyaw: 0 },
        Some(InputEvent::KeyDown) => CamAction::Turn { dpitch: 1, dyaw: 0 },
        Some(InputEvent::KeyLeft) => CamAction::Turn { dpitch: 0, dyaw: -1 },
        Some(InputEvent::KeyRight) => CamAction::Turn { dpitch: 0, dyaw: 1 },
        _ => CamAction::Stay,
    }
}

/// The `(x, z)` position change a horizontal move commands, given the two
/// heading terms; every other action commands no horizontal change.
pub open spec fn horiz_delta(a: CamAction, sin_term: int, cos_term: int) -> (int, int) {
    match a {
        CamAction::MoveHorizontal { ax, bx, az, bz } => (
            ax * sin_term + bx * cos_term,
            az * sin_term + bz * cos_term,
        ),
        _ => (0, 0),
    }
}

/// Back reverses forward exactly, and strafing right reverses strafing
/// left, for every heading: the two displacements are opposite.
pub proof fn lemma_moves_reversible(sin_term: int, cos_term: int)
    ensures
        horiz_delta(action_for(Some(InputEvent::Character('w'))), sin_term, cos_term).0
            == -horiz_delta(action_for(Some(InputEvent::Character('s'))), sin_term, cos_term).0,
        horiz_delta(action_for(Some(InputEvent::Character('w'))), sin_term, cos_term).1
            == -horiz_delta(action_for(Some(InputEvent::Character('s'))), sin_term, cos_term).1,
        horiz_delta(action_for(Some(InputEvent::Character('a'))), sin_term, cos_term).0
            == -horiz_delta(action_for(Some(InputEvent::Character('d'))), sin_term, cos_term).0,
        horiz_delta(action_for(Some(InputEvent::Character('a'))), sin_term, cos_term).1
            == -horiz_delta(action_for(Some(InputEvent::Character('d'))), sin_term, cos_term).1,
{
    let fwd = horiz_delta(action_for(Some(InputEvent::Character('w'))), sin_term, cos_term);
    let back = horiz_delta(action_for(Some(InputEvent::Character('s'))), sin_term, cos_term);
    let left = horiz_delta(action_for(Some(InputEvent::Character('a'))), sin_term, cos_term);
    let right = horiz_delta(action_for(Some(InputEvent::Character('d'))), sin_term, cos_term);
    assert(fwd.0 == sin_term && fwd.1 == cos_term);
    assert(back.0 == -sin_term && back.1 == -cos_term);
    assert(left.0 == -cos_term && left.1 == sin_term);
    assert(right.0 == cos_term && right.1 == -sin_term);
}

/// Forward motion and leftward strafing are orthogonal for every heading:
/// the dot product of their displacements vanishes.
pub proof fn lemma_forward_strafe_orthogonal(sin_term: int, cos_term: int)
    ensures
        horiz_delta(action_for(Some(InputEvent::Character('w'))), sin_term, cos_term).0
            * horiz_delta(action_for(Some(InputEvent::Character('a'))), sin_term, cos_term).0
            + horiz_delta(action_for(Some(InputEvent::Character('w'))), sin_term, cos_term).1
            * horiz_delta(action_for(Some(InputEvent::Character('a'))), sin_term, cos_term).1 == 0,
{
    let fwd = horiz_delta(action_for(Some(InputEvent::Character('w'))), sin_term, cos_term);
    let left = horiz_delta(action_for(Some(InputEvent::Character('a'))), sin_term, cos_term);
    assert(fwd.0 == sin_term && fwd.1 == cos_term);
    assert(left.0 == -cos_term && left.1 == sin_term);
    assert(sin_term * -cos_term + cos_term * sin_term == 0) by (nonlinear_arith);
}

/// With a zero sine term — yaw zero — the forward key moves the camera
/// along z alone, by the full cosine term; the x position is untouched.
pub proof fn lemma_forward_at_zero_yaw(cos_term: int)
    ensures
        horiz_delta(action_for(Some(InputEvent::Character('w'))), 0, cos_term).0 == 0,
        horiz_delta(action_for(Some(InputEvent::Character('w'))), 0, cos_term).1 == cos_term,
{
    lemma_moves_reversible(0, cos_term);
    let fwd = horiz_delta(action_for(Some(InputEvent::Character('w'))), 0, cos_term);
    assert(fwd.0 == 0 && fwd.1 == cos_term);
}

} // verus!
