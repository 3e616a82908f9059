//! The one-shot camera binding decision: which camera entity, if any, should
//! receive the control tag. The host runs this once after scene setup; the
//! scene itself is summarised by two counts, which is all the rule reads.

use vstd::prelude::*;

verus! {

/// Marker for the camera entity that gestures drive. Attach it manually to
/// pick a camera, or let the binder attach it when exactly one camera exists.
#[derive(Clone, Copy, Debug, Default, PartialEq, Eq, Structural)]
pub struct TouchCameraTag;

/// What the binder does, decided once from the scene's counts. `NoCamera`
/// and `Ambiguous` are the two configuration errors; both leave the tag
/// unbound and the tracker inert for the session.
#[derive(Clone, Copy, Debug, PartialEq, Eq, Structural)]
pub enum BindAction {
    /// A camera already carries the tag: nothing to do.
    AlreadyTagged,
    /// No camera exists at bind time.
    NoCamera,
    /// Exactly one untagged camera exists: attach the tag to it.
    Attach,
    /// Several untagged cameras exist and none is tagged: the choice is left
    /// to the user.
    Ambiguous,
}

/// The binding rule: an existing tag wins; otherwise zero cameras is an
/// error, one camera is bound automatically, and more than one is ambiguous.
pub open spec fn bind_decision_spec(tagged: nat, cameras: nat) -> BindAction {
    if tagged > 0 {
        BindAction::AlreadyTagged
    } else if cameras == 0 {
        BindAction::NoCamera
    } else if cameras == 1 {
        BindAction::Attach
    } else {
        BindAction::Ambiguous
    }
}

/// Decide the binding action from the number of tagged cameras and the
/// number of camera entities in the scene.
pub fn bind_decision(tagged: usize, cameras: usize) -> (r: BindAction)
    ensures
        r == bind_decision_spec(tagged as nat, cameras as nat),
{
    if tagged > 0 {
        BindAction::AlreadyTagged
    } else if cameras == 0 {
        BindAction::NoCamera
    } else if cameras == 1 {
        BindAction::Attach
    } else {
        BindAction::Ambiguous
    }
}

/// How many entities carry the tag once the action has been applied: only
/// `Attach` adds a tag, and it adds exactly one.
pub open spec fn tags_after(tagged: nat, action: BindAction) -> nat {
    if action == BindAction::Attach {
        tagged + 1
    } else {
        tagged
    }
}

} // verus!
