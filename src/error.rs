use vstd::prelude::*;

verus! {

/// Why a call on a layer, the loss or the network was refused.
#[derive(Debug, Clone, Copy, PartialEq, Eq, Structural)]
pub enum NetError {
    /// A matrix does not have the shape that the layer's widths or its
    /// cached batch call for.
    ShapeMismatch,
    /// `backward` was called before any `forward`.
    BackwardBeforeForward,
    /// A parameter update was asked for before gradients were computed.
    UpdateBeforeBackward,
}

} // verus!
