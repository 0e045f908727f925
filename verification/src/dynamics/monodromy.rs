//! Modular discrete kernel family used to assemble the row-normalized kernel K.

use vstd::prelude::*;

verus! {

/// Modular discrete kernel family used to assemble K̃ before row renormalization.
#[derive(Clone, Copy, Debug, PartialEq, Eq, Structural)]
pub enum KernelKind {
    /// Yukawa-proxy sample m*/(4π ds) e^{−m* ds} (default regression kernel).
    YukawaProxy,
    /// Pure exponential decay e^{−m* ds} (comparative modular baseline).
    ExponentialDecay,
}

impl Default for KernelKind {
    /// The Yukawa proxy is the default regression kernel.
    fn default() -> (k: Self)
        ensures
            k == KernelKind::YukawaProxy,
    {
        KernelKind::YukawaProxy
    }
}

} // verus!
