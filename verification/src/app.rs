//! The state of the launcher window that does not depend on the toolkit.
use vstd::prelude::*;

verus! {

/// The tabs of the launcher window.
#[derive(PartialEq, Eq, Structural, Debug, Clone, Copy)]
pub enum AppTab {
    Main,
    Projects,
    Vault,
}

} // verus!
