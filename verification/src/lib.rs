//! A verified startup sequencer for a splash-screen application.
//!
//! The library models the host runtime's window registry, picks the
//! startup delay, and performs the one-shot splash-to-main window
//! transition with a proved contract: exactly one close attempt on the
//! splash window, then exactly one show attempt on the main window.

use vstd::prelude::*;

pub mod delay;
pub mod registry;
pub mod sequencer;

verus! {

} // verus!
