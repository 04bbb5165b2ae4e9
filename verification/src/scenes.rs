//! The screens of the client.

use vstd::prelude::*;

pub mod welcome;

pub use welcome::{WelcomeMessage, WelcomeScene};

verus! {

/// The screen that is shown: the welcome screen until an identity is known,
/// the file list after that.
#[derive(Debug, Clone, Copy, PartialEq, Eq, Structural)]
pub enum Scenes {
    Welcome,
    FileIndex,
}

impl Default for Scenes {
    fn default() -> (scene: Self)
        ensures
            scene == Scenes::Welcome,
    {
        Self::Welcome
    }
}

} // verus!
