//! The one thing the library asks of a language: how to start its server.
use vstd::prelude::*;

verus! {

/// A language whose server the embedding application can spawn. The
/// returned argv list must be non-empty; its first element is the program.
pub trait Language {
    fn get_command(&self) -> Vec<String>;
}

} // verus!
