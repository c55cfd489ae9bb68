//! The passes that run before code is generated.

pub mod declare;
pub mod laws;
pub mod signatures;

use crate::ast::declaration::DeclarationList;
use crate::mir::generator::error::Res;
use vstd::prelude::*;

verus! {

/// A pass over the declarations of a file, which runs before code is generated.
pub trait PreMIRPass: Sized {
    /// Can the pass run?
    spec fn ready(&self) -> bool;

    /// Runs the pass.
    fn run(self, list: &mut DeclarationList) -> (r: Res<()>)
        requires
            self.ready(),
    ;
}

} // verus!
