//! Words: the tagged descriptions of how an identifier executes once
//! resolved.

use vstd::prelude::*;

use crate::object::Object;

verus! {

/// The closed set of native operations this core implements. A primitive
/// word names one of these; the runtime dispatches on the name by explicit
/// matching.
#[derive(Clone, Copy, Debug, PartialEq, Eq, Structural)]
pub enum PrimitiveWord {
    Drop,
    Dup,
    Swap,
    Rot,
    Add,
    Sub,
    Mul,
    Div,
    Mod,
}

/// How a word executes: natively (implemented), as a sequence of other
/// words, or as a constant to push. The latter two kinds are declared but
/// reserved; this core reports them as not yet supported rather than
/// silently ignoring them.
#[derive(Debug)]
pub enum WordImplementation {
    Primitive(PrimitiveWord),
    Sequence(Vec<Word>),
    Constant(Object),
}

/// A single definition bound to an identifier inside a vocabulary.
///
/// `hidden` excludes the definition from resolution while it still occupies
/// its slot in the identifier's definition list. `immediate` is reserved for
/// future compile-time execution: it is accepted but otherwise inert here.
#[derive(Debug)]
pub struct Word {
    pub hidden: bool,
    pub immediate: bool,
    pub implementation: WordImplementation,
}

impl Word {
    /// A visible, non-immediate word around the given implementation.
    pub fn new(implementation: WordImplementation) -> (w: Word)
        ensures
            w == (Word { hidden: false, immediate: false, implementation }),
    {
        Word { hidden: false, immediate: false, implementation }
    }
}

} // verus!
