//! Execution core of a small, dictionary-dispatched, stack-based language:
//! an operand stack of shared immutable values, namespaced dictionaries of
//! named operations ("words"), and a dispatch loop that turns a token into
//! either a word invocation or a literal push.

mod float_bits;
mod internal_error;
mod laws;
mod literal;
mod object;
mod runtime;
mod runtime_error;
mod store;
mod type_system;
mod vocabulary;
mod word;

pub use internal_error::InternalError;
pub use object::Object;
pub use runtime::Runtime;
pub use runtime_error::RuntimeError;
pub use store::DEFAULT_STORE_CAPACITY;
pub use store::Store;
pub use store::StoredObject;
pub use type_system::TypeSignature;
pub use vocabulary::MAX_ACTIVE_VOCABULARIES;
pub use vocabulary::Vocabularies;
pub use vocabulary::Vocabulary;
pub use word::PrimitiveWord;
pub use word::Word;
pub use word::WordImplementation;
