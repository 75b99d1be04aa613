//! The runtime: one store and one vocabularies registry, and the dispatch
//! loop that turns each token into either a word invocation or a literal
//! push. The runtime has exactly one state — ready for the next token —
//! re-entered after every `feed_word` call, successful or not.

use vstd::prelude::*;

use crate::internal_error::InternalError;
use crate::literal::parse_literal;
use crate::literal::spec_parse_literal;
use crate::object::Object;
use crate::object::add_spec;
use crate::object::div_spec;
use crate::object::modulo_spec;
use crate::object::mul_spec;
use crate::object::sub_spec;
use crate::runtime_error::RuntimeError;
use crate::store::Store;
use crate::store::spec_rotted;
use crate::store::spec_swapped;
use crate::store::stored_object;
use crate::vocabulary::Vocabularies;
use crate::vocabulary::Vocabulary;
use crate::word::PrimitiveWord;
use crate::word::Word;
use crate::word::WordImplementation;

verus! {

/// The unit of interpretation state: all mutation flows through its two
/// owned fields, and nothing is shared across instances.
pub struct Runtime {
    pub store: Store,
    pub vocabularies: Vocabularies,
}

/// What an arithmetic primitive computes from the left and right operand.
pub open spec fn spec_binary_op(p: PrimitiveWord, l: Object, r: Object) -> Result<
    Object,
    RuntimeError,
> {
    match p {
        PrimitiveWord::Add => add_spec(l, r),
        PrimitiveWord::Sub => sub_spec(l, r),
        PrimitiveWord::Mul => mul_spec(l, r),
        PrimitiveWord::Div => div_spec(l, r),
        _ => modulo_spec(l, r),
    }
}

/// What running a primitive against a store yields: the stack afterwards on
/// success, or the error — and in the error case the stack is untouched,
/// because every primitive checks its depth before its first pop.
///
/// An arithmetic primitive pops the top as its right operand and the next
/// as its left operand, and pushes the one result; since it never grows the
/// stack, it cannot overflow.
pub open spec fn spec_run_primitive(st: Store, p: PrimitiveWord) -> Result<
    Seq<Object>,
    RuntimeError,
> {
    let s = st@;
    match p {
        PrimitiveWord::Drop => if s.len() < 1 {
            Err(RuntimeError::StackUnderflow)
        } else {
            Ok(s.drop_last())
        },
        PrimitiveWord::Dup => if s.len() < 1 {
            Err(RuntimeError::StackUnderflow)
        } else if !st.spec_can_push() {
            Err(RuntimeError::StackOverflow)
        } else {
            Ok(s.push(s.last()))
        },
        PrimitiveWord::Swap => if s.len() < 2 {
            Err(RuntimeError::StackUnderflow)
        } else {
            Ok(spec_swapped(s))
        },
        PrimitiveWord::Rot => if s.len() < 3 {
            Err(RuntimeError::StackUnderflow)
        } else {
            Ok(spec_rotted(s))
        },
        _ => if s.len() < 2 {
            Err(RuntimeError::StackUnderflow)
        } else {
            match spec_binary_op(p, s[s.len() - 2], s.last()) {
                Ok(o) => Ok(s.drop_last().drop_last().push(o)),
                Err(e) => Err(e),
            }
        },
    }
}

/// Runs one primitive against the store: the native implementation behind
/// each of the built-in words. On failure the store is exactly as it was.
pub fn run_primitive(store: &mut Store, p: PrimitiveWord) -> (r: Result<(), RuntimeError>)
    ensures
        final(store).cap() == old(store).cap(),
        match spec_run_primitive(*old(store), p) {
            Ok(s2) => r == Ok::<(), RuntimeError>(()) && final(store)@ == s2,
            Err(e) => r == Err::<(), RuntimeError>(e) && final(store)@ == old(store)@,
        },
{
    match p {
        PrimitiveWord::Drop => match store.pop() {
            Ok(_) => Ok(()),
            Err(e) => Err(e),
        },
        PrimitiveWord::Dup => match store.dup() {
            Ok(_) => Ok(()),
            Err(e) => Err(e),
        },
        PrimitiveWord::Swap => match store.swap() {
            Ok(_) => Ok(()),
            Err(e) => Err(e),
        },
        PrimitiveWord::Rot => match store.rot() {
            Ok(_) => Ok(()),
            Err(e) => Err(e),
        },
        PrimitiveWord::Add | PrimitiveWord::Sub | PrimitiveWord::Mul | PrimitiveWord::Div
        | PrimitiveWord::Mod => {
            if store.len() < 2 {
                return Err(RuntimeError::StackUnderflow);
            }
            let right_handle = match store.npeek(0) {
                Ok(h) => h,
                Err(e) => {
                    return Err(e);
                },
            };
            let left_handle = match store.npeek(1) {
                Ok(h) => h,
                Err(e) => {
                    return Err(e);
                },
            };
            let right = stored_object(&right_handle);
            let left = stored_object(&left_handle);
            let computed = match p {
                PrimitiveWord::Add => left.add(&right),
                PrimitiveWord::Sub => left.sub(&right),
                PrimitiveWord::Mul => left.mul(&right),
                PrimitiveWord::Div => left.div(&right),
                _ => left.modulo(&right),
            };
            // Nothing is popped until the operation is known to succeed, so
            // a failed word leaves the stack exactly as it was.
            let result = match computed {
                Ok(o) => o,
                Err(e) => {
                    return Err(e);
                },
            };
            let _right = store.pop();
            let _left = store.pop();
            let _pushed = store.push(result);
            Ok(())
        },
    }
}

/// The visible, non-immediate word around a primitive, as the built-in
/// vocabulary defines it.
pub open spec fn spec_primitive_word(p: PrimitiveWord) -> Word {
    Word { hidden: false, immediate: false, implementation: WordImplementation::Primitive(p) }
}

/// What a fresh runtime's dictionary resolves each token to: the nine
/// built-in words of the "primitives" vocabulary, and nothing else.
pub open spec fn spec_initial_word(t: Seq<char>) -> Option<Word> {
    if t == "drop"@ {
        Some(spec_primitive_word(PrimitiveWord::Drop))
    } else if t == "dup"@ {
        Some(spec_primitive_word(PrimitiveWord::Dup))
    } else if t == "swap"@ {
        Some(spec_primitive_word(PrimitiveWord::Swap))
    } else if t == "rot"@ {
        Some(spec_primitive_word(PrimitiveWord::Rot))
    } else if t == "add"@ {
        Some(spec_primitive_word(PrimitiveWord::Add))
    } else if t == "sub"@ {
        Some(spec_primitive_word(PrimitiveWord::Sub))
    } else if t == "mul"@ {
        Some(spec_primitive_word(PrimitiveWord::Mul))
    } else if t == "div"@ {
        Some(spec_primitive_word(PrimitiveWord::Div))
    } else if t == "mod"@ {
        Some(spec_primitive_word(PrimitiveWord::Mod))
    } else {
        None
    }
}

/// Defines the nine built-in words in `voc`, which must still be empty.
fn populate_primitive_words(voc: &mut Vocabulary) -> (r: Result<(), RuntimeError>)
    requires
        forall|id: Seq<char>| old(voc).spec_definitions(id) is None,
    ensures
        r == Ok::<(), RuntimeError>(()),
        final(voc).spec_name() == old(voc).spec_name(),
        forall|id: Seq<char>|
            final(voc).spec_definitions(id) == match spec_initial_word(id) {
                Some(w) => Some(seq![w]),
                None => None::<Seq<Word>>,
            },
{
    proof {
        reveal_strlit("drop");
        reveal_strlit("dup");
        reveal_strlit("swap");
        reveal_strlit("rot");
        reveal_strlit("add");
        reveal_strlit("sub");
        reveal_strlit("mul");
        reveal_strlit("div");
        reveal_strlit("mod");
    }
    voc.define_word("drop", Word::new(WordImplementation::Primitive(PrimitiveWord::Drop)))?;
    voc.define_word("dup", Word::new(WordImplementation::Primitive(PrimitiveWord::Dup)))?;
    voc.define_word("swap", Word::new(WordImplementation::Primitive(PrimitiveWord::Swap)))?;
    voc.define_word("rot", Word::new(WordImplementation::Primitive(PrimitiveWord::Rot)))?;
    voc.define_word("add", Word::new(WordImplementation::Primitive(PrimitiveWord::Add)))?;
    voc.define_word("sub", Word::new(WordImplementation::Primitive(PrimitiveWord::Sub)))?;
    voc.define_word("mul", Word::new(WordImplementation::Primitive(PrimitiveWord::Mul)))?;
    voc.define_word("div", Word::new(WordImplementation::Primitive(PrimitiveWord::Div)))?;
    voc.define_word("mod", Word::new(WordImplementation::Primitive(PrimitiveWord::Mod)))?;
    proof {
        lemma_distinct_primitive_names();
    }
    Ok(())
}

/// The nine built-in word names are pairwise distinct: each pair differs in
/// length or in one of its first two characters.
proof fn lemma_distinct_primitive_names()
    ensures
        "drop"@.len() == 4,
        "swap"@.len() == 4,
        "dup"@.len() == 3,
        "rot"@.len() == 3,
        "add"@.len() == 3,
        "sub"@.len() == 3,
        "mul"@.len() == 3,
        "div"@.len() == 3,
        "mod"@.len() == 3,
        "drop"@[0] == 'd',
        "dup"@[0] == 'd',
        "div"@[0] == 'd',
        "swap"@[0] == 's',
        "sub"@[0] == 's',
        "rot"@[0] == 'r',
        "add"@[0] == 'a',
        "mul"@[0] == 'm',
        "mod"@[0] == 'm',
        "dup"@[1] == 'u',
        "div"@[1] == 'i',
        "mul"@[1] == 'u',
        "mod"@[1] == 'o',
        "drop"@[1] == 'r',
        "swap"@[1] == 'w',
{
    reveal_strlit("drop");
    reveal_strlit("dup");
    reveal_strlit("swap");
    reveal_strlit("rot");
    reveal_strlit("add");
    reveal_strlit("sub");
    reveal_strlit("mul");
    reveal_strlit("div");
    reveal_strlit("mod");
}

/// The registry state a fresh runtime starts in: exactly one vocabulary is
/// registered, the always-present "primitives" one, it is the whole search
/// order, its definitions are the nine built-in words, and every token
/// resolves to what `spec_initial_word` says.
pub open spec fn spec_initial_vocabularies(vs: Vocabularies) -> bool {
    &&& vs.spec_search_order() == seq!["primitives"@]
    &&& (vs.spec_vocabulary("primitives"@) matches Some(v) && v.spec_name() == "primitives"@
        && (forall|id: Seq<char>|
            v.spec_definitions(id) == match spec_initial_word(id) {
                Some(w) => Some(seq![w]),
                None => None::<Seq<Word>>,
            }))
    &&& forall|other: Seq<char>|
        other != "primitives"@ ==> vs.spec_vocabulary(other) is None
    &&& forall|t: Seq<char>| vs.spec_resolve(t) == spec_initial_word(t)
}

impl Runtime {
    /// A fresh runtime: an empty, growable store, and a vocabularies
    /// registry holding one active vocabulary, "primitives", with the nine
    /// built-in words.
    pub fn new() -> (rt: Runtime)
        ensures
            rt.store@ == Seq::<Object>::empty(),
            rt.store.cap() == Option::<usize>::None,
            spec_initial_vocabularies(rt.vocabularies),
    {
        let store = Store::new();
        let mut primitives = Vocabulary::new_named("primitives");
        let _populated = populate_primitive_words(&mut primitives);
        let mut vocabularies = Vocabularies::new();
        let ghost primitives_snapshot = primitives;
        vocabularies.register(primitives);
        let _activated = vocabularies.activate("primitives");
        proof {
            assert(vocabularies.spec_search_order() =~= seq!["primitives"@]);
            assert(vocabularies.spec_vocabulary("primitives"@) == Some(primitives_snapshot));
            assert(primitives_snapshot.spec_name() == "primitives"@);
            assert forall|other: Seq<char>|
                other != "primitives"@ implies vocabularies.spec_vocabulary(other) is None by {
            }
            assert forall|t: Seq<char>|
                vocabularies.spec_resolve(t) == spec_initial_word(t) by {
                assert(vocabularies.spec_vocabulary("primitives"@) == Some(primitives_snapshot));
                match spec_initial_word(t) {
                    Some(w) => {
                        assert(primitives_snapshot.spec_definitions(t) == Some(seq![w]));
                        assert(crate::vocabulary::spec_last_visible(seq![w]) == Some(w));
                        assert(vocabularies.spec_resolve_from(t, 0) == Some(w));
                    },
                    None => {
                        assert(primitives_snapshot.spec_definitions(t) is None);
                        assert(vocabularies.spec_resolve_from(t, 1) is None);
                        assert(vocabularies.spec_resolve_from(t, 0) is None);
                    },
                }
            }
        }
        Runtime { store, vocabularies }
    }

    /// Feeds one token to the runtime. The token is resolved against the
    /// active search order; a primitive word runs against the store, a
    /// reserved word kind is reported as not supported, and an unresolved
    /// token falls back to literal parsing — unsigned integer, then signed
    /// integer, then float — whose result is pushed. When nothing applies,
    /// the call fails with `NoWordsByName` carrying the token, and in every
    /// failing case the store is left exactly as it was.
    pub fn feed_word(&mut self, written: &str) -> (r: Result<(), RuntimeError>)
        ensures
            final(self).vocabularies == old(self).vocabularies,
            final(self).store.cap() == old(self).store.cap(),
            match old(self).vocabularies.spec_resolve(written@) {
                Some(w) => match w.implementation {
                    WordImplementation::Primitive(p) => ({
                        match spec_run_primitive(old(self).store, p) {
                            Ok(s2) => ({
                                &&& r == Ok::<(), RuntimeError>(())
                                &&& final(self).store@ == s2
                            }),
                            Err(e) => ({
                                &&& r == Err::<(), RuntimeError>(e)
                                &&& final(self).store@ == old(self).store@
                            }),
                        }
                    }),
                    _ => ({
                        &&& r == Err::<(), RuntimeError>(
                            RuntimeError::InternalError(InternalError::WordKindNotSupported),
                        )
                        &&& final(self).store@ == old(self).store@
                    }),
                },
                None => match spec_parse_literal(written@) {
                    Some(obj) => ({
                        if old(self).store.spec_can_push() {
                            &&& r == Ok::<(), RuntimeError>(())
                            &&& final(self).store@ == old(self).store@.push(obj)
                        } else {
                            &&& r == Err::<(), RuntimeError>(RuntimeError::StackOverflow)
                            &&& final(self).store@ == old(self).store@
                        }
                    }),
                    None => ({
                        &&& final(self).store@ == old(self).store@
                        &&& r matches Err(RuntimeError::NoWordsByName(t)) && t@ == written@
                    }),
                },
            },
    {
        let token: String = written.to_owned();
        match self.vocabularies.resolve(&token) {
            Some(word) => match &word.implementation {
                WordImplementation::Primitive(p) => {
                    let prim = *p;
                    run_primitive(&mut self.store, prim)
                },
                _ => Err(RuntimeError::InternalError(InternalError::WordKindNotSupported)),
            },
            None => match parse_literal(written) {
                Some(obj) => match self.store.push(obj) {
                    Ok(_) => Ok(()),
                    Err(e) => Err(e),
                },
                None => Err(RuntimeError::NoWordsByName(token)),
            },
        }
    }
}

impl Default for Runtime {
    /// Identical to `Runtime::new`.
    fn default() -> (rt: Runtime)
        ensures
            rt.store@ == Seq::<Object>::empty(),
            rt.store.cap() == Option::<usize>::None,
            spec_initial_vocabularies(rt.vocabularies),
    {
        Runtime::new()
    }
}

} // verus!
