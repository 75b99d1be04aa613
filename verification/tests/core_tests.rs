//! The store, the object model and the vocabularies exercised directly,
//! against the properties their contracts state.

use std::rc::Rc;

use gluumy::InternalError;
use gluumy::Object;
use gluumy::PrimitiveWord;
use gluumy::Runtime;
use gluumy::RuntimeError;
use gluumy::Store;
use gluumy::TypeSignature;
use gluumy::Vocabulary;
use gluumy::Word;
use gluumy::WordImplementation;

#[test]
fn push_pop_round_trip_all_kinds() -> Result<(), RuntimeError> {
    let samples = [
        Object::Boolean(true),
        Object::UnsignedInt(7),
        Object::SignedInt(-7),
        Object::Float32(1.5f32.to_bits()),
        Object::Float64(2.25f64.to_bits()),
    ];
    let mut store = Store::new();
    for sample in samples {
        store.push(sample)?;
        assert_eq!(store.len(), 1);
        assert_eq!(Rc::try_unwrap(store.pop()?), Ok(sample));
        assert_eq!(store.len(), 0);
    }
    Ok(())
}

#[test]
fn swap_twice_restores_order() -> Result<(), RuntimeError> {
    let mut store = Store::new();
    store.push(Object::UnsignedInt(10))?;
    store.push(Object::UnsignedInt(20))?;
    store.push(Object::UnsignedInt(30))?;
    store.swap()?;
    store.swap()?;
    assert_eq!(Rc::try_unwrap(store.pop()?), Ok(Object::UnsignedInt(30)));
    assert_eq!(Rc::try_unwrap(store.pop()?), Ok(Object::UnsignedInt(20)));
    assert_eq!(Rc::try_unwrap(store.pop()?), Ok(Object::UnsignedInt(10)));
    Ok(())
}

#[test]
fn rot_orbit_is_three() -> Result<(), RuntimeError> {
    let mut store = Store::new();
    store.push(Object::UnsignedInt(1))?;
    store.push(Object::UnsignedInt(2))?;
    store.push(Object::UnsignedInt(3))?;
    store.rot()?;
    store.rot()?;
    store.rot()?;
    assert_eq!(Rc::try_unwrap(store.pop()?), Ok(Object::UnsignedInt(3)));
    assert_eq!(Rc::try_unwrap(store.pop()?), Ok(Object::UnsignedInt(2)));
    assert_eq!(Rc::try_unwrap(store.pop()?), Ok(Object::UnsignedInt(1)));
    Ok(())
}

#[test]
fn rot_returns_new_top_three() -> Result<(), RuntimeError> {
    let mut store = Store::new();
    store.push(Object::UnsignedInt(1))?;
    store.push(Object::UnsignedInt(2))?;
    store.push(Object::UnsignedInt(3))?;
    let (third, second, top) = store.rot()?;
    assert_eq!(*third, Object::UnsignedInt(2));
    assert_eq!(*second, Object::UnsignedInt(3));
    assert_eq!(*top, Object::UnsignedInt(1));
    Ok(())
}

#[test]
fn swap_returns_new_top_two() -> Result<(), RuntimeError> {
    let mut store = Store::new();
    store.push(Object::UnsignedInt(1))?;
    store.push(Object::UnsignedInt(2))?;
    let (second, top) = store.swap()?;
    assert_eq!(*second, Object::UnsignedInt(2));
    assert_eq!(*top, Object::UnsignedInt(1));
    Ok(())
}

#[test]
fn underflow_guard_leaves_depth() -> Result<(), RuntimeError> {
    let mut store = Store::new();

    assert_eq!(store.pop().unwrap_err(), RuntimeError::StackUnderflow);
    assert_eq!(store.dup().unwrap_err(), RuntimeError::StackUnderflow);
    assert_eq!(store.swap().unwrap_err(), RuntimeError::StackUnderflow);
    assert_eq!(store.rot().unwrap_err(), RuntimeError::StackUnderflow);
    assert_eq!(store.len(), 0);

    store.push(Object::UnsignedInt(1))?;
    assert_eq!(store.swap().unwrap_err(), RuntimeError::StackUnderflow);
    assert_eq!(store.rot().unwrap_err(), RuntimeError::StackUnderflow);
    assert_eq!(store.len(), 1);

    store.push(Object::UnsignedInt(2))?;
    assert_eq!(store.rot().unwrap_err(), RuntimeError::StackUnderflow);
    assert_eq!(store.len(), 2);
    Ok(())
}

#[test]
fn peek_does_not_remove() -> Result<(), RuntimeError> {
    let mut store = Store::new();
    store.push(Object::UnsignedInt(1))?;
    store.push(Object::UnsignedInt(2))?;
    assert_eq!(*store.peek()?, Object::UnsignedInt(2));
    assert_eq!(*store.npeek(1)?, Object::UnsignedInt(1));
    assert_eq!(store.npeek(2).unwrap_err(), RuntimeError::StackUnderflow);
    assert_eq!(store.len(), 2);
    Ok(())
}

#[test]
fn stack_overflow_at_max_depth() -> Result<(), RuntimeError> {
    let mut store = Store::with_max_depth(2);
    store.push(Object::UnsignedInt(1))?;
    store.push(Object::UnsignedInt(2))?;
    assert_eq!(
        store.push(Object::UnsignedInt(3)).unwrap_err(),
        RuntimeError::StackOverflow,
    );
    assert_eq!(store.len(), 2);
    assert_eq!(store.dup().unwrap_err(), RuntimeError::StackOverflow);
    assert_eq!(store.len(), 2);
    // Swapping does not grow the stack, so the ceiling does not stop it.
    store.swap()?;
    assert_eq!(*store.peek()?, Object::UnsignedInt(1));
    Ok(())
}

#[test]
fn add_mixed_float_widths_widens() {
    let l = Object::Float32(1.5f32.to_bits());
    let r = Object::Float64(0.25f64.to_bits());
    assert_eq!(l.add(&r), Ok(Object::Float64(1.75f64.to_bits())));
    assert_eq!(r.add(&l), Ok(Object::Float64(1.75f64.to_bits())));
}

#[test]
fn float32_pairs_compute_in_float32() {
    let l = Object::Float32(1.5f32.to_bits());
    let r = Object::Float32(0.25f32.to_bits());
    assert_eq!(l.add(&r), Ok(Object::Float32(1.75f32.to_bits())));
    assert_eq!(l.sub(&r), Ok(Object::Float32(1.25f32.to_bits())));
    assert_eq!(l.mul(&r), Ok(Object::Float32(0.375f32.to_bits())));
    assert_eq!(l.div(&r), Ok(Object::Float32(6.0f32.to_bits())));
}

#[test]
fn float32_remainder() {
    let l = Object::Float32(5.5f32.to_bits());
    let r = Object::Float32(2.0f32.to_bits());
    assert_eq!(l.modulo(&r), Ok(Object::Float32(1.5f32.to_bits())));
}

#[test]
fn float64_remainder() {
    let l = Object::Float64(5.5f64.to_bits());
    let r = Object::Float64(2.0f64.to_bits());
    assert_eq!(l.modulo(&r), Ok(Object::Float64(1.5f64.to_bits())));
}

#[test]
fn float_division_by_negative_zero_fails() {
    let l = Object::Float64(1.0f64.to_bits());
    let r = Object::Float64((-0.0f64).to_bits());
    assert_eq!(l.div(&r), Err(RuntimeError::DivisionByZero));
}

#[test]
fn boolean_arithmetic_is_incompatible() {
    let l = Object::Boolean(true);
    let r = Object::UnsignedInt(1);
    assert_eq!(l.add(&r), Err(RuntimeError::IncompatibleTypes));
    assert_eq!(r.mul(&l), Err(RuntimeError::IncompatibleTypes));
}

#[test]
fn integer_wrapping_arithmetic() {
    let max = Object::UnsignedInt(u64::MAX);
    let one = Object::UnsignedInt(1);
    assert_eq!(max.add(&one), Ok(Object::UnsignedInt(0)));

    let min = Object::SignedInt(i64::MIN);
    let neg = Object::SignedInt(-1);
    assert_eq!(min.sub(&neg), Ok(Object::SignedInt(i64::MIN + 1)));
    assert_eq!(
        Object::SignedInt(-7).modulo(&Object::SignedInt(2)),
        Ok(Object::SignedInt(-1)),
    );
}

#[test]
fn shadowing_second_definition_wins() -> Result<(), RuntimeError> {
    let mut runtime = Runtime::default();

    let mut user = Vocabulary::new_named("user");
    // First definition drops the top; its shadow duplicates it instead.
    user.define_word("inc", Word::new(WordImplementation::Primitive(PrimitiveWord::Drop)))?;
    user.define_word("inc", Word::new(WordImplementation::Primitive(PrimitiveWord::Dup)))?;
    runtime.vocabularies.register(user);
    runtime.vocabularies.activate("user")?;

    runtime.feed_word("1")?;
    runtime.feed_word("inc")?;
    // Only the second (most recent) definition ran: the stack grew.
    assert_eq!(runtime.store.len(), 2);
    Ok(())
}

#[test]
fn hidden_definitions_do_not_block() -> Result<(), RuntimeError> {
    let mut runtime = Runtime::default();

    // The user vocabulary shadows "drop" with a hidden definition; since
    // hidden definitions are invisible, resolution moves on to the
    // primitives vocabulary and the real "drop" still runs.
    let mut user = Vocabulary::new_named("user");
    let mut hidden = Word::new(WordImplementation::Primitive(PrimitiveWord::Dup));
    hidden.hidden = true;
    user.define_word("drop", hidden)?;
    runtime.vocabularies.register(user);
    runtime.vocabularies.activate("user")?;

    runtime.feed_word("1")?;
    runtime.feed_word("drop")?;
    assert_eq!(runtime.store.len(), 0);
    Ok(())
}

#[test]
fn deactivated_vocabulary_is_not_searched() -> Result<(), RuntimeError> {
    let mut runtime = Runtime::default();

    let mut user = Vocabulary::new_named("user");
    user.define_word("noop", Word::new(WordImplementation::Primitive(PrimitiveWord::Dup)))?;
    runtime.vocabularies.register(user);
    runtime.vocabularies.activate("user")?;
    runtime.feed_word("1")?;
    runtime.feed_word("noop")?;
    assert_eq!(runtime.store.len(), 2);

    runtime.vocabularies.deactivate("user");
    assert_eq!(
        runtime.feed_word("noop"),
        Err(RuntimeError::NoWordsByName("noop".to_string())),
    );
    Ok(())
}

#[test]
fn unknown_vocabulary_activation_fails() {
    let mut runtime = Runtime::default();
    assert_eq!(
        runtime.vocabularies.activate("nowhere"),
        Err(RuntimeError::InternalError(InternalError::UnknownVocabulary)),
    );
}

#[test]
fn vocabulary_capacity_is_enforced() -> Result<(), RuntimeError> {
    let mut runtime = Runtime::default();
    // "primitives" already occupies one slot of the 32.
    for i in 0..31 {
        let name = format!("user{}", i);
        runtime.vocabularies.register(Vocabulary::new_named(&name));
        runtime.vocabularies.activate(&name)?;
    }
    runtime.vocabularies.register(Vocabulary::new_named("overfull"));
    assert_eq!(
        runtime.vocabularies.activate("overfull"),
        Err(RuntimeError::VocabularyCapacityExceeded),
    );
    // Re-activating an already-active vocabulary is not an error.
    assert_eq!(runtime.vocabularies.activate("user3"), Ok(()));
    Ok(())
}

#[test]
fn reserved_word_kinds_are_reported() -> Result<(), RuntimeError> {
    let mut runtime = Runtime::default();

    let mut user = Vocabulary::new_named("user");
    user.define_word("later", Word::new(WordImplementation::Sequence(Vec::new())))?;
    user.define_word("five", Word::new(WordImplementation::Constant(Object::UnsignedInt(5))))?;
    runtime.vocabularies.register(user);
    runtime.vocabularies.activate("user")?;

    assert_eq!(
        runtime.feed_word("later"),
        Err(RuntimeError::InternalError(InternalError::WordKindNotSupported)),
    );
    assert_eq!(
        runtime.feed_word("five"),
        Err(RuntimeError::InternalError(InternalError::WordKindNotSupported)),
    );
    Ok(())
}

#[test]
fn subshape_numbering_starts_at_zero() {
    let mut shape = TypeSignature::new_shape(4, "Point".to_string());
    let first = shape.new_subshape("A".to_string()).unwrap();
    let second = shape.new_subshape("B".to_string()).unwrap();
    assert_eq!(first.shape_id, 4);
    assert_eq!(first.subshape_id, Some(0));
    assert_eq!(first.name, "A");
    assert_eq!(second.subshape_id, Some(1));
}

#[test]
fn subshape_of_subshape_is_refused() {
    let mut shape = TypeSignature::new_shape(1, "Outer".to_string());
    let mut sub = shape.new_subshape("Inner".to_string()).unwrap();
    assert_eq!(
        sub.new_subshape("Deeper".to_string()),
        Err("can't create subshape of a subshape".to_string()),
    );
}
