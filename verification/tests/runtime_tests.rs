//! The runtime exercised through `feed_word`, with direct access to its
//! store, as the interpreter's REPL drives it.

use std::rc::Rc;

use gluumy::Object;
use gluumy::Runtime;
use gluumy::RuntimeError;
use gluumy::Store;
use gluumy::StoredObject;

fn assert_store_empty(store: &Store) {
    assert_eq!(store.len(), 0);
}

fn push_uint_to_stack(store: &mut Store, val: u64) -> Result<StoredObject, RuntimeError> {
    store.push(Object::UnsignedInt(val))
}

fn push_int_to_stack(store: &mut Store, val: i64) -> Result<StoredObject, RuntimeError> {
    store.push(Object::SignedInt(val))
}

fn push_f64_to_stack(store: &mut Store, val: f64) -> Result<StoredObject, RuntimeError> {
    store.push(Object::Float64(val.to_bits()))
}

#[test]
fn test_swap() -> Result<(), RuntimeError> {
    let mut runtime = Runtime::default();

    assert_store_empty(&runtime.store);

    push_uint_to_stack(&mut runtime.store, 1)?;
    push_uint_to_stack(&mut runtime.store, 2)?;
    runtime.feed_word("swap")?;
    assert_eq!(
        Rc::try_unwrap(runtime.store.pop()?),
        Ok(Object::UnsignedInt(1)),
    );
    assert_eq!(
        Rc::try_unwrap(runtime.store.pop()?),
        Ok(Object::UnsignedInt(2)),
    );

    Ok(())
}

#[test]
fn test_dup() -> Result<(), RuntimeError> {
    let mut runtime = Runtime::default();

    assert_store_empty(&runtime.store);

    push_uint_to_stack(&mut runtime.store, 1)?;
    runtime.feed_word("dup")?;
    let top = runtime.store.pop()?;
    let second = runtime.store.pop()?;

    // dup always shares memory: the two handles point at the same object,
    // not at two equal copies.
    assert!(Rc::ptr_eq(&top, &second));

    // now we know we can safely just discard the top entry: using
    // try_unwrap on this to pattern match the underlying object would
    // fail anyway since the strong_count is > 1
    drop(top);

    assert_eq!(Rc::strong_count(&second), 1);
    assert_eq!(Rc::try_unwrap(second), Ok(Object::UnsignedInt(1)));

    Ok(())
}

#[test]
fn test_drop() -> Result<(), RuntimeError> {
    let mut runtime = Runtime::default();

    assert_store_empty(&runtime.store);
    push_uint_to_stack(&mut runtime.store, 1)?;
    runtime.feed_word("drop")?;
    assert_store_empty(&runtime.store);

    Ok(())
}

#[test]
fn test_mul_underflow() -> Result<(), RuntimeError> {
    let mut runtime = Runtime::default();
    assert_eq!(
        runtime.feed_word("mul"),
        Err(RuntimeError::StackUnderflow),
    );
    push_uint_to_stack(&mut runtime.store, 1)?;
    assert_eq!(
        runtime.feed_word("mul"),
        Err(RuntimeError::StackUnderflow),
    );
    Ok(())
}

#[test]
fn test_mul_uints() -> Result<(), RuntimeError> {
    let mut runtime = Runtime::default();

    push_uint_to_stack(&mut runtime.store, 2)?;
    push_uint_to_stack(&mut runtime.store, 2)?;
    runtime.feed_word("mul")?;

    assert_eq!(
        Rc::try_unwrap(runtime.store.pop()?),
        Ok(Object::UnsignedInt(4)),
    );

    assert_store_empty(&runtime.store);

    Ok(())
}

#[test]
fn test_mul_iints() -> Result<(), RuntimeError> {
    let mut runtime = Runtime::default();

    push_int_to_stack(&mut runtime.store, 2)?;
    push_int_to_stack(&mut runtime.store, 2)?;
    runtime.feed_word("mul")?;

    assert_eq!(
        Rc::try_unwrap(runtime.store.pop()?),
        Ok(Object::SignedInt(4)),
    );

    assert_store_empty(&runtime.store);

    Ok(())
}

#[test]
fn test_mul_floats() -> Result<(), RuntimeError> {
    let mut runtime = Runtime::default();

    push_f64_to_stack(&mut runtime.store, 2.0)?;
    push_f64_to_stack(&mut runtime.store, 2.0)?;
    runtime.feed_word("mul")?;

    assert_eq!(
        Rc::try_unwrap(runtime.store.pop()?),
        Ok(Object::Float64(4.0f64.to_bits()))
    );

    assert_store_empty(&runtime.store);

    Ok(())
}

#[test]
fn end_to_end_two_two_mul() -> Result<(), RuntimeError> {
    let mut runtime = Runtime::default();

    runtime.feed_word("2")?;
    runtime.feed_word("2")?;
    runtime.feed_word("mul")?;

    assert_eq!(runtime.store.len(), 1);
    assert_eq!(
        Rc::try_unwrap(runtime.store.pop()?),
        Ok(Object::UnsignedInt(4)),
    );
    Ok(())
}

#[test]
fn literal_fallback_ordering() -> Result<(), RuntimeError> {
    let mut runtime = Runtime::default();

    runtime.feed_word("42")?;
    assert_eq!(
        Rc::try_unwrap(runtime.store.pop()?),
        Ok(Object::UnsignedInt(42)),
    );

    runtime.feed_word("-3")?;
    assert_eq!(
        Rc::try_unwrap(runtime.store.pop()?),
        Ok(Object::SignedInt(-3)),
    );

    runtime.feed_word("3.5")?;
    assert_eq!(
        Rc::try_unwrap(runtime.store.pop()?),
        Ok(Object::Float64(3.5f64.to_bits())),
    );

    assert_eq!(
        runtime.feed_word("abc"),
        Err(RuntimeError::NoWordsByName("abc".to_string())),
    );
    assert_store_empty(&runtime.store);

    Ok(())
}

#[test]
fn literal_edge_values() -> Result<(), RuntimeError> {
    let mut runtime = Runtime::default();

    runtime.feed_word("+7")?;
    assert_eq!(
        Rc::try_unwrap(runtime.store.pop()?),
        Ok(Object::UnsignedInt(7)),
    );

    runtime.feed_word("18446744073709551615")?;
    assert_eq!(
        Rc::try_unwrap(runtime.store.pop()?),
        Ok(Object::UnsignedInt(u64::MAX)),
    );

    runtime.feed_word("-9223372036854775808")?;
    assert_eq!(
        Rc::try_unwrap(runtime.store.pop()?),
        Ok(Object::SignedInt(i64::MIN)),
    );

    // One past u64::MAX is no integer literal any more; the float fallback
    // takes it.
    runtime.feed_word("18446744073709551616")?;
    assert_eq!(
        Rc::try_unwrap(runtime.store.pop()?),
        Ok(Object::Float64(18446744073709551616.0f64.to_bits())),
    );

    assert_eq!(
        runtime.feed_word(""),
        Err(RuntimeError::NoWordsByName(String::new())),
    );

    Ok(())
}

#[test]
fn float_literal_grammar() -> Result<(), RuntimeError> {
    let mut runtime = Runtime::default();

    runtime.feed_word("1e3")?;
    assert_eq!(
        Rc::try_unwrap(runtime.store.pop()?),
        Ok(Object::Float64(1000.0f64.to_bits())),
    );

    runtime.feed_word("-2.5e-1")?;
    assert_eq!(
        Rc::try_unwrap(runtime.store.pop()?),
        Ok(Object::Float64((-0.25f64).to_bits())),
    );

    runtime.feed_word(".5")?;
    assert_eq!(
        Rc::try_unwrap(runtime.store.pop()?),
        Ok(Object::Float64(0.5f64.to_bits())),
    );

    runtime.feed_word("5.")?;
    assert_eq!(
        Rc::try_unwrap(runtime.store.pop()?),
        Ok(Object::Float64(5.0f64.to_bits())),
    );

    // The named special values parse, in any case mix and with a sign, to
    // their fixed bit patterns.
    runtime.feed_word("inf")?;
    assert_eq!(
        Rc::try_unwrap(runtime.store.pop()?),
        Ok(Object::Float64(f64::INFINITY.to_bits())),
    );
    runtime.feed_word("-Inf")?;
    assert_eq!(
        Rc::try_unwrap(runtime.store.pop()?),
        Ok(Object::Float64(f64::NEG_INFINITY.to_bits())),
    );
    runtime.feed_word("INFINITY")?;
    assert_eq!(
        Rc::try_unwrap(runtime.store.pop()?),
        Ok(Object::Float64(0x7ff0_0000_0000_0000)),
    );
    runtime.feed_word("NaN")?;
    assert_eq!(
        Rc::try_unwrap(runtime.store.pop()?),
        Ok(Object::Float64(0x7ff8_0000_0000_0000)),
    );
    runtime.feed_word("-nan")?;
    assert_eq!(
        Rc::try_unwrap(runtime.store.pop()?),
        Ok(Object::Float64(0xfff8_0000_0000_0000)),
    );

    // Hexadecimal forms, payload forms and malformed numbers are no
    // literals and fall through to word resolution.
    for token in ["0x1p1", "NaN(0x1)", "3.14.15", "1e", ".", "infin"] {
        assert_eq!(
            runtime.feed_word(token),
            Err(RuntimeError::NoWordsByName(token.to_string())),
        );
    }
    assert_store_empty(&runtime.store);

    Ok(())
}

#[test]
fn feed_div_by_zero() -> Result<(), RuntimeError> {
    let mut runtime = Runtime::default();

    runtime.feed_word("4")?;
    runtime.feed_word("0")?;
    assert_eq!(runtime.feed_word("div"), Err(RuntimeError::DivisionByZero));
    // The failed word left both operands in place.
    assert_eq!(runtime.store.len(), 2);
    Ok(())
}

#[test]
fn feed_sub_underflow_keeps_stack() -> Result<(), RuntimeError> {
    let mut runtime = Runtime::default();

    runtime.feed_word("2")?;
    runtime.feed_word("3")?;
    assert_eq!(
        runtime.feed_word("sub"),
        Err(RuntimeError::ArithmeticUnderflow),
    );
    assert_eq!(runtime.store.len(), 2);
    assert_eq!(
        Rc::try_unwrap(runtime.store.pop()?),
        Ok(Object::UnsignedInt(3)),
    );
    Ok(())
}

#[test]
fn feed_signed_division_truncates() -> Result<(), RuntimeError> {
    let mut runtime = Runtime::default();

    runtime.feed_word("-7")?;
    runtime.feed_word("2")?;
    // -7 and 2 have different integer kinds: no coercion is defined.
    assert_eq!(runtime.feed_word("div"), Err(RuntimeError::IncompatibleTypes));

    runtime.store.pop()?;
    runtime.store.pop()?;
    push_int_to_stack(&mut runtime.store, -7)?;
    push_int_to_stack(&mut runtime.store, 2)?;
    runtime.feed_word("div")?;
    assert_eq!(
        Rc::try_unwrap(runtime.store.pop()?),
        Ok(Object::SignedInt(-3)),
    );

    push_int_to_stack(&mut runtime.store, i64::MIN)?;
    push_int_to_stack(&mut runtime.store, -1)?;
    runtime.feed_word("div")?;
    assert_eq!(
        Rc::try_unwrap(runtime.store.pop()?),
        Ok(Object::SignedInt(i64::MIN)),
    );
    Ok(())
}

#[test]
fn feed_modulo() -> Result<(), RuntimeError> {
    let mut runtime = Runtime::default();

    runtime.feed_word("7")?;
    runtime.feed_word("3")?;
    runtime.feed_word("mod")?;
    assert_eq!(
        Rc::try_unwrap(runtime.store.pop()?),
        Ok(Object::UnsignedInt(1)),
    );

    runtime.feed_word("7")?;
    runtime.feed_word("0")?;
    assert_eq!(runtime.feed_word("mod"), Err(RuntimeError::DivisionByZero));
    Ok(())
}

#[test]
fn feed_add_uints_and_iints() -> Result<(), RuntimeError> {
    let mut runtime = Runtime::default();

    runtime.feed_word("2")?;
    runtime.feed_word("3")?;
    runtime.feed_word("add")?;
    assert_eq!(
        Rc::try_unwrap(runtime.store.pop()?),
        Ok(Object::UnsignedInt(5)),
    );

    push_int_to_stack(&mut runtime.store, 2)?;
    push_int_to_stack(&mut runtime.store, -5)?;
    runtime.feed_word("add")?;
    assert_eq!(
        Rc::try_unwrap(runtime.store.pop()?),
        Ok(Object::SignedInt(-3)),
    );

    push_uint_to_stack(&mut runtime.store, 1)?;
    push_int_to_stack(&mut runtime.store, 1)?;
    assert_eq!(runtime.feed_word("add"), Err(RuntimeError::IncompatibleTypes));
    assert_eq!(runtime.store.len(), 2);
    Ok(())
}

#[test]
fn feed_float_arithmetic() -> Result<(), RuntimeError> {
    let mut runtime = Runtime::default();

    runtime.feed_word("3.5")?;
    runtime.feed_word("0.5")?;
    runtime.feed_word("add")?;
    runtime.feed_word("2.0")?;
    runtime.feed_word("div")?;
    assert_eq!(
        Rc::try_unwrap(runtime.store.pop()?),
        Ok(Object::Float64(2.0f64.to_bits())),
    );

    runtime.feed_word("1.5")?;
    runtime.feed_word("0.25")?;
    runtime.feed_word("sub")?;
    assert_eq!(
        Rc::try_unwrap(runtime.store.pop()?),
        Ok(Object::Float64(1.25f64.to_bits())),
    );
    Ok(())
}

#[test]
fn feed_rot_moves_third_to_top() -> Result<(), RuntimeError> {
    let mut runtime = Runtime::default();

    runtime.feed_word("1")?;
    runtime.feed_word("2")?;
    runtime.feed_word("3")?;
    runtime.feed_word("rot")?;
    // Before: (a=1, b=2, c=3 on top); after: (b, c, a) with a on top.
    assert_eq!(
        Rc::try_unwrap(runtime.store.pop()?),
        Ok(Object::UnsignedInt(1)),
    );
    assert_eq!(
        Rc::try_unwrap(runtime.store.pop()?),
        Ok(Object::UnsignedInt(3)),
    );
    assert_eq!(
        Rc::try_unwrap(runtime.store.pop()?),
        Ok(Object::UnsignedInt(2)),
    );
    Ok(())
}
