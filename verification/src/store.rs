//! The operand stack: an ordered sequence of shared handles to immutable
//! objects. Every operation that needs N items checks the depth before any
//! mutation, so a failed operation leaves the stack exactly as it was.

use vstd::prelude::*;

use crate::object::Object;
use crate::runtime_error::RuntimeError;
use std::rc::Rc;

verus! {

/// A shared-ownership handle to an immutable [`Object`]. Several stack slots
/// may hold handles to the same object (created by `dup`); the object is
/// dropped only when its last holder is removed.
pub type StoredObject = Rc<Object>;

/// How many slots a fresh store pre-allocates.
pub const DEFAULT_STORE_CAPACITY: usize = 4096;

/// Another handle to the object behind `h`: `Rc::clone` shares the
/// allocation rather than copying the object.
pub(crate) fn clone_stored(h: &StoredObject) -> (r: StoredObject)
    ensures
        *r == **h,
{
    Rc::clone(h)
}

/// The object a handle points to, copied out.
pub(crate) fn stored_object(h: &StoredObject) -> (r: Object)
    ensures
        r == **h,
{
    **h
}

/// The operand stack. Its view is the sequence of objects behind its slots,
/// bottom first; the top of the stack is the last element of the view.
///
/// Capacity is a configuration option: a store is growable by default, and
/// an optional hard ceiling turns a too-deep push into `StackOverflow`.
pub struct Store {
    slots: Vec<StoredObject>,
    max_depth: Option<usize>,
}

impl View for Store {
    type V = Seq<Object>;

    closed spec fn view(&self) -> Seq<Object> {
        self.slots@.map_values(|h: StoredObject| *h)
    }
}

/// The top two elements exchanged; everything below stays put.
pub open spec fn spec_swapped(s: Seq<Object>) -> Seq<Object>
    recommends
        s.len() >= 2,
{
    s.update(s.len() - 2, s.last()).update(s.len() - 1, s[s.len() - 2])
}

/// The third-from-top element moved to the top, the two above it shifted
/// down one place, their relative order kept.
pub open spec fn spec_rotted(s: Seq<Object>) -> Seq<Object>
    recommends
        s.len() >= 3,
{
    s.update(s.len() - 3, s[s.len() - 2]).update(s.len() - 2, s.last()).update(
        s.len() - 1,
        s[s.len() - 3],
    )
}

impl Store {
    /// The configured hard depth ceiling, if any.
    pub closed spec fn cap(&self) -> Option<usize> {
        self.max_depth
    }

    /// Whether one more push fits under the configured ceiling.
    pub open spec fn spec_can_push(&self) -> bool {
        self.cap() matches Some(m) ==> self@.len() < m
    }

    #[verifier::type_invariant]
    spec fn depth_within_cap(self) -> bool {
        self.max_depth matches Some(m) ==> self.slots@.len() <= m
    }

    /// A growable store with the default pre-allocation and no hard ceiling.
    pub fn new() -> (s: Store)
        ensures
            s@ == Seq::<Object>::empty(),
            s.cap() == Option::<usize>::None,
    {
        Store { slots: Vec::with_capacity(DEFAULT_STORE_CAPACITY), max_depth: None }
    }

    /// A store that refuses, with `StackOverflow`, any push beyond
    /// `max_depth` items.
    pub fn with_max_depth(max_depth: usize) -> (s: Store)
        ensures
            s@ == Seq::<Object>::empty(),
            s.cap() == Some(max_depth),
    {
        Store { slots: Vec::new(), max_depth: Some(max_depth) }
    }

    /// The current depth. It never exceeds a configured maximum: every
    /// operation that grows the stack checks the ceiling first.
    pub fn len(&self) -> (n: usize)
        ensures
            n == self@.len(),
            self.cap() matches Some(m) ==> n <= m,
    {
        proof {
            use_type_invariant(&*self);
        }
        self.slots.len()
    }

    /// Wraps `item` in a fresh shared handle, appends it at the top, and
    /// returns another handle to it. Fails with `StackOverflow`, leaving the
    /// stack unchanged, when a hard ceiling is configured and reached.
    pub fn push(&mut self, item: Object) -> (r: Result<StoredObject, RuntimeError>)
        ensures
            final(self).cap() == old(self).cap(),
            old(self).spec_can_push() ==> ({
                &&& r matches Ok(h) && *h == item
                &&& final(self)@ == old(self)@.push(item)
            }),
            !old(self).spec_can_push() ==> ({
                &&& r == Err::<StoredObject, RuntimeError>(RuntimeError::StackOverflow)
                &&& final(self)@ == old(self)@
            }),
    {
        self.push_boxed(Rc::new(item))
    }

    /// Appends an existing shared handle at the top without cloning the
    /// object behind it, and returns another handle to the same object.
    /// Fails with `StackOverflow` exactly as `push` does.
    pub fn push_boxed(&mut self, item: StoredObject) -> (r: Result<StoredObject, RuntimeError>)
        ensures
            final(self).cap() == old(self).cap(),
            old(self).spec_can_push() ==> ({
                &&& r matches Ok(h) && *h == *item
                &&& final(self)@ == old(self)@.push(*item)
            }),
            !old(self).spec_can_push() ==> ({
                &&& r == Err::<StoredObject, RuntimeError>(RuntimeError::StackOverflow)
                &&& final(self)@ == old(self)@
            }),
    {
        proof {
            use_type_invariant(&*self);
        }
        if let Some(m) = self.max_depth {
            if self.slots.len() >= m {
                return Err(RuntimeError::StackOverflow);
            }
        }
        let out = clone_stored(&item);
        let ghost old_slots = self.slots@;
        let mut slots: Vec<StoredObject> = Vec::new();
        core::mem::swap(&mut slots, &mut self.slots);
        slots.push(item);
        core::mem::swap(&mut slots, &mut self.slots);
        proof {
            assert(self@ =~= old_slots.map_values(|h: StoredObject| *h).push(*item));
        }
        Ok(out)
    }

    /// Removes and returns the top handle; `StackUnderflow` on an empty
    /// stack.
    pub fn pop(&mut self) -> (r: Result<StoredObject, RuntimeError>)
        ensures
            final(self).cap() == old(self).cap(),
            old(self)@.len() == 0 ==> ({
                &&& r == Err::<StoredObject, RuntimeError>(RuntimeError::StackUnderflow)
                &&& final(self)@ == old(self)@
            }),
            old(self)@.len() > 0 ==> ({
                &&& r matches Ok(h) && *h == old(self)@.last()
                &&& final(self)@ == old(self)@.drop_last()
            }),
    {
        proof {
            use_type_invariant(&*self);
        }
        let ghost old_slots = self.slots@;
        let mut slots: Vec<StoredObject> = Vec::new();
        core::mem::swap(&mut slots, &mut self.slots);
        let popped = slots.pop();
        core::mem::swap(&mut slots, &mut self.slots);
        match popped {
            Some(h) => {
                proof {
                    assert(self@ =~= old_slots.map_values(
                        |x: StoredObject| *x,
                    ).drop_last());
                }
                Ok(h)
            },
            None => Err(RuntimeError::StackUnderflow),
        }
    }

    /// A handle to the top object, without removing it.
    pub fn peek(&self) -> (r: Result<StoredObject, RuntimeError>)
        ensures
            self@.len() == 0 ==> r == Err::<StoredObject, RuntimeError>(
                RuntimeError::StackUnderflow,
            ),
            self@.len() > 0 ==> (r matches Ok(h) && *h == self@.last()),
    {
        self.npeek(0)
    }

    /// A handle to the nth object from the top (0 is the top), without
    /// removing it; `StackUnderflow` when `n` is not less than the depth.
    pub fn npeek(&self, n: usize) -> (r: Result<StoredObject, RuntimeError>)
        ensures
            n >= self@.len() ==> r == Err::<StoredObject, RuntimeError>(
                RuntimeError::StackUnderflow,
            ),
            n < self@.len() ==> (r matches Ok(h) && *h == self@[self@.len() - 1 - n]),
    {
        let depth = self.slots.len();
        if n >= depth {
            Err(RuntimeError::StackUnderflow)
        } else {
            Ok(clone_stored(&self.slots[depth - 1 - n]))
        }
    }

    /// Pushes a new handle aliasing the top object — the object itself is
    /// not copied — and returns a handle to it. `StackUnderflow` on an empty
    /// stack; `StackOverflow` as `push`.
    pub fn dup(&mut self) -> (r: Result<StoredObject, RuntimeError>)
        ensures
            final(self).cap() == old(self).cap(),
            old(self)@.len() == 0 ==> ({
                &&& r == Err::<StoredObject, RuntimeError>(RuntimeError::StackUnderflow)
                &&& final(self)@ == old(self)@
            }),
            old(self)@.len() > 0 && !old(self).spec_can_push() ==> ({
                &&& r == Err::<StoredObject, RuntimeError>(RuntimeError::StackOverflow)
                &&& final(self)@ == old(self)@
            }),
            old(self)@.len() > 0 && old(self).spec_can_push() ==> ({
                &&& r matches Ok(h) && *h == old(self)@.last()
                &&& final(self)@ == old(self)@.push(old(self)@.last())
            }),
    {
        let depth = self.slots.len();
        if depth == 0 {
            return Err(RuntimeError::StackUnderflow);
        }
        let aliased = clone_stored(&self.slots[depth - 1]);
        self.push_boxed(aliased)
    }

    /// Exchanges the top two handles and returns handles to the now-second
    /// and now-top objects, in that order. `StackUnderflow` below depth 2.
    pub fn swap(&mut self) -> (r: Result<(StoredObject, StoredObject), RuntimeError>)
        ensures
            final(self).cap() == old(self).cap(),
            old(self)@.len() < 2 ==> ({
                &&& r == Err::<(StoredObject, StoredObject), RuntimeError>(
                    RuntimeError::StackUnderflow,
                )
                &&& final(self)@ == old(self)@
            }),
            old(self)@.len() >= 2 ==> ({
                &&& r matches Ok(pair)
                &&& *pair.0 == old(self)@.last()
                &&& *pair.1 == old(self)@[old(self)@.len() - 2]
                &&& final(self)@ == spec_swapped(old(self)@)
            }),
    {
        proof {
            use_type_invariant(&*self);
        }
        if self.slots.len() < 2 {
            return Err(RuntimeError::StackUnderflow);
        }
        let old_top = match self.pop() {
            Ok(h) => h,
            Err(e) => {
                return Err(e);
            },
        };
        let old_second = match self.pop() {
            Ok(h) => h,
            Err(e) => {
                return Err(e);
            },
        };
        let now_second = clone_stored(&old_top);
        let now_top = clone_stored(&old_second);
        let _r1 = self.push_boxed(old_top);
        let _r2 = self.push_boxed(old_second);
        proof {
            assert(final(self)@ =~= spec_swapped(old(self)@));
        }
        Ok((now_second, now_top))
    }

    /// Moves the third-from-top handle to the top, shifting the two above it
    /// down one place, and returns handles to the now-third, now-second and
    /// now-top objects, in that order. `StackUnderflow` below depth 3.
    pub fn rot(&mut self) -> (r: Result<
        (StoredObject, StoredObject, StoredObject),
        RuntimeError,
    >)
        ensures
            final(self).cap() == old(self).cap(),
            old(self)@.len() < 3 ==> ({
                &&& r == Err::<(StoredObject, StoredObject, StoredObject), RuntimeError>(
                    RuntimeError::StackUnderflow,
                )
                &&& final(self)@ == old(self)@
            }),
            old(self)@.len() >= 3 ==> ({
                &&& r matches Ok(triple)
                &&& *triple.0 == old(self)@[old(self)@.len() - 2]
                &&& *triple.1 == old(self)@.last()
                &&& *triple.2 == old(self)@[old(self)@.len() - 3]
                &&& final(self)@ == spec_rotted(old(self)@)
            }),
    {
        proof {
            use_type_invariant(&*self);
        }
        if self.slots.len() < 3 {
            return Err(RuntimeError::StackUnderflow);
        }
        let old_top = match self.pop() {
            Ok(h) => h,
            Err(e) => {
                return Err(e);
            },
        };
        let old_second = match self.pop() {
            Ok(h) => h,
            Err(e) => {
                return Err(e);
            },
        };
        let old_third = match self.pop() {
            Ok(h) => h,
            Err(e) => {
                return Err(e);
            },
        };
        let now_third = clone_stored(&old_second);
        let now_second = clone_stored(&old_top);
        let now_top = clone_stored(&old_third);
        let _r1 = self.push_boxed(old_second);
        let _r2 = self.push_boxed(old_top);
        let _r3 = self.push_boxed(old_third);
        proof {
            assert(final(self)@ =~= spec_rotted(old(self)@));
        }
        Ok((now_third, now_second, now_top))
    }
}

impl Default for Store {
    /// A growable store with the default pre-allocation and no hard ceiling.
    fn default() -> (s: Store)
        ensures
            s@ == Seq::<Object>::empty(),
            s.cap() == Option::<usize>::None,
    {
        Store::new()
    }
}

} // verus!
