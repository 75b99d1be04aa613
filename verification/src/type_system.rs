//! Shape signatures: the declaration side of the (still stub) static type
//! system. A signature names a shape; a subshape is derived from a shape
//! and numbered within it.

use vstd::prelude::*;

verus! {

/// A shape's identity: its shape number, its position among its parent's
/// subshapes (if it is one), and its name. The signature also remembers the
/// last subshape number it handed out.
#[derive(Clone, Debug, PartialEq)]
pub struct TypeSignature {
    pub shape_id: usize,
    pub subshape_id: Option<usize>,
    pub name: String,
    last_subshape_id: Option<usize>,
}

impl TypeSignature {
    /// The shape number.
    pub closed spec fn spec_shape_id(&self) -> usize {
        self.shape_id
    }

    /// The subshape number, when this signature is itself a subshape.
    pub closed spec fn spec_subshape_id(&self) -> Option<usize> {
        self.subshape_id
    }

    /// The signature's name.
    pub closed spec fn spec_name(&self) -> Seq<char> {
        self.name@
    }

    /// The last subshape number handed out, if any.
    pub closed spec fn spec_last_subshape_id(&self) -> Option<usize> {
        self.last_subshape_id
    }

    /// A fresh top-level shape signature with the given number and name.
    pub fn new_shape(shape_id: usize, name: String) -> (s: TypeSignature)
        ensures
            s.spec_shape_id() == shape_id,
            s.spec_subshape_id() == Option::<usize>::None,
            s.spec_name() == name@,
            s.spec_last_subshape_id() == Option::<usize>::None,
    {
        TypeSignature { shape_id, subshape_id: None, name, last_subshape_id: None }
    }

    /// The next subshape number: one past the last handed out, starting at
    /// zero.
    fn next_subshape_id(&mut self) -> (n: usize)
        requires
            old(self).spec_last_subshape_id() matches Some(v) ==> v < usize::MAX,
        ensures
            n == match old(self).spec_last_subshape_id() {
                Some(v) => v + 1,
                None => 0,
            },
            final(self).spec_last_subshape_id() == Some(n),
            final(self).spec_shape_id() == old(self).spec_shape_id(),
            final(self).spec_subshape_id() == old(self).spec_subshape_id(),
            final(self).spec_name() == old(self).spec_name(),
    {
        let next = match self.last_subshape_id {
            Some(v) => v + 1,
            None => 0,
        };
        self.last_subshape_id = Some(next);
        next
    }

    /// Derives a subshape of this shape, numbered after the ones already
    /// derived. A subshape cannot itself have subshapes: deriving from one
    /// is refused.
    pub fn new_subshape(&mut self, name: String) -> (r: Result<TypeSignature, String>)
        requires
            old(self).spec_last_subshape_id() matches Some(v) ==> v < usize::MAX,
        ensures
            old(self).spec_subshape_id() is Some ==> ({
                &&& r matches Err(e) && e@ == "can't create subshape of a subshape"@
                &&& *final(self) == *old(self)
            }),
            old(self).spec_subshape_id() is None ==> ({
                &&& r matches Ok(sub)
                &&& sub.spec_shape_id() == old(self).spec_shape_id()
                &&& sub.spec_subshape_id() == Some(
                    match old(self).spec_last_subshape_id() {
                        Some(v) => (v + 1) as usize,
                        None => 0usize,
                    },
                )
                &&& sub.spec_name() == name@
                &&& sub.spec_last_subshape_id() == Option::<usize>::None
                &&& final(self).spec_last_subshape_id() == sub.spec_subshape_id()
                &&& final(self).spec_shape_id() == old(self).spec_shape_id()
                &&& final(self).spec_subshape_id() == old(self).spec_subshape_id()
                &&& final(self).spec_name() == old(self).spec_name()
            }),
    {
        match self.subshape_id {
            Some(_) => Err("can't create subshape of a subshape".to_owned()),
            None => {
                let next = self.next_subshape_id();
                Ok(
                    TypeSignature {
                        name,
                        shape_id: self.shape_id,
                        subshape_id: Some(next),
                        last_subshape_id: None,
                    },
                )
            },
        }
    }
}

} // verus!
