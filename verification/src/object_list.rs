//! A list of serialized objects walked with an internal cursor.
//!
//! The list keeps the raw bytes and parses objects out of them on
//! demand, so only one object is materialized at a time — the pattern a
//! stack-constrained device needs for long transaction bodies.

use vstd::prelude::*;
use core::marker::PhantomData;
use crate::from_bytes::FromBytes;

verus! {

/// A validated list of serialized objects.
///
/// Construction parses every object once, so the bytes are known to
/// decode; the cursor then walks them again object by object.
pub struct ObjectList<Obj> {
    data: Vec<u8>,
    read: usize,
    phantom: PhantomData<Obj>,
}

impl<Obj: FromBytes> ObjectList<Obj> {
    /// The serialized bytes of the whole list.
    pub closed spec fn spec_data(self) -> Seq<u8> {
        self.data@
    }

    /// The cursor: how many bytes of the list were consumed.
    pub closed spec fn spec_read(self) -> nat {
        self.read as nat
    }

    /// The cursor stays within the data.
    pub open spec fn inv(self) -> bool {
        self.spec_read() <= self.spec_data().len()
    }

    /// Parse `num_objs` objects out of the front of `input`; on success
    /// the list holds exactly the consumed prefix, with the cursor at
    /// its start, and the number of consumed bytes is returned.
    pub fn new(input: &[u8], num_objs: usize) -> (r: Result<(ObjectList<Obj>, usize), Obj::Error>)
        ensures
            r matches Ok(p) ==> ({
                &&& p.1 <= input@.len()
                &&& p.0.spec_data() == input@.take(p.1 as int)
                &&& p.0.spec_read() == 0
                &&& p.0.inv()
            }),
    {
        proof {
            assert(input@.len() <= usize::MAX) by {
                assert(input@.len() == input.len());
            }
        }
        let mut consumed: usize = 0;
        let mut k: usize = 0;
        while k < num_objs
            invariant
                consumed <= input@.len(),
                input@.len() <= usize::MAX,
            decreases num_objs - k,
        {
            let (used, _obj) = match Obj::from_bytes(slice_suffix(input, consumed)) {
                Ok(p) => p,
                Err(e) => {
                    return Err(e);
                },
            };
            consumed = consumed + used;
            k = k + 1;
        }
        let mut data: Vec<u8> = Vec::new();
        let mut i: usize = 0;
        while i < consumed
            invariant
                i <= consumed <= input@.len(),
                data@ == input@.take(i as int),
            decreases consumed - i,
        {
            data.push(input[i]);
            i += 1;
            proof {
                assert(input@.take(i - 1 as int).push(input@[i - 1]) =~= input@.take(i as int));
            }
        }
        Ok((ObjectList { data, read: 0, phantom: PhantomData }, consumed))
    }

    /// Parse the object under the cursor without moving it.
    ///
    /// `None` at the end of the list, or if the bytes no longer decode
    /// (possible only with a nondeterministic parser).
    fn parse_into(&self) -> (r: Option<(usize, Obj)>)
        requires
            self.inv(),
        ensures
            r matches Some(p) ==> self.spec_read() < p.0 <= self.spec_data().len(),
            self.spec_read() == self.spec_data().len() ==> r is None,
    {
        if self.read >= self.data.len() {
            return None;
        }
        match Obj::from_bytes(slice_suffix(self.data.as_slice(), self.read)) {
            Ok((used, obj)) => Some((self.read + used, obj)),
            Err(_) => None,
        }
    }

    /// Parse the next object and move the cursor past it; `None` at the
    /// end of the list.
    pub fn parse_next(&mut self) -> (r: Option<Obj>)
        requires
            old(self).inv(),
        ensures
            final(self).inv(),
            final(self).spec_data() == old(self).spec_data(),
            r is Some ==> old(self).spec_read() < final(self).spec_read(),
            r is None ==> *final(self) == *old(self),
            old(self).spec_read() == old(self).spec_data().len() ==> r is None,
    {
        match self.parse_into() {
            Some((read, obj)) => {
                self.read = read;
                Some(obj)
            },
            None => None,
        }
    }

    /// Parse the next object without moving the cursor; `None` at the
    /// end of the list.
    pub fn peek_next(&mut self) -> (r: Option<Obj>)
        requires
            old(self).inv(),
        ensures
            *final(self) == *old(self),
            old(self).spec_read() == old(self).spec_data().len() ==> r is None,
    {
        match self.parse_into() {
            Some((_, obj)) => Some(obj),
            None => None,
        }
    }

    /// The cursor position.
    pub fn data_index(&self) -> (r: usize)
        ensures
            r == self.spec_read(),
    {
        self.read
    }

    /// Move the cursor; the start of the list is always safe, anywhere
    /// inside an object renders further reading impossible.
    pub fn set_data_index(&mut self, read: usize)
        requires
            read <= old(self).spec_data().len(),
        ensures
            final(self).spec_data() == old(self).spec_data(),
            final(self).spec_read() == read,
            final(self).inv(),
    {
        self.read = read;
    }
}

/// The suffix of a slice from `from` on.
fn slice_suffix<'a>(s: &'a [u8], from: usize) -> (r: &'a [u8])
    requires
        from <= s@.len(),
    ensures
        r@ == s@.skip(from as int),
{
    vstd::slice::slice_subrange(s, from, s.len())
}

} // verus!
