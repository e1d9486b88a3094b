//! Accessors: typed views of the data of a buffer view, element by
//! element.

use vstd::prelude::*;
use vstd::slice::slice_subrange;
use std::marker::PhantomData;
use crate::gltf::element::{element_size, Element, Vec2, Vec3};
use crate::gltf::info::{AccessorId, AccessorInfo, TextureCoordId};
use crate::gltf::scene::{Gltf, Primitive};
use crate::gltf::valid::accessor_ok;

verus! {

/// An accessor of a glTF file whose elements are of type `T`.
pub struct Accessor<'a, T: Element> {
    gltf: &'a Gltf,
    id: AccessorId,
    marker: PhantomData<T>,
}

impl<'a, T: Element> Accessor<'a, T> {
    #[verifier::type_invariant]
    spec fn inv(&self) -> bool {
        &&& self.id < self.gltf@.accessors@.len()
        &&& self.gltf@.accessors@[self.id as int].ty == T::element_type_spec()
    }

    /// The file that the accessor belongs to.
    pub closed spec fn gltf(&self) -> &'a Gltf {
        self.gltf
    }

    /// The identifier of the accessor.
    pub closed spec fn id(&self) -> AccessorId {
        self.id
    }

    /// What the file says of the accessor.
    pub open spec fn spec_info(&self) -> AccessorInfo {
        self.gltf()@.accessors@[self.id() as int]
    }

    /// What the file says of the accessor.
    pub fn info(&self) -> (info: &'a AccessorInfo)
        ensures
            self.id() < self.gltf()@.accessors@.len(),
            *info == self.spec_info(),
            info.ty == T::element_type_spec(),
    {
        proof {
            use_type_invariant(self);
        }
        &self.gltf.info().accessors[self.id as usize]
    }

    /// The size of one element, in bytes.
    pub open spec fn size(&self) -> int {
        element_size(T::element_type_spec(), self.spec_info().component_type)
    }

    /// The bytes of the buffer view of the accessor, if it names one whose
    /// data is there.
    pub open spec fn data(&self) -> Option<Seq<u8>> {
        match self.spec_info().buffer_view {
            Some(view) => self.gltf().view_data(view as int),
            None => None,
        }
    }

    /// The distance in bytes from one element to the next: the stride of
    /// the buffer view, or the size of an element where it has none.
    pub open spec fn stride(&self) -> int {
        match self.spec_info().buffer_view {
            Some(view) => match self.gltf()@.buffer_views@[view as int].byte_stride {
                Some(stride) => stride as int,
                None => self.size(),
            },
            None => self.size(),
        }
    }

    /// The place of the element `k` in the data of the buffer view.
    pub open spec fn position(&self, k: int) -> int {
        self.spec_info().byte_offset + k * self.stride()
    }

    /// The elements of the accessor can be read: its components are of a
    /// type that `T` is read from, the data of its buffer view is there,
    /// and all its elements lie within that data.
    pub open spec fn readable(&self) -> bool {
        &&& T::readable(self.spec_info().component_type)
        &&& self.data() is Some
        &&& self.spec_info().count > 0 ==> self.position(self.spec_info().count - 1) + self.size()
            <= self.data()->0.len()
    }

    /// The bytes of the element `k`.
    pub open spec fn element_bytes(&self, k: int) -> Seq<u8> {
        self.data()->0.subrange(self.position(k), self.position(k) + self.size())
    }

    /// A walk over the elements of the accessor, in their order, or `None`
    /// where they cannot be read.
    pub fn elements(&self) -> (elements: Option<Elements<'a, T>>)
        ensures
            match elements {
                Some(walk) => self.readable() && walk.accessor() == *self && walk.done() == 0,
                None => !self.readable(),
            },
    {
        let info = self.info();
        let ty = info.component_type;
        if !T::can_read(ty) {
            return None;
        }
        let gltf_info = self.gltf.info();
        assert(accessor_ok(*info, gltf_info.buffer_views@.len() as int));
        let view = match info.buffer_view {
            Some(view) => view,
            None => {
                return None;
            },
        };
        let (data, view_stride) = match self.gltf.buffer_view(view) {
            Some(found) => found,
            None => {
                return None;
            },
        };
        let components = T::element_type().num_components();
        let width = ty.size();
        assert(components * width <= 64) by (nonlinear_arith)
            requires
                components <= 16,
                width <= 4,
        ;
        let size: usize = components * width;
        let stride: u64 = match view_stride {
            Some(stride) => stride,
            None => size as u64,
        };
        let count = info.count;
        if count > 0 {
            assert((count - 1) * stride <= 0xffff_ffff_ffff_ffff * 0xffff_ffff_ffff_ffff)
                by (nonlinear_arith)
                requires
                    0 <= count - 1 <= 0xffff_ffff_ffff_ffff,
                    0 <= stride <= 0xffff_ffff_ffff_ffff,
            ;
            let last: u128 = info.byte_offset as u128 + (count - 1) as u128 * (stride as u128)
                + size as u128;
            if last > data.len() as u128 {
                return None;
            }
        }
        Some(Elements { accessor: *self, data, stride, size, done: 0 })
    }
}

impl<'a, T: Element> Clone for Accessor<'a, T> {
    fn clone(&self) -> (copy: Self)
        ensures
            copy == *self,
    {
        *self
    }
}

impl<'a, T: Element> Copy for Accessor<'a, T> {

}

/// A walk over the elements of an accessor: each step reads the next
/// element from its place in the data of the buffer view.
pub struct Elements<'a, T: Element> {
    accessor: Accessor<'a, T>,
    data: &'a [u8],
    stride: u64,
    size: usize,
    done: u64,
}

impl<'a, T: Element> Elements<'a, T> {
    #[verifier::type_invariant]
    spec fn inv(&self) -> bool {
        &&& self.accessor.readable()
        &&& self.accessor.data() == Some(self.data@)
        &&& self.stride == self.accessor.stride()
        &&& self.size == self.accessor.size()
        &&& self.done <= self.accessor.spec_info().count
    }

    /// The accessor whose elements are read.
    pub closed spec fn accessor(&self) -> Accessor<'a, T> {
        self.accessor
    }

    /// The number of elements that have been read.
    pub closed spec fn done(&self) -> u64 {
        self.done
    }

    /// The number of elements that are left to read.
    pub fn remaining(&self) -> (left: u64)
        ensures
            left == self.accessor().spec_info().count - self.done(),
    {
        proof {
            use_type_invariant(self);
        }
        self.accessor.info().count - self.done
    }

    /// Reads the next element, or returns `None` where all have been read.
    pub fn next(&mut self) -> (element: Option<T>)
        ensures
            final(self).accessor() == old(self).accessor(),
            match element {
                Some(value) => {
                    &&& old(self).done() < old(self).accessor().spec_info().count
                    &&& final(self).done() == old(self).done() + 1
                    &&& T::is_reading(
                        old(self).accessor().spec_info().component_type,
                        old(self).accessor().element_bytes(old(self).done() as int),
                        value,
                    )
                },
                None => {
                    &&& old(self).done() == old(self).accessor().spec_info().count
                    &&& final(self).done() == old(self).done()
                },
            },
    {
        proof {
            use_type_invariant(&*self);
        }
        let info = self.accessor.info();
        let count = info.count;
        let k = self.done;
        if k >= count {
            return None;
        }
        let len = self.data.len();
        assert(k * self.stride <= (count - 1) * self.stride) by (nonlinear_arith)
            requires
                0 <= k <= count - 1,
                0 <= self.stride,
        ;
        let at: usize = (info.byte_offset + k * self.stride) as usize;
        let value = T::read(
            info.component_type,
            info.normalized,
            slice_subrange(self.data, at, at + self.size),
        );
        self.done = k + 1;
        Some(value)
    }
}

impl Gltf {
    /// The accessor `id` with elements of type `T`, or `None` where the
    /// file has no such accessor or its elements are of another type.
    pub fn accessor<T: Element>(&self, id: AccessorId) -> (accessor: Option<Accessor<'_, T>>)
        ensures
            match accessor {
                Some(a) => a.gltf() == self && a.id() == id && id < self@.accessors@.len()
                    && self@.accessors@[id as int].ty == T::element_type_spec(),
                None => !(id < self@.accessors@.len() && self@.accessors@[id as int].ty
                    == T::element_type_spec()),
            },
    {
        let info = self.info();
        if (id as u64) < (info.accessors.len() as u64) {
            if info.accessors[id as usize].ty == T::element_type() {
                return Some(Accessor { gltf: self, id, marker: PhantomData });
            }
        }
        None
    }
}

/// The accessor that `id` names in `gltf`, with elements of type `T`, where
/// there is such a one.
pub open spec fn accessor_at<T: Element>(gltf: &Gltf, id: Option<AccessorId>) -> Option<
    AccessorId,
> {
    match id {
        Some(i) => if i < gltf@.accessors@.len() && gltf@.accessors@[i as int].ty
            == T::element_type_spec() {
            Some(i)
        } else {
            None
        },
        None => None,
    }
}

/// The accessor `accessor` is the one that `id` names in `gltf`.
pub open spec fn is_accessor_at<T: Element>(
    accessor: Option<Accessor<'_, T>>,
    gltf: &Gltf,
    id: Option<AccessorId>,
) -> bool {
    match accessor {
        Some(a) => a.gltf() == gltf && accessor_at::<T>(gltf, id) == Some(a.id()),
        None => accessor_at::<T>(gltf, id) is None,
    }
}

/// The accessor that `id` names in `gltf`, if it names one with elements of
/// type `T`.
fn accessor_of<'a, T: Element>(gltf: &'a Gltf, id: Option<AccessorId>) -> (accessor: Option<
    Accessor<'a, T>,
>)
    ensures
        is_accessor_at(accessor, gltf, id),
{
    match id {
        Some(i) => gltf.accessor(i),
        None => None,
    }
}

impl<'a> Primitive<'a> {
    /// The accessor for the position data of the primitive, if it has one.
    pub fn position(&self) -> (accessor: Option<Accessor<'a, Vec3>>)
        ensures
            is_accessor_at(accessor, self.gltf(), self.spec_info().attributes.position),
    {
        accessor_of(self.file(), self.info().attributes.position)
    }

    /// The accessor for the normal data of the primitive, if it has one.
    pub fn normal(&self) -> (accessor: Option<Accessor<'a, Vec3>>)
        ensures
            is_accessor_at(accessor, self.gltf(), self.spec_info().attributes.normal),
    {
        accessor_of(self.file(), self.info().attributes.normal)
    }

    /// The accessor for the texture coordinates of the set `id`, if the
    /// primitive has that set.
    pub fn tex_coord(&self, id: TextureCoordId) -> (accessor: Option<Accessor<'a, Vec2>>)
        ensures
            is_accessor_at(
                accessor,
                self.gltf(),
                if id == 0 {
                    self.spec_info().attributes.tex_coord_0
                } else {
                    None
                },
            ),
    {
        accessor_of(self.file(), self.info().attributes.tex_coord(id))
    }

    /// The accessor for the indices of the primitive, if it has any.
    pub fn indices(&self) -> (accessor: Option<Accessor<'a, u32>>)
        ensures
            is_accessor_at(accessor, self.gltf(), self.spec_info().indices),
    {
        accessor_of(self.file(), self.info().indices)
    }
}

} // verus!
