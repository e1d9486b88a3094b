//! The elements of accessors: the values that the bytes of a buffer stand
//! for. Bytes are read as the machine stores numbers, through the
//! `bytemuck` crate.

use vstd::prelude::*;
use vstd::slice::slice_subrange;
use crate::gltf::glb::le_u32;
use crate::gltf::info::{ComponentType, ElementType, Scalar};

verus! {

/// The number that two bytes at `at` hold, the lower byte first.
pub open spec fn le_u16(bytes: Seq<u8>, at: int) -> int {
    bytes[at] + 0x100 * bytes[at + 1]
}

/// The number that two bytes at `at` hold, the higher byte first.
pub open spec fn be_u16(bytes: Seq<u8>, at: int) -> int {
    0x100 * bytes[at] + bytes[at + 1]
}

/// The number that four bytes at `at` hold, the highest byte first.
pub open spec fn be_u32(bytes: Seq<u8>, at: int) -> int {
    0x100_0000 * bytes[at] + 0x1_0000 * bytes[at + 1] + 0x100 * bytes[at + 2] + bytes[at + 3]
}

/// `value` is what two bytes at `at` hold in one of the two byte orders
/// that a machine can have.
pub open spec fn native_u16(bytes: Seq<u8>, at: int, value: u16) -> bool {
    value == le_u16(bytes, at) || value == be_u16(bytes, at)
}

/// `value` is what four bytes at `at` hold in one of the two byte orders
/// that a machine can have.
pub open spec fn native_u32(bytes: Seq<u8>, at: int, value: u32) -> bool {
    value == le_u32(bytes, at) || value == be_u32(bytes, at)
}

/// `bytemuck::pod_read_unaligned` at the type `u16`: the two bytes taken as
/// a number in the byte order of the machine, which is one of the two
/// orders. The call panics on any other number of bytes.
#[verifier::external_body]
fn pod_read_u16(bytes: &[u8]) -> (value: u16)
    requires
        bytes@.len() == 2,
    ensures
        native_u16(bytes@, 0, value),
{
    bytemuck::pod_read_unaligned::<u16>(bytes)
}

/// `bytemuck::pod_read_unaligned` at the type `u32`: the four bytes taken
/// as a number in the byte order of the machine, which is one of the two
/// orders. The call panics on any other number of bytes.
#[verifier::external_body]
fn pod_read_u32(bytes: &[u8]) -> (value: u32)
    requires
        bytes@.len() == 4,
    ensures
        native_u32(bytes@, 0, value),
{
    bytemuck::pod_read_unaligned::<u32>(bytes)
}

/// Reads the number that four bytes at `at` hold on this machine.
fn read_native_u32(data: &[u8], at: usize) -> (value: u32)
    requires
        at + 4 <= data@.len(),
    ensures
        native_u32(data@, at as int, value),
{
    let len = data.len();
    let value = pod_read_u32(slice_subrange(data, at, at + 4));
    proof {
        let part = data@.subrange(at as int, at + 4);
        assert(part[0] == data@[at as int]);
        assert(part[1] == data@[at + 1]);
        assert(part[2] == data@[at + 2]);
        assert(part[3] == data@[at + 3]);
    }
    value
}

/// The size in bytes of an element of type `element` whose components are
/// of type `component`.
pub open spec fn element_size(element: ElementType, component: ComponentType) -> int {
    element.num_components() * component.size()
}

/// A type which can be used as an element in an accessor.
pub trait Element: Copy {
    /// The element type of this type.
    spec fn element_type_spec() -> ElementType;

    /// Whether an element of this type can be read from components of type
    /// `ty`.
    spec fn readable(ty: ComponentType) -> bool;

    /// `value` is what the first bytes of `data` stand for where the
    /// components are of type `ty`.
    spec fn is_reading(ty: ComponentType, data: Seq<u8>, value: Self) -> bool;

    /// The element type of this type.
    fn element_type() -> (ty: ElementType)
        ensures
            ty == Self::element_type_spec(),
    ;

    /// Whether an element of this type can be read from components of type
    /// `ty`.
    fn can_read(ty: ComponentType) -> (can: bool)
        ensures
            can == Self::readable(ty),
    ;

    /// Reads an element of this type from the first bytes of `data`, given
    /// that it is encoded with component type `ty`. `data` may exceed the
    /// size of the element.
    fn read(ty: ComponentType, normalized: bool, data: &[u8]) -> (value: Self)
        requires
            Self::readable(ty),
            data@.len() >= element_size(Self::element_type_spec(), ty),
        ensures
            Self::is_reading(ty, data@, value),
    ;
}

impl Element for u32 {
    open spec fn element_type_spec() -> ElementType {
        ElementType::Scalar
    }

    open spec fn readable(ty: ComponentType) -> bool {
        ty == ComponentType::Byte || ty == ComponentType::UnsignedShort || ty
            == ComponentType::UnsignedInt
    }

    open spec fn is_reading(ty: ComponentType, data: Seq<u8>, value: u32) -> bool {
        match ty {
            ComponentType::Byte => value == data[0],
            ComponentType::UnsignedShort => value <= u16::MAX && native_u16(data, 0, value as u16),
            ComponentType::UnsignedInt => native_u32(data, 0, value),
            _ => false,
        }
    }

    fn element_type() -> (ty: ElementType) {
        ElementType::Scalar
    }

    fn can_read(ty: ComponentType) -> (can: bool) {
        match ty {
            ComponentType::Byte | ComponentType::UnsignedShort | ComponentType::UnsignedInt => true,
            _ => false,
        }
    }

    fn read(ty: ComponentType, normalized: bool, data: &[u8]) -> (value: u32) {
        assert(element_size(ElementType::Scalar, ty) == ty.size());
        match ty {
            ComponentType::Byte => data[0] as u32,
            ComponentType::UnsignedShort => {
                let value = pod_read_u16(slice_subrange(data, 0, 2));
                proof {
                    let part = data@.subrange(0, 2);
                    assert(part[0] == data@[0]);
                    assert(part[1] == data@[1]);
                }
                value as u32
            },
            _ => read_native_u32(data, 0),
        }
    }
}

/// Two single-precision numbers, kept by their bits.
#[derive(Debug, Clone, Copy)]
pub struct Vec2 {
    pub bits: [Scalar; 2],
}

/// Three single-precision numbers, kept by their bits.
#[derive(Debug, Clone, Copy)]
pub struct Vec3 {
    pub bits: [Scalar; 3],
}

impl Element for Vec2 {
    open spec fn element_type_spec() -> ElementType {
        ElementType::Vector2
    }

    open spec fn readable(ty: ComponentType) -> bool {
        ty == ComponentType::Float
    }

    open spec fn is_reading(ty: ComponentType, data: Seq<u8>, value: Vec2) -> bool {
        &&& ty == ComponentType::Float
        &&& native_u32(data, 0, value.bits[0])
        &&& native_u32(data, 4, value.bits[1])
    }

    fn element_type() -> (ty: ElementType) {
        ElementType::Vector2
    }

    fn can_read(ty: ComponentType) -> (can: bool) {
        match ty {
            ComponentType::Float => true,
            _ => false,
        }
    }

    fn read(ty: ComponentType, normalized: bool, data: &[u8]) -> (value: Vec2) {
        assert(element_size(ElementType::Vector2, ty) == 8);
        let x = read_native_u32(data, 0);
        let y = read_native_u32(data, 4);
        Vec2 { bits: [x, y] }
    }
}

impl Element for Vec3 {
    open spec fn element_type_spec() -> ElementType {
        ElementType::Vector3
    }

    open spec fn readable(ty: ComponentType) -> bool {
        ty == ComponentType::Float
    }

    open spec fn is_reading(ty: ComponentType, data: Seq<u8>, value: Vec3) -> bool {
        &&& ty == ComponentType::Float
        &&& native_u32(data, 0, value.bits[0])
        &&& native_u32(data, 4, value.bits[1])
        &&& native_u32(data, 8, value.bits[2])
    }

    fn element_type() -> (ty: ElementType) {
        ElementType::Vector3
    }

    fn can_read(ty: ComponentType) -> (can: bool) {
        match ty {
            ComponentType::Float => true,
            _ => false,
        }
    }

    fn read(ty: ComponentType, normalized: bool, data: &[u8]) -> (value: Vec3) {
        assert(element_size(ElementType::Vector3, ty) == 12);
        let x = read_native_u32(data, 0);
        let y = read_native_u32(data, 4);
        let z = read_native_u32(data, 8);
        Vec3 { bits: [x, y, z] }
    }
}

} // verus!
