//! The contents of a glTF file, as the file states them.

use vstd::prelude::*;
use crate::path::same_text;

verus! {

/// Identifies a scene in a glTF file.
pub type SceneId = u32;

/// Identifies a node in a glTF file.
pub type NodeId = u32;

/// Identifies a mesh in a glTF file.
pub type MeshId = u32;

/// Identifies an accessor in a glTF file.
pub type AccessorId = u32;

/// Identifies a buffer view in a glTF file.
pub type BufferViewId = u32;

/// Identifies a buffer in a glTF file.
pub type BufferId = u32;

/// Identifies a material in a glTF file.
pub type MaterialId = u32;

/// Identifies a texture in a glTF file.
pub type TextureId = u32;

/// Identifies a set of texture coordinates in a glTF file.
pub type TextureCoordId = u32;

/// Identifies an image in a glTF file.
pub type ImageId = u32;

/// The bits of a single-precision number. Numbers of this kind are only
/// carried through, never computed with.
pub type Scalar = u32;

/// Describes the contents of a glTF file.
#[derive(Debug, Clone)]
pub struct GltfInfo {
    /// The default scene to display.
    pub scene: Option<SceneId>,
    /// The scenes defined in the file.
    pub scenes: Vec<SceneInfo>,
    /// The nodes defined in the file.
    pub nodes: Vec<NodeInfo>,
    /// The meshes defined in the file.
    pub meshes: Vec<MeshInfo>,
    /// The accessors defined in the file.
    pub accessors: Vec<AccessorInfo>,
    /// The buffer views defined in the file.
    pub buffer_views: Vec<BufferViewInfo>,
    /// The buffers defined in the file.
    pub buffers: Vec<BufferInfo>,
    /// The materials defined in the file.
    pub materials: Vec<MaterialInfo>,
    /// The textures defined in the file.
    pub textures: Vec<TextureInfo>,
    /// The images defined in the file.
    pub images: Vec<ImageInfo>,
}

/// Describes a scene in a glTF file.
#[derive(Debug, Clone)]
pub struct SceneInfo {
    /// The name of the scene.
    pub name: Option<String>,
    /// The nodes in the scene.
    pub nodes: Vec<NodeId>,
}

/// Describes a node in a glTF file.
#[derive(Debug, Clone)]
pub struct NodeInfo {
    /// The name of the node.
    pub name: Option<String>,
    /// The translation component of the node's transform.
    pub translation: Option<[Scalar; 3]>,
    /// The rotation component of the node's transform.
    pub rotation: Option<[Scalar; 4]>,
    /// The scale component of the node's transform.
    pub scale: Option<[Scalar; 3]>,
    /// The matrix component of the node's transform.
    pub matrix: Option<[Scalar; 16]>,
    /// The children of this node.
    pub children: Vec<NodeId>,
    /// The mesh displayed by this node.
    pub mesh: Option<MeshId>,
}

/// Describes a mesh in a glTF file.
#[derive(Debug, Clone)]
pub struct MeshInfo {
    /// The name of the mesh.
    pub name: Option<String>,
    /// The primitives which make up the mesh.
    pub primitives: Vec<PrimitiveInfo>,
}

/// Describes a primitive of a mesh.
#[derive(Debug, Clone)]
pub struct PrimitiveInfo {
    /// The attribute accessors of the primitive.
    pub attributes: AttributeMap,
    /// The indices accessor of the primitive.
    pub indices: Option<AccessorId>,
    /// The material applied to this primitive.
    pub material: Option<MaterialId>,
    /// The type of topology used by this primitive.
    pub mode: PrimitiveMode,
}

/// The attributes of a primitive.
#[derive(Debug, Clone, Copy)]
pub struct AttributeMap {
    /// The accessor for position data.
    pub position: Option<AccessorId>,
    /// The accessor for normal data.
    pub normal: Option<AccessorId>,
    /// The accessor for tangent data.
    pub tangent: Option<AccessorId>,
    /// The accessor for the first set of texture coordinates.
    pub tex_coord_0: Option<AccessorId>,
}

/// The attributes that a file can give a primitive.
#[derive(Debug, Clone, Copy, PartialEq, Eq, Structural)]
pub enum Attribute {
    Position,
    Normal,
    Tangent,
    TexCoord0,
}

/// The attribute that the key `key` of a file stands for, if it is one that
/// is kept.
pub open spec fn attribute_of_key(key: Seq<char>) -> Option<Attribute> {
    if key == "POSITION"@ {
        Some(Attribute::Position)
    } else if key == "NORMAL"@ {
        Some(Attribute::Normal)
    } else if key == "TANGENT"@ {
        Some(Attribute::Tangent)
    } else if key == "TEXCOORD_0"@ {
        Some(Attribute::TexCoord0)
    } else {
        None
    }
}

impl Attribute {
    /// The attribute that the key `key` of a file stands for, if it is one
    /// that is kept.
    pub fn from_key(key: &str) -> (attribute: Option<Attribute>)
        ensures
            attribute == attribute_of_key(key@),
    {
        if same_text(key, "POSITION") {
            Some(Attribute::Position)
        } else if same_text(key, "NORMAL") {
            Some(Attribute::Normal)
        } else if same_text(key, "TANGENT") {
            Some(Attribute::Tangent)
        } else if same_text(key, "TEXCOORD_0") {
            Some(Attribute::TexCoord0)
        } else {
            None
        }
    }
}

impl AttributeMap {
    /// The map that holds no accessor.
    pub open spec fn empty() -> AttributeMap {
        AttributeMap { position: None, normal: None, tangent: None, tex_coord_0: None }
    }

    /// The map that holds no accessor.
    pub fn new() -> (map: Self)
        ensures
            map == AttributeMap::empty(),
    {
        AttributeMap { position: None, normal: None, tangent: None, tex_coord_0: None }
    }

    /// The map with the accessor of one attribute replaced.
    pub open spec fn with(self, attribute: Attribute, accessor: AccessorId) -> AttributeMap {
        match attribute {
            Attribute::Position => AttributeMap { position: Some(accessor), ..self },
            Attribute::Normal => AttributeMap { normal: Some(accessor), ..self },
            Attribute::Tangent => AttributeMap { tangent: Some(accessor), ..self },
            Attribute::TexCoord0 => AttributeMap { tex_coord_0: Some(accessor), ..self },
        }
    }

    /// Records the entry `key: accessor` of a file's attribute object. A
    /// key that stands for no attribute kept here is passed over, and a key
    /// that comes again replaces what it gave before. Tells whether the
    /// entry was kept.
    pub fn insert(&mut self, key: &str, accessor: AccessorId) -> (kept: bool)
        ensures
            kept == attribute_of_key(key@).is_some(),
            match attribute_of_key(key@) {
                Some(attribute) => *final(self) == old(self).with(attribute, accessor),
                None => *final(self) == *old(self),
            },
    {
        match Attribute::from_key(key) {
            Some(Attribute::Position) => {
                self.position = Some(accessor);
                true
            },
            Some(Attribute::Normal) => {
                self.normal = Some(accessor);
                true
            },
            Some(Attribute::Tangent) => {
                self.tangent = Some(accessor);
                true
            },
            Some(Attribute::TexCoord0) => {
                self.tex_coord_0 = Some(accessor);
                true
            },
            None => false,
        }
    }

    /// The accessor of the texture coordinate set `id`: the first set is
    /// set 0, and no other set is kept.
    pub fn tex_coord(&self, id: TextureCoordId) -> (accessor: Option<AccessorId>)
        ensures
            accessor == (if id == 0 {
                self.tex_coord_0
            } else {
                None
            }),
    {
        if id == 0 {
            self.tex_coord_0
        } else {
            None
        }
    }
}

impl Default for AttributeMap {
    fn default() -> (map: Self)
        ensures
            map == AttributeMap::empty(),
    {
        AttributeMap::new()
    }
}

/// The type of topology used by a primitive.
#[derive(Debug, Clone, Copy, PartialEq, Eq, Structural)]
pub enum PrimitiveMode {
    Points,
    Lines,
    LineLoop,
    LineStrip,
    Triangles,
    TriangleStrip,
    TriangleFan,
}

impl PrimitiveMode {
    /// The number that stands for the mode in a file.
    pub open spec fn spec_index(self) -> u32 {
        match self {
            PrimitiveMode::Points => 0,
            PrimitiveMode::Lines => 1,
            PrimitiveMode::LineLoop => 2,
            PrimitiveMode::LineStrip => 3,
            PrimitiveMode::Triangles => 4,
            PrimitiveMode::TriangleStrip => 5,
            PrimitiveMode::TriangleFan => 6,
        }
    }

    /// The number that stands for the mode in a file.
    #[verifier::when_used_as_spec(spec_index)]
    pub fn index(self) -> (index: u32)
        ensures
            index == self.spec_index(),
    {
        match self {
            PrimitiveMode::Points => 0,
            PrimitiveMode::Lines => 1,
            PrimitiveMode::LineLoop => 2,
            PrimitiveMode::LineStrip => 3,
            PrimitiveMode::Triangles => 4,
            PrimitiveMode::TriangleStrip => 5,
            PrimitiveMode::TriangleFan => 6,
        }
    }

    /// The mode that the number `index` stands for in a file: the one with
    /// that number, and none for a number above 6.
    pub fn from_index(index: u32) -> (mode: Option<PrimitiveMode>)
        ensures
            index <= 6 <==> mode.is_some(),
            mode matches Some(m) ==> m.index() == index,
    {
        if index == 0 {
            Some(PrimitiveMode::Points)
        } else if index == 1 {
            Some(PrimitiveMode::Lines)
        } else if index == 2 {
            Some(PrimitiveMode::LineLoop)
        } else if index == 3 {
            Some(PrimitiveMode::LineStrip)
        } else if index == 4 {
            Some(PrimitiveMode::Triangles)
        } else if index == 5 {
            Some(PrimitiveMode::TriangleStrip)
        } else if index == 6 {
            Some(PrimitiveMode::TriangleFan)
        } else {
            None
        }
    }
}

impl Default for PrimitiveMode {
    fn default() -> (mode: Self)
        ensures
            mode == PrimitiveMode::Triangles,
    {
        PrimitiveMode::Triangles
    }
}

/// Describes an accessor in a glTF file.
#[derive(Debug, Clone)]
pub struct AccessorInfo {
    /// The buffer view containing the data.
    pub buffer_view: Option<BufferViewId>,
    /// The byte offset into the buffer view.
    pub byte_offset: u64,
    /// The type of components in the accessor.
    pub component_type: ComponentType,
    /// Specifies whether integer data values are normalized before usage.
    pub normalized: bool,
    /// The number of elements referenced by this accessor.
    pub count: u64,
    /// The type of elements in the accessor.
    pub ty: ElementType,
}

/// Identifies the type of components in an accessor.
#[derive(Debug, Clone, Copy, PartialEq, Eq, Structural)]
pub enum ComponentType {
    Byte,
    UnsignedByte,
    Short,
    UnsignedShort,
    UnsignedInt,
    Float,
}

impl ComponentType {
    /// The size, in bytes, of a single component of this type.
    pub open spec fn spec_size(self) -> usize {
        match self {
            ComponentType::Byte | ComponentType::UnsignedByte => 1,
            ComponentType::Short | ComponentType::UnsignedShort => 2,
            ComponentType::UnsignedInt | ComponentType::Float => 4,
        }
    }

    /// The size, in bytes, of a single component of this type.
    #[verifier::when_used_as_spec(spec_size)]
    pub fn size(self) -> (size: usize)
        ensures
            size == self.spec_size(),
    {
        match self {
            ComponentType::Byte | ComponentType::UnsignedByte => 1,
            ComponentType::Short | ComponentType::UnsignedShort => 2,
            ComponentType::UnsignedInt | ComponentType::Float => 4,
        }
    }

    /// The number that stands for the type in a file.
    pub open spec fn spec_code(self) -> u32 {
        match self {
            ComponentType::Byte => 5120,
            ComponentType::UnsignedByte => 5121,
            ComponentType::Short => 5122,
            ComponentType::UnsignedShort => 5123,
            ComponentType::UnsignedInt => 5125,
            ComponentType::Float => 5126,
        }
    }

    /// The number that stands for the type in a file.
    #[verifier::when_used_as_spec(spec_code)]
    pub fn code(self) -> (code: u32)
        ensures
            code == self.spec_code(),
    {
        match self {
            ComponentType::Byte => 5120,
            ComponentType::UnsignedByte => 5121,
            ComponentType::Short => 5122,
            ComponentType::UnsignedShort => 5123,
            ComponentType::UnsignedInt => 5125,
            ComponentType::Float => 5126,
        }
    }

    /// The type that the number `code` stands for in a file, if it stands
    /// for one.
    pub fn from_code(code: u32) -> (ty: Option<ComponentType>)
        ensures
            ty matches Some(t) ==> t.code() == code,
            ty is None ==> forall|t: ComponentType| t.code() != code,
    {
        if code == 5120 {
            Some(ComponentType::Byte)
        } else if code == 5121 {
            Some(ComponentType::UnsignedByte)
        } else if code == 5122 {
            Some(ComponentType::Short)
        } else if code == 5123 {
            Some(ComponentType::UnsignedShort)
        } else if code == 5125 {
            Some(ComponentType::UnsignedInt)
        } else if code == 5126 {
            Some(ComponentType::Float)
        } else {
            None
        }
    }
}

/// Identifies the type of elements in an accessor.
#[derive(Debug, Clone, Copy, PartialEq, Eq, Structural)]
pub enum ElementType {
    Scalar,
    Vector2,
    Vector3,
    Vector4,
    Matrix2,
    Matrix3,
    Matrix4,
}

/// The element type that the name `name` stands for in a file, if it stands
/// for one.
pub open spec fn element_type_of_name(name: Seq<char>) -> Option<ElementType> {
    if name == "SCALAR"@ {
        Some(ElementType::Scalar)
    } else if name == "VEC2"@ {
        Some(ElementType::Vector2)
    } else if name == "VEC3"@ {
        Some(ElementType::Vector3)
    } else if name == "VEC4"@ {
        Some(ElementType::Vector4)
    } else if name == "MAT2"@ {
        Some(ElementType::Matrix2)
    } else if name == "MAT3"@ {
        Some(ElementType::Matrix3)
    } else if name == "MAT4"@ {
        Some(ElementType::Matrix4)
    } else {
        None
    }
}

impl ElementType {
    /// The number of components in an element of this type.
    pub open spec fn spec_num_components(self) -> usize {
        match self {
            ElementType::Scalar => 1,
            ElementType::Vector2 => 2,
            ElementType::Vector3 => 3,
            ElementType::Vector4 => 4,
            ElementType::Matrix2 => 4,
            ElementType::Matrix3 => 9,
            ElementType::Matrix4 => 16,
        }
    }

    /// The number of components in an element of this type.
    #[verifier::when_used_as_spec(spec_num_components)]
    pub fn num_components(self) -> (count: usize)
        ensures
            count == self.spec_num_components(),
    {
        match self {
            ElementType::Scalar => 1,
            ElementType::Vector2 => 2,
            ElementType::Vector3 => 3,
            ElementType::Vector4 => 4,
            ElementType::Matrix2 => 4,
            ElementType::Matrix3 => 9,
            ElementType::Matrix4 => 16,
        }
    }

    /// The element type that the name `name` stands for in a file, if it
    /// stands for one.
    pub fn from_name(name: &str) -> (ty: Option<ElementType>)
        ensures
            ty == element_type_of_name(name@),
    {
        if same_text(name, "SCALAR") {
            Some(ElementType::Scalar)
        } else if same_text(name, "VEC2") {
            Some(ElementType::Vector2)
        } else if same_text(name, "VEC3") {
            Some(ElementType::Vector3)
        } else if same_text(name, "VEC4") {
            Some(ElementType::Vector4)
        } else if same_text(name, "MAT2") {
            Some(ElementType::Matrix2)
        } else if same_text(name, "MAT3") {
            Some(ElementType::Matrix3)
        } else if same_text(name, "MAT4") {
            Some(ElementType::Matrix4)
        } else {
            None
        }
    }
}

/// Describes a buffer view in a glTF file.
#[derive(Debug, Clone)]
pub struct BufferViewInfo {
    /// The name of the buffer view.
    pub name: Option<String>,
    /// The buffer containing the data.
    pub buffer: BufferId,
    /// The byte offset into the buffer.
    pub byte_offset: u64,
    /// The number of bytes in the buffer view.
    pub byte_length: u64,
    /// The stride between elements in the buffer view.
    pub byte_stride: Option<u64>,
}

/// Describes a buffer in a glTF file.
#[derive(Debug, Clone)]
pub struct BufferInfo {
    /// The name of the buffer.
    pub name: Option<String>,
    /// The URI of the buffer.
    pub uri: Option<String>,
    /// The number of bytes in the buffer.
    pub byte_length: u64,
}

/// Describes a material in a glTF file.
#[derive(Debug, Clone)]
pub struct MaterialInfo {
    /// The name of the material.
    pub name: Option<String>,
    /// The PBR parameters for the material.
    pub pbr_metallic_roughness: Option<PbrMetallicRoughnessInfo>,
}

/// A set of parameters for a PBR material.
#[derive(Debug, Clone, Copy)]
pub struct PbrMetallicRoughnessInfo {
    /// The base color texture.
    pub base_color_texture: Option<TextureRef>,
    /// The metallic-roughness texture.
    pub metallic_roughness_texture: Option<TextureRef>,
}

/// A reference to a texture in a glTF file.
#[derive(Debug, Clone, Copy)]
pub struct TextureRef {
    /// The identifier for the texture.
    pub texture: TextureId,
    /// The identifier of the texture coordinate set to use.
    pub coord: TextureCoordId,
}

/// Describes a texture in a glTF file.
#[derive(Debug, Clone)]
pub struct TextureInfo {
    /// The name of the texture.
    pub name: Option<String>,
    /// The image used by the texture.
    pub source: Option<ImageId>,
}

/// Describes an image in a glTF file.
#[derive(Debug, Clone)]
pub struct ImageInfo {
    /// The name of the image.
    pub name: Option<String>,
    /// The URI of the image.
    pub uri: Option<String>,
    /// The MIME type of the image.
    pub mime_type: Option<String>,
    /// The buffer view containing the image data.
    pub buffer_view: Option<BufferViewId>,
}

} // verus!
