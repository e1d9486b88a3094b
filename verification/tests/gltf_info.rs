use assetman::gltf::glb::{
    gltf_format, parse_glb, read_le_u32, GlbError, GltfFormat, MalformedGlbError,
    UnsupportedExtensionError,
};
use assetman::gltf::info::{Attribute, AttributeMap, ComponentType, ElementType, PrimitiveMode};
use assetman::path::same_text;

fn chunk(kind: u32, data: &[u8]) -> Vec<u8> {
    let mut bytes = Vec::new();
    bytes.extend_from_slice(&(data.len() as u32).to_le_bytes());
    bytes.extend_from_slice(&kind.to_le_bytes());
    bytes.extend_from_slice(data);
    bytes
}

fn header(magic: u32) -> Vec<u8> {
    let mut bytes = Vec::new();
    bytes.extend_from_slice(&magic.to_le_bytes());
    bytes.extend_from_slice(&2u32.to_le_bytes());
    bytes.extend_from_slice(&0u32.to_le_bytes());
    bytes
}

const MAGIC: u32 = 0x46546c67;
const JSON: u32 = 0x4e4f534a;
const BIN: u32 = 0x004e4942;

#[test]
fn component_sizes() {
    assert_eq!(ComponentType::Byte.size(), 1);
    assert_eq!(ComponentType::UnsignedByte.size(), 1);
    assert_eq!(ComponentType::Short.size(), 2);
    assert_eq!(ComponentType::UnsignedShort.size(), 2);
    assert_eq!(ComponentType::UnsignedInt.size(), 4);
    assert_eq!(ComponentType::Float.size(), 4);
}

#[test]
fn component_codes() {
    let all = [
        (ComponentType::Byte, 5120),
        (ComponentType::UnsignedByte, 5121),
        (ComponentType::Short, 5122),
        (ComponentType::UnsignedShort, 5123),
        (ComponentType::UnsignedInt, 5125),
        (ComponentType::Float, 5126),
    ];
    for (ty, code) in all {
        assert_eq!(ty.code(), code);
        assert_eq!(ComponentType::from_code(code), Some(ty));
    }
    assert_eq!(ComponentType::from_code(5124), None);
    assert_eq!(ComponentType::from_code(0), None);
    assert_eq!(ComponentType::from_code(5127), None);
}

#[test]
fn element_component_counts() {
    assert_eq!(ElementType::Scalar.num_components(), 1);
    assert_eq!(ElementType::Vector2.num_components(), 2);
    assert_eq!(ElementType::Vector3.num_components(), 3);
    assert_eq!(ElementType::Vector4.num_components(), 4);
    assert_eq!(ElementType::Matrix2.num_components(), 4);
    assert_eq!(ElementType::Matrix3.num_components(), 9);
    assert_eq!(ElementType::Matrix4.num_components(), 16);
}

#[test]
fn element_names() {
    assert_eq!(ElementType::from_name("SCALAR"), Some(ElementType::Scalar));
    assert_eq!(ElementType::from_name("VEC2"), Some(ElementType::Vector2));
    assert_eq!(ElementType::from_name("VEC3"), Some(ElementType::Vector3));
    assert_eq!(ElementType::from_name("VEC4"), Some(ElementType::Vector4));
    assert_eq!(ElementType::from_name("MAT2"), Some(ElementType::Matrix2));
    assert_eq!(ElementType::from_name("MAT3"), Some(ElementType::Matrix3));
    assert_eq!(ElementType::from_name("MAT4"), Some(ElementType::Matrix4));
    assert_eq!(ElementType::from_name("scalar"), None);
    assert_eq!(ElementType::from_name(""), None);
    assert_eq!(ElementType::from_name("VEC5"), None);
}

#[test]
fn primitive_modes() {
    let all = [
        PrimitiveMode::Points,
        PrimitiveMode::Lines,
        PrimitiveMode::LineLoop,
        PrimitiveMode::LineStrip,
        PrimitiveMode::Triangles,
        PrimitiveMode::TriangleStrip,
        PrimitiveMode::TriangleFan,
    ];
    for (index, mode) in all.into_iter().enumerate() {
        assert_eq!(mode.index(), index as u32);
        assert_eq!(PrimitiveMode::from_index(index as u32), Some(mode));
    }
    assert_eq!(PrimitiveMode::from_index(7), None);
    assert_eq!(PrimitiveMode::from_index(u32::MAX), None);
    assert_eq!(PrimitiveMode::default(), PrimitiveMode::Triangles);
}

#[test]
fn tex_coord_knows_only_the_first_set() {
    let mut map = AttributeMap::new();
    assert_eq!(map.tex_coord(0), None);
    map.tex_coord_0 = Some(5);
    map.position = Some(1);
    assert_eq!(map.tex_coord(0), Some(5));
    assert_eq!(map.tex_coord(1), None);
    assert_eq!(map.tex_coord(u32::MAX), None);
}

#[test]
fn attribute_keys() {
    assert_eq!(Attribute::from_key("POSITION"), Some(Attribute::Position));
    assert_eq!(Attribute::from_key("NORMAL"), Some(Attribute::Normal));
    assert_eq!(Attribute::from_key("TANGENT"), Some(Attribute::Tangent));
    assert_eq!(Attribute::from_key("TEXCOORD_0"), Some(Attribute::TexCoord0));
    assert_eq!(Attribute::from_key("TEXCOORD_1"), None);
    assert_eq!(Attribute::from_key("position"), None);
    assert_eq!(Attribute::from_key(""), None);
}

#[test]
fn attribute_map_records_known_keys() {
    let mut map = AttributeMap::default();
    assert!(map.position.is_none() && map.normal.is_none());
    assert!(map.tangent.is_none() && map.tex_coord_0.is_none());
    assert!(map.insert("NORMAL", 1));
    assert!(map.insert("POSITION", 2));
    assert!(!map.insert("COLOR_0", 3));
    assert!(map.insert("TEXCOORD_0", 4));
    assert!(map.insert("TANGENT", 5));
    assert!(map.insert("POSITION", 6));
    assert_eq!(map.position, Some(6));
    assert_eq!(map.normal, Some(1));
    assert_eq!(map.tangent, Some(5));
    assert_eq!(map.tex_coord_0, Some(4));
}

#[test]
fn same_text_compares_texts() {
    assert!(same_text("glb", "glb"));
    assert!(!same_text("glb", "gltf"));
    assert!(same_text("", ""));
}

#[test]
fn format_follows_the_extension() {
    assert_eq!(gltf_format(None), Ok(GltfFormat::Text));
    assert_eq!(gltf_format(Some("gltf")), Ok(GltfFormat::Text));
    assert_eq!(gltf_format(Some("glb")), Ok(GltfFormat::Binary));
    assert_eq!(gltf_format(Some("json")), Err(UnsupportedExtensionError));
    assert_eq!(gltf_format(Some("GLB")), Err(UnsupportedExtensionError));
    assert_eq!(gltf_format(Some("")), Err(UnsupportedExtensionError));
    assert_eq!(gltf_format(Some("b/c")), Err(UnsupportedExtensionError));
}

#[test]
fn error_messages() {
    assert_eq!(UnsupportedExtensionError.message(), "unsupported GLTF file extension");
    assert_eq!(MalformedGlbError.message(), "malformed GLB file");
}

#[test]
fn numbers_are_read_lowest_byte_first() {
    let bytes = [0x67, 0x6c, 0x54, 0x46, 0x01, 0x02, 0x03, 0x04];
    assert_eq!(read_le_u32(&bytes, 0), 0x46546c67);
    assert_eq!(read_le_u32(&bytes, 4), 0x04030201);
    assert_eq!(read_le_u32(&bytes, 2), 0x02014654);
    assert_eq!(read_le_u32(&[0xff, 0xff, 0xff, 0xff], 0), u32::MAX);
}

#[test]
fn glb_with_json_and_binary() {
    let mut bytes = header(MAGIC);
    bytes.extend(chunk(JSON, b"{\"a\":1} "));
    bytes.extend(chunk(BIN, &[1, 2, 3, 4]));
    let glb = parse_glb(&bytes).unwrap();
    assert_eq!(glb.json, b"{\"a\":1} ");
    assert_eq!(glb.binary, Some(&[1u8, 2, 3, 4][..]));
}

#[test]
fn glb_with_json_only() {
    let mut bytes = header(MAGIC);
    bytes.extend(chunk(JSON, b"{}"));
    let glb = parse_glb(&bytes).unwrap();
    assert_eq!(glb.json, b"{}");
    assert_eq!(glb.binary, None);
    bytes.extend_from_slice(&[0, 0, 0]);
    let glb = parse_glb(&bytes).unwrap();
    assert_eq!(glb.json, b"{}");
    assert_eq!(glb.binary, None);
}

#[test]
fn glb_with_empty_chunks() {
    let mut bytes = header(MAGIC);
    bytes.extend(chunk(JSON, b""));
    bytes.extend(chunk(BIN, b""));
    let glb = parse_glb(&bytes).unwrap();
    assert_eq!(glb.json, b"");
    assert_eq!(glb.binary, Some(&[][..]));
}

#[test]
fn glb_json_ends_with_the_file() {
    let mut bytes = header(MAGIC);
    bytes.extend_from_slice(&100u32.to_le_bytes());
    bytes.extend_from_slice(&JSON.to_le_bytes());
    bytes.extend_from_slice(b"{\"a\"");
    let glb = parse_glb(&bytes).unwrap();
    assert_eq!(glb.json, b"{\"a\"");
    assert_eq!(glb.binary, None);
}

#[test]
fn glb_is_malformed() {
    let malformed = Err(GlbError::Malformed(MalformedGlbError));
    assert_eq!(parse_glb(&[]).map(|_| ()), malformed);
    assert_eq!(parse_glb(&header(MAGIC)[..11]).map(|_| ()), malformed);
    assert_eq!(parse_glb(&header(MAGIC)).map(|_| ()), malformed);
    let mut bytes = header(0x46546c68);
    bytes.extend(chunk(JSON, b"{}"));
    assert_eq!(parse_glb(&bytes).map(|_| ()), malformed);
    let mut bytes = header(MAGIC);
    bytes.extend(chunk(BIN, b"{}"));
    assert_eq!(parse_glb(&bytes).map(|_| ()), malformed);
    let mut bytes = header(MAGIC);
    bytes.extend_from_slice(&[2, 0, 0, 0, 0x4a, 0x53, 0x4f]);
    assert_eq!(parse_glb(&bytes).map(|_| ()), malformed);
    let mut bytes = header(MAGIC);
    bytes.extend(chunk(JSON, b"{}"));
    bytes.extend(chunk(JSON, b"{}"));
    assert_eq!(parse_glb(&bytes).map(|_| ()), malformed);
}

#[test]
fn glb_binary_is_cut_short() {
    let mut bytes = header(MAGIC);
    bytes.extend(chunk(JSON, b"{}"));
    bytes.extend(chunk(BIN, &[1, 2, 3, 4]));
    bytes.pop();
    assert_eq!(parse_glb(&bytes).map(|_| ()), Err(GlbError::UnexpectedEnd));
    let mut bytes = header(MAGIC);
    bytes.extend(chunk(JSON, b"{}"));
    bytes.extend_from_slice(&u32::MAX.to_le_bytes());
    bytes.extend_from_slice(&BIN.to_le_bytes());
    assert_eq!(parse_glb(&bytes).map(|_| ()), Err(GlbError::UnexpectedEnd));
}
