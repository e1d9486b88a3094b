use assetman::asset::AssetPath;
use assetman::gltf::accessor::Elements;
use assetman::gltf::element::{Element, Vec2, Vec3};
use assetman::gltf::glb::parse_glb;
use assetman::gltf::info::{
    AccessorInfo, AttributeMap, BufferInfo, BufferViewInfo, ComponentType, ElementType, GltfInfo,
    ImageInfo, MaterialInfo, MeshInfo, NodeInfo, PbrMetallicRoughnessInfo, PrimitiveInfo,
    PrimitiveMode, SceneInfo, TextureInfo, TextureRef,
};
use assetman::gltf::scene::{Gltf, ImageSource, Node};
use assetman::root::AssetRoot;

fn dir() -> AssetPath {
    AssetPath::new_root(AssetRoot::new("/data".to_owned(), None)).relative("models/box")
}

fn empty() -> GltfInfo {
    GltfInfo {
        scene: None,
        scenes: Vec::new(),
        nodes: Vec::new(),
        meshes: Vec::new(),
        accessors: Vec::new(),
        buffer_views: Vec::new(),
        buffers: Vec::new(),
        materials: Vec::new(),
        textures: Vec::new(),
        images: Vec::new(),
    }
}

fn node(name: Option<&str>, children: Vec<u32>, mesh: Option<u32>) -> NodeInfo {
    NodeInfo {
        name: name.map(|n| n.to_owned()),
        translation: None,
        rotation: None,
        scale: None,
        matrix: None,
        children,
        mesh,
    }
}

fn accessor(view: Option<u32>, offset: u64, component: ComponentType, count: u64, ty: ElementType) -> AccessorInfo {
    AccessorInfo {
        buffer_view: view,
        byte_offset: offset,
        component_type: component,
        normalized: false,
        count,
        ty,
    }
}

fn view(buffer: u32, offset: u64, length: u64, stride: Option<u64>) -> BufferViewInfo {
    BufferViewInfo { name: None, buffer, byte_offset: offset, byte_length: length, byte_stride: stride }
}

fn buffer(uri: Option<&str>, length: u64) -> BufferInfo {
    BufferInfo { name: None, uri: uri.map(|u| u.to_owned()), byte_length: length }
}

fn collect<T: Element>(mut walk: Elements<T>) -> Vec<T> {
    let mut elements = Vec::new();
    while elements.len() < 1000 {
        match walk.next() {
            Some(element) => elements.push(element),
            None => break,
        }
    }
    elements
}

fn count<T: Element>(mut walk: Elements<T>) -> usize {
    let mut count = 0;
    while walk.next().is_some() {
        count += 1;
    }
    count
}

fn ids(nodes: &[Node]) -> Vec<u32> {
    nodes.iter().map(|n| n.id()).collect()
}

fn load_in(dir: &AssetPath, info: GltfInfo, embedded: Option<Vec<u8>>) -> Gltf {
    assert!(info.validate());
    Gltf::new(dir.clone(), info, embedded)
}

fn load(info: GltfInfo, embedded: Option<Vec<u8>>) -> Gltf {
    load_in(&dir(), info, embedded)
}

fn tree() -> GltfInfo {
    let mut info = empty();
    info.scene = Some(1);
    info.scenes = vec![
        SceneInfo { name: None, nodes: vec![4] },
        SceneInfo { name: Some("main".to_owned()), nodes: vec![0, 4] },
    ];
    info.nodes = vec![
        node(Some("root"), vec![1, 2], None),
        node(Some("leaf"), vec![], Some(0)),
        node(None, vec![3], None),
        node(Some("leaf"), vec![], None),
        node(Some("Camera"), vec![], None),
    ];
    info.meshes = vec![MeshInfo { name: Some("Mesh".to_owned()), primitives: Vec::new() }];
    info
}

fn box_info(uri: Option<&str>) -> GltfInfo {
    let matrix: [f32; 16] =
        [1.0, 0.0, 0.0, 0.0, 0.0, 0.0, -1.0, 0.0, 0.0, 1.0, 0.0, 0.0, 0.0, 0.0, 0.0, 1.0];
    let mut attributes = AttributeMap::new();
    attributes.insert("NORMAL", 1);
    attributes.insert("POSITION", 2);
    let mut info = empty();
    info.scene = Some(0);
    info.scenes = vec![SceneInfo { name: None, nodes: vec![0] }];
    let mut top = node(None, vec![1], None);
    top.matrix = Some(matrix.map(|x| x.to_bits()));
    info.nodes = vec![top, node(None, vec![], Some(0))];
    info.meshes = vec![MeshInfo {
        name: Some("Mesh".to_owned()),
        primitives: vec![PrimitiveInfo {
            attributes,
            indices: Some(0),
            material: Some(0),
            mode: PrimitiveMode::from_index(4).unwrap(),
        }],
    }];
    info.accessors = vec![
        accessor(Some(0), 0, ComponentType::from_code(5123).unwrap(), 36, ElementType::from_name("SCALAR").unwrap()),
        accessor(Some(1), 0, ComponentType::from_code(5126).unwrap(), 24, ElementType::from_name("VEC3").unwrap()),
        accessor(Some(1), 288, ComponentType::from_code(5126).unwrap(), 24, ElementType::from_name("VEC3").unwrap()),
    ];
    info.buffer_views = vec![view(0, 576, 72, None), view(0, 0, 576, Some(12))];
    info.buffers = vec![buffer(uri, 648)];
    info.materials = vec![MaterialInfo {
        name: Some("Red".to_owned()),
        pbr_metallic_roughness: Some(PbrMetallicRoughnessInfo {
            base_color_texture: None,
            metallic_roughness_texture: None,
        }),
    }];
    info
}

fn box_data() -> Vec<u8> {
    let mut data = Vec::new();
    for k in 0..48u32 {
        for lane in 0..3u32 {
            data.extend_from_slice(&((k * 3 + lane) as f32).to_ne_bytes());
        }
    }
    for k in 0..36u16 {
        data.extend_from_slice(&k.to_ne_bytes());
    }
    data
}

fn box_glb() -> Vec<u8> {
    let json = b"{\"asset\":{\"version\":\"2.0\"}}    ";
    let data = box_data();
    let mut bytes = Vec::new();
    bytes.extend_from_slice(&0x46546c67u32.to_le_bytes());
    bytes.extend_from_slice(&2u32.to_le_bytes());
    bytes.extend_from_slice(&((12 + 8 + json.len() + 8 + data.len()) as u32).to_le_bytes());
    bytes.extend_from_slice(&(json.len() as u32).to_le_bytes());
    bytes.extend_from_slice(&0x4e4f534au32.to_le_bytes());
    bytes.extend_from_slice(json);
    bytes.extend_from_slice(&(data.len() as u32).to_le_bytes());
    bytes.extend_from_slice(&0x004e4942u32.to_le_bytes());
    bytes.extend_from_slice(&data);
    bytes
}

#[test]
fn test_load_box() {
    let dir = dir();
    let from_text = {
        let gltf = load_in(&dir, box_info(Some("Box0.bin")), None);
        assert!(!gltf.buffer_loaded(0));
        assert!(gltf.buffer_source(0) == dir.relative("Box0.bin"));
        assert_eq!(gltf.buffer_source(0).as_str(), "models/box/Box0.bin");
        gltf.with_buffer(0, box_data())
    };
    let from_binary = {
        let bytes = box_glb();
        let glb = parse_glb(&bytes).unwrap();
        load(box_info(None), glb.binary.map(|data| data.to_vec()))
    };
    for gltf in [from_text, from_binary] {
        let scene = gltf.scene().unwrap();
        let node = scene.nodes().into_iter().next().unwrap();
        let matrix: [f32; 16] =
            [1.0, 0.0, 0.0, 0.0, 0.0, 0.0, -1.0, 0.0, 0.0, 1.0, 0.0, 0.0, 0.0, 0.0, 0.0, 1.0];
        assert_eq!(node.info().matrix.map(|m| m.map(f32::from_bits)), Some(matrix));
        let child = node.children().into_iter().next().unwrap();
        let mesh = child.mesh().unwrap();
        let prim = mesh.primitives().into_iter().next().unwrap();
        assert_eq!(count(prim.normal().unwrap().elements().unwrap()), 24);
        assert_eq!(count(prim.position().unwrap().elements().unwrap()), 24);
        prim.material().unwrap();
    }
}

#[test]
fn box_elements_have_their_values() {
    let gltf = load(box_info(None), Some(box_data()));
    let prim = gltf.scene().unwrap().nodes()[0].children()[0].mesh().unwrap().primitives().remove(0);
    assert_eq!(prim.mode(), PrimitiveMode::Triangles);
    assert_eq!(prim.normal().unwrap().elements().unwrap().remaining(), 24);
    let normals = collect(prim.normal().unwrap().elements().unwrap());
    let positions = collect(prim.position().unwrap().elements().unwrap());
    let indices = collect(prim.indices().unwrap().elements().unwrap());
    assert_eq!(normals[0].bits.map(f32::from_bits), [0.0, 1.0, 2.0]);
    assert_eq!(normals[23].bits.map(f32::from_bits), [69.0, 70.0, 71.0]);
    assert_eq!(positions[0].bits.map(f32::from_bits), [72.0, 73.0, 74.0]);
    assert_eq!(positions[23].bits.map(f32::from_bits), [141.0, 142.0, 143.0]);
    assert_eq!(indices.len(), 36);
    assert_eq!(indices[0], 0);
    assert_eq!(indices[35], 35);
    assert!(prim.tex_coord(0).is_none());
    assert!(prim.tex_coord(1).is_none());
    let material = prim.material().unwrap();
    assert_eq!(material.name(), Some("Red"));
    assert!(material.base_color_texture().is_none());
}

#[test]
fn empty_file_is_valid_and_has_no_scene() {
    let dir = dir();
    let gltf = load_in(&dir, empty(), None);
    assert!(gltf.scene().is_none());
    assert!(gltf.scene_nodes().is_empty());
    assert!(gltf.search_nodes_by_name("x").is_empty());
    assert!(gltf.accessor::<u32>(0).is_none());
    assert!(gltf.directory() == &dir);
}

#[test]
fn dangling_references_are_found() {
    let mut info = tree();
    assert!(info.validate());
    info.scene = Some(2);
    assert!(!info.validate());
    let mut info = tree();
    info.scenes[0].nodes.push(5);
    assert!(!info.validate());
    let mut info = tree();
    info.nodes[3].children.push(9);
    assert!(!info.validate());
    let mut info = tree();
    info.nodes[3].mesh = Some(1);
    assert!(!info.validate());
    let mut info = box_info(None);
    assert!(info.validate());
    info.meshes[0].primitives[0].material = Some(1);
    assert!(!info.validate());
    let mut info = box_info(None);
    info.accessors[2].buffer_view = Some(2);
    assert!(!info.validate());
    let mut info = box_info(None);
    info.buffer_views[1].buffer = 1;
    assert!(!info.validate());
    let mut info = box_info(None);
    info.materials[0].pbr_metallic_roughness = Some(PbrMetallicRoughnessInfo {
        base_color_texture: Some(TextureRef { texture: 0, coord: 0 }),
        metallic_roughness_texture: None,
    });
    assert!(!info.validate());
    info.textures.push(TextureInfo { name: None, source: Some(0) });
    assert!(!info.validate());
    info.images.push(ImageInfo { name: None, uri: None, mime_type: None, buffer_view: None });
    assert!(info.validate());
}

#[test]
fn accessor_ids_are_checked_on_access() {
    let mut info = box_info(None);
    info.meshes[0].primitives[0].indices = Some(7);
    info.meshes[0].primitives[0].attributes.position = Some(0);
    let gltf = load(info, Some(box_data()));
    let prim = gltf.scene_nodes()[0].children()[0].mesh().unwrap().primitives().remove(0);
    assert!(prim.indices().is_none());
    assert!(prim.position().is_none());
    assert!(prim.normal().is_some());
    assert!(gltf.accessor::<u32>(0).is_some());
    assert!(gltf.accessor::<Vec3>(0).is_none());
    assert!(gltf.accessor::<Vec3>(1).is_some());
    assert!(gltf.accessor::<Vec2>(1).is_none());
    assert!(gltf.accessor::<u32>(3).is_none());
}

#[test]
fn scene_nodes_follow_the_default_scene() {
    let gltf = load(tree(), None);
    let scene = gltf.scene().unwrap();
    assert_eq!(scene.info().name.as_deref(), Some("main"));
    assert_eq!(ids(&scene.nodes()), vec![0, 4]);
    assert_eq!(ids(&gltf.scene_nodes()), vec![0, 4]);
    let mut info = tree();
    info.scene = None;
    let gltf = load(info, None);
    assert!(gltf.scene_nodes().is_empty());
    assert_eq!(gltf.info().scenes.len(), 2);
}

#[test]
fn children_and_parents() {
    let gltf = load(tree(), None);
    let root = gltf.scene_nodes().remove(0);
    assert_eq!(root.id(), 0);
    assert_eq!(root.info().name.as_deref(), Some("root"));
    assert!(root.parent().is_none());
    let children = root.children();
    assert_eq!(ids(&children), vec![1, 2]);
    assert_eq!(children[0].parent().unwrap().id(), 0);
    let grandchild = children[1].children().remove(0);
    assert_eq!(grandchild.id(), 3);
    assert_eq!(grandchild.parent().unwrap().id(), 2);
    assert!(grandchild.children().is_empty());
    assert!(children[0].mesh().is_some());
    assert_eq!(children[0].mesh().unwrap().info().name.as_deref(), Some("Mesh"));
    assert!(children[1].mesh().is_none());
}

#[test]
fn parent_is_the_first_node_that_names_the_child() {
    let mut info = tree();
    info.nodes[2].children.push(1);
    let gltf = load(info, None);
    let shared = gltf.search_nodes_by_name("leaf").remove(0);
    assert_eq!(shared.id(), 1);
    assert_eq!(shared.parent().unwrap().id(), 0);
}

#[test]
fn descendants_come_parent_first_and_last_child_first() {
    let gltf = load(tree(), None);
    let root = gltf.scene_nodes().remove(0);
    let mut walk = root.descendants();
    let mut seen = Vec::new();
    while let Some(node) = walk.next() {
        seen.push(node.id());
    }
    assert_eq!(seen, vec![0, 2, 3, 1]);
    assert!(walk.next().is_none());
    let leaf = gltf.scene_nodes().remove(1);
    let mut walk = leaf.descendants();
    assert_eq!(walk.next().map(|n| n.id()), Some(4));
    assert!(walk.next().is_none());
}

#[test]
fn nodes_are_found_by_name() {
    let gltf = load(tree(), None);
    assert_eq!(ids(&gltf.search_nodes_by_name("leaf")), vec![1, 3]);
    assert_eq!(ids(&gltf.search_nodes_by_name("Camera")), vec![4]);
    assert!(gltf.search_nodes_by_name("camera").is_empty());
    assert!(gltf.search_nodes_by_name("").is_empty());
}

#[test]
fn buffers_are_kept_once() {
    let mut info = empty();
    info.buffers = vec![buffer(None, 4), buffer(Some("../shared/data.bin"), 2), buffer(None, 1)];
    let dir = dir();
    let gltf = load_in(&dir, info, Some(vec![1, 2, 3, 4]));
    assert_eq!(gltf.buffer(0), Some(&[1u8, 2, 3, 4][..]));
    assert!(gltf.buffer(1).is_none());
    assert!(gltf.buffer(2).is_none());
    assert!(gltf.buffer_loaded(0) && !gltf.buffer_loaded(1));
    assert!(gltf.buffer_source(1) == dir.relative("../shared/data.bin"));
    assert_eq!(gltf.buffer_source(1).as_str(), "models/shared/data.bin");
    let gltf = gltf.with_buffer(1, vec![9, 8]);
    assert_eq!(gltf.buffer(1), Some(&[9u8, 8][..]));
    let gltf = gltf.with_buffer(1, vec![7]);
    assert_eq!(gltf.buffer(1), Some(&[9u8, 8][..]));
    let gltf = gltf.with_buffer(0, vec![]);
    assert_eq!(gltf.buffer(0), Some(&[1u8, 2, 3, 4][..]));
}

#[test]
fn embedded_data_is_dropped_where_the_first_buffer_has_a_source() {
    let mut info = empty();
    info.buffers = vec![buffer(Some("a.bin"), 4)];
    let gltf = load(info, Some(vec![1, 2, 3, 4]));
    assert!(gltf.buffer(0).is_none());
    let gltf = load(empty(), Some(vec![1]));
    assert_eq!(gltf.info().buffers.len(), 0);
}

#[test]
fn buffer_views_cut_their_buffer() {
    let mut info = empty();
    info.buffers = vec![buffer(None, 8), buffer(Some("b.bin"), 8)];
    info.buffer_views = vec![
        view(0, 2, 4, Some(2)),
        view(0, 0, 8, None),
        view(0, 8, 0, None),
        view(0, 5, 4, None),
        view(0, u64::MAX, 2, None),
        view(1, 0, 1, None),
    ];
    let gltf = load(info, Some(vec![0, 1, 2, 3, 4, 5, 6, 7]));
    assert_eq!(gltf.buffer_view(0), Some((&[2u8, 3, 4, 5][..], Some(2))));
    assert_eq!(gltf.buffer_view(1), Some((&[0u8, 1, 2, 3, 4, 5, 6, 7][..], None)));
    assert_eq!(gltf.buffer_view(2), Some((&[][..], None)));
    assert_eq!(gltf.buffer_view(3), None);
    assert_eq!(gltf.buffer_view(4), None);
    assert_eq!(gltf.buffer_view(5), None);
}

fn scalars(component: ComponentType, offset: u64, count: u64, stride: Option<u64>, data: Vec<u8>) -> Option<Vec<u32>> {
    let mut info = empty();
    info.buffers = vec![buffer(None, data.len() as u64)];
    info.buffer_views = vec![view(0, 0, data.len() as u64, stride)];
    info.accessors = vec![accessor(Some(0), offset, component, count, ElementType::Scalar)];
    let gltf = load(info, Some(data));
    let accessor = gltf.accessor::<u32>(0).unwrap();
    assert_eq!(accessor.info().count, count);
    accessor.elements().map(collect)
}

#[test]
fn scalar_elements_are_read_by_component_type() {
    let data = vec![1, 2, 3, 4, 5, 6, 7, 8];
    assert_eq!(scalars(ComponentType::Byte, 0, 8, None, data.clone()), Some(vec![1, 2, 3, 4, 5, 6, 7, 8]));
    assert_eq!(scalars(ComponentType::Byte, 6, 2, None, data.clone()), Some(vec![7, 8]));
    let shorts = [0x0201u16, 0x0403, 0x0605, 0x0807].map(|x| u16::from_ne_bytes(x.to_le_bytes()) as u32);
    assert_eq!(scalars(ComponentType::UnsignedShort, 0, 4, None, data.clone()), Some(shorts.to_vec()));
    let ints = [0x04030201u32, 0x08070605].map(|x| u32::from_ne_bytes(x.to_le_bytes()));
    assert_eq!(scalars(ComponentType::UnsignedInt, 0, 2, None, data.clone()), Some(ints.to_vec()));
    assert_eq!(scalars(ComponentType::UnsignedInt, 0, 0, None, data.clone()), Some(vec![]));
    assert_eq!(scalars(ComponentType::UnsignedInt, 100, 0, None, data), Some(vec![]));
}

#[test]
fn scalar_elements_follow_the_stride() {
    let data = vec![1, 2, 3, 4, 5, 6, 7, 8];
    assert_eq!(scalars(ComponentType::Byte, 1, 3, Some(3), data.clone()), Some(vec![2, 5, 8]));
    assert_eq!(scalars(ComponentType::Byte, 1, 3, Some(0), data.clone()), Some(vec![2, 2, 2]));
    assert_eq!(scalars(ComponentType::Byte, 7, u64::MAX, Some(0), data.clone()), Some(vec![8; 1000]));
    assert_eq!(scalars(ComponentType::Byte, 7, 1, Some(u64::MAX), data.clone()), Some(vec![8]));
    let shorts = [0x0201u16, 0x0605].map(|x| u16::from_ne_bytes(x.to_le_bytes()) as u32);
    assert_eq!(scalars(ComponentType::UnsignedShort, 0, 2, Some(4), data), Some(shorts.to_vec()));
}

#[test]
fn elements_outside_the_data_are_not_read() {
    let data = vec![1, 2, 3, 4, 5, 6, 7, 8];
    assert_eq!(scalars(ComponentType::Byte, 0, 9, None, data.clone()), None);
    assert_eq!(scalars(ComponentType::Byte, 8, 1, None, data.clone()), None);
    assert_eq!(scalars(ComponentType::UnsignedInt, 5, 1, None, data.clone()), None);
    assert_eq!(scalars(ComponentType::UnsignedInt, 0, 3, None, data.clone()), None);
    assert_eq!(scalars(ComponentType::Byte, 1, 3, Some(4), data.clone()), None);
    assert_eq!(scalars(ComponentType::Byte, 0, 2, Some(u64::MAX), data.clone()), None);
    assert_eq!(scalars(ComponentType::Byte, u64::MAX, 1, None, data.clone()), None);
    assert_eq!(scalars(ComponentType::Byte, 0, u64::MAX, Some(1), data.clone()), None);
    assert_eq!(scalars(ComponentType::Byte, 0, u64::MAX, Some(u64::MAX), data), None);
}

#[test]
fn elements_of_other_component_types_are_not_read() {
    let data = vec![1, 2, 3, 4, 5, 6, 7, 8];
    assert_eq!(scalars(ComponentType::UnsignedByte, 0, 1, None, data.clone()), None);
    assert_eq!(scalars(ComponentType::Short, 0, 1, None, data.clone()), None);
    assert_eq!(scalars(ComponentType::Float, 0, 1, None, data), None);
    assert!(u32::can_read(ComponentType::Byte));
    assert!(!u32::can_read(ComponentType::Float));
    assert!(Vec3::can_read(ComponentType::Float));
    assert!(!Vec2::can_read(ComponentType::UnsignedInt));
    assert_eq!(u32::element_type(), ElementType::Scalar);
    assert_eq!(Vec2::element_type(), ElementType::Vector2);
    assert_eq!(Vec3::element_type(), ElementType::Vector3);
}

#[test]
fn elements_need_a_loaded_buffer_view() {
    let mut info = empty();
    info.buffers = vec![buffer(Some("a.bin"), 4)];
    info.buffer_views = vec![view(0, 0, 4, None)];
    info.accessors = vec![
        accessor(Some(0), 0, ComponentType::Byte, 4, ElementType::Scalar),
        accessor(None, 0, ComponentType::Byte, 4, ElementType::Scalar),
    ];
    let gltf = load(info, None);
    assert!(gltf.accessor::<u32>(0).unwrap().elements().is_none());
    assert!(gltf.accessor::<u32>(1).unwrap().elements().is_none());
    let gltf = gltf.with_buffer(0, vec![4, 3, 2, 1]);
    let mut walk = gltf.accessor::<u32>(0).unwrap().elements().unwrap();
    assert_eq!(walk.remaining(), 4);
    assert_eq!(walk.next(), Some(4));
    assert_eq!(walk.remaining(), 3);
    assert_eq!(collect(walk), vec![3, 2, 1]);
    assert!(gltf.accessor::<u32>(1).unwrap().elements().is_none());
}

#[test]
fn elements_are_read_from_longer_data() {
    let data = [1u8, 2, 3, 4, 5, 6, 7, 8, 9, 10, 11, 12, 13];
    assert_eq!(u32::read(ComponentType::Byte, false, &data), 1);
    assert_eq!(u32::read(ComponentType::UnsignedShort, false, &data), u16::from_ne_bytes([1, 2]) as u32);
    assert_eq!(u32::read(ComponentType::UnsignedInt, true, &data), u32::from_ne_bytes([1, 2, 3, 4]));
    let v2 = Vec2::read(ComponentType::Float, false, &data);
    assert_eq!(v2.bits, [u32::from_ne_bytes([1, 2, 3, 4]), u32::from_ne_bytes([5, 6, 7, 8])]);
    let v3 = Vec3::read(ComponentType::Float, false, &data);
    assert_eq!(v3.bits[2], u32::from_ne_bytes([9, 10, 11, 12]));
}

#[test]
fn textures_and_images() {
    let mut info = empty();
    info.meshes = vec![MeshInfo {
        name: None,
        primitives: vec![PrimitiveInfo {
            attributes: AttributeMap::new(),
            indices: None,
            material: Some(1),
            mode: PrimitiveMode::default(),
        }],
    }];
    info.nodes = vec![node(None, vec![], Some(0))];
    info.materials = vec![
        MaterialInfo { name: None, pbr_metallic_roughness: None },
        MaterialInfo {
            name: Some("Wood".to_owned()),
            pbr_metallic_roughness: Some(PbrMetallicRoughnessInfo {
                base_color_texture: Some(TextureRef { texture: 1, coord: 0 }),
                metallic_roughness_texture: None,
            }),
        },
    ];
    info.textures = vec![
        TextureInfo { name: None, source: None },
        TextureInfo { name: Some("bark".to_owned()), source: Some(0) },
    ];
    info.images = vec![ImageInfo {
        name: None,
        uri: Some("textures/bark.png".to_owned()),
        mime_type: None,
        buffer_view: None,
    }];
    let dir = dir();
    let gltf = load_in(&dir, info, None);
    let node = gltf.search_nodes_by_name("x");
    assert!(node.is_empty());
    let mesh = gltf.info().nodes[0].mesh;
    assert_eq!(mesh, Some(0));
    let scene_less = gltf.scene();
    assert!(scene_less.is_none());
    let mut info = gltf.info().clone();
    info.scene = Some(0);
    info.scenes = vec![SceneInfo { name: None, nodes: vec![0] }];
    let gltf = load_in(&dir, info, None);
    let prim = gltf.scene_nodes()[0].mesh().unwrap().primitives().remove(0);
    let material = prim.material().unwrap();
    assert_eq!(material.name(), Some("Wood"));
    assert_eq!(material.info().name.as_deref(), Some("Wood"));
    let texture = material.base_color_texture().unwrap();
    assert_eq!(texture.name(), Some("bark"));
    assert!(texture.has_image());
    let image = texture.image();
    assert!(image.is_asset());
    assert_eq!(image.info().uri.as_deref(), Some("textures/bark.png"));
    let ImageSource::Asset(path) = image.source();
    assert!(path == dir.relative("textures/bark.png"));
    assert_eq!(path.as_str(), "models/box/textures/bark.png");
    assert!(image.source() == ImageSource::Asset(dir.relative("./textures/bark.png")));
}
