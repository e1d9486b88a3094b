//! A loaded glTF file and the objects of its scenes: how one is reached
//! from another.

use vstd::prelude::*;
use crate::asset::AssetPath;
use crate::gltf::info::{
    BufferId, BufferViewId, GltfInfo, ImageId, ImageInfo, MaterialId, MaterialInfo, MeshId,
    MeshInfo, NodeId, NodeInfo, PrimitiveInfo, PrimitiveMode, SceneId, SceneInfo, TextureId,
    TextureInfo,
};
use crate::path::same_text;
use crate::path::resolve;

verus! {

/// The buffers of a file that has just been loaded: none is loaded but,
/// where the file came with binary data and its first buffer names no
/// source of its own, the first, which is that data.
pub open spec fn initial_buffers(info: GltfInfo, embedded: Option<Vec<u8>>) -> Seq<
    Option<Vec<u8>>,
> {
    Seq::new(
        info.buffers@.len(),
        |i: int|
            if i == 0 && info.buffers@[0].uri is None {
                embedded
            } else {
                None
            },
    )
}

/// The identifiers of the nodes among the first `n` of `nodes` that have
/// the name `name`, in rising order.
pub open spec fn named_ids(nodes: Seq<NodeInfo>, name: Seq<char>, n: int) -> Seq<NodeId>
    decreases n,
{
    if n <= 0 {
        Seq::empty()
    } else {
        let before = named_ids(nodes, name, n - 1);
        if nodes[n - 1].name matches Some(s) && s@ == name {
            before.push((n - 1) as NodeId)
        } else {
            before
        }
    }
}

/// The node `parent` is the first of `nodes` that has `child` among its
/// children.
pub open spec fn is_first_parent(nodes: Seq<NodeInfo>, child: NodeId, parent: int) -> bool {
    &&& 0 <= parent < nodes.len()
    &&& nodes[parent].children@.contains(child)
    &&& forall|i: int| 0 <= i < parent ==> !(#[trigger] nodes[i]).children@.contains(child)
}

/// No node of `nodes` has `child` among its children.
pub open spec fn has_no_parent(nodes: Seq<NodeInfo>, child: NodeId) -> bool {
    forall|i: int| 0 <= i < nodes.len() ==> !(#[trigger] nodes[i]).children@.contains(child)
}

/// Whether `id` is among `ids`.
fn contains_id(ids: &Vec<u32>, id: u32) -> (found: bool)
    ensures
        found == ids@.contains(id),
{
    let mut j: usize = 0;
    while j < ids.len()
        invariant
            j <= ids@.len(),
            forall|k: int| 0 <= k < j ==> ids@[k] != id,
        decreases ids@.len() - j,
    {
        if ids[j] == id {
            return true;
        }
        j = j + 1;
    }
    false
}

/// A loaded glTF file: what the file describes, the directory that its
/// references are relative to, and the data of the buffers that have been
/// loaded so far. Every reference in it leads to an object that it
/// defines.
pub struct Gltf {
    dir: AssetPath,
    info: GltfInfo,
    buffers: Vec<Option<Vec<u8>>>,
}

impl View for Gltf {
    type V = GltfInfo;

    closed spec fn view(&self) -> GltfInfo {
        self.info
    }
}

impl Gltf {
    #[verifier::type_invariant]
    spec fn inv(&self) -> bool {
        self.info.valid() && self.buffers@.len() == self.info.buffers@.len()
    }

    /// The directory that the references of the file are relative to.
    pub closed spec fn dir(&self) -> AssetPath {
        self.dir
    }

    /// The data of the buffers, `None` for one that is not loaded.
    pub closed spec fn buffers(&self) -> Seq<Option<Vec<u8>>> {
        self.buffers@
    }

    /// A file with the contents `info`, found in the directory `dir`.
    /// `embedded` is the binary data that came with the file itself: it is
    /// the data of the first buffer where that buffer names no source of
    /// its own, and is dropped otherwise.
    pub fn new(dir: AssetPath, info: GltfInfo, embedded: Option<Vec<u8>>) -> (gltf: Self)
        requires
            info.valid(),
        ensures
            gltf@ == info,
            gltf.dir() == dir,
            gltf.buffers() == initial_buffers(info, embedded),
    {
        let mut buffers: Vec<Option<Vec<u8>>> = Vec::new();
        let count = info.buffers.len();
        if count > 0 {
            if info.buffers[0].uri.is_none() {
                buffers.push(embedded);
            } else {
                buffers.push(None);
            }
        }
        while buffers.len() < count
            invariant
                count == info.buffers@.len(),
                buffers@.len() <= count,
                count > 0 ==> buffers@.len() > 0,
                forall|i: int|
                    0 <= i < buffers@.len() ==> buffers@[i] == initial_buffers(info, embedded)[i],
            decreases count - buffers@.len(),
        {
            buffers.push(None);
        }
        assert(buffers@ =~= initial_buffers(info, embedded));
        Gltf { dir, info, buffers }
    }

    /// The contents of the file.
    pub fn info(&self) -> (info: &GltfInfo)
        ensures
            *info == self@,
            info.valid(),
    {
        proof {
            use_type_invariant(self);
        }
        &self.info
    }

    /// The directory that the references of the file are relative to.
    pub fn directory(&self) -> (dir: &AssetPath)
        ensures
            *dir == self.dir(),
    {
        &self.dir
    }

    /// The default scene to display.
    pub fn scene(&self) -> (scene: Option<Scene<'_>>)
        ensures
            match scene {
                Some(s) => self@.scene == Some(s.id()) && s.gltf() == self,
                None => self@.scene is None,
            },
    {
        proof {
            use_type_invariant(self);
        }
        match self.info.scene {
            Some(id) => Some(Scene { gltf: self, id }),
            None => None,
        }
    }

    /// The nodes of the default scene, in the order of the file, or no node
    /// where the file has no default scene.
    pub fn scene_nodes(&self) -> (nodes: Vec<Node<'_>>)
        ensures
            match self@.scene {
                Some(s) => s < self@.scenes@.len() && are_nodes(
                    nodes@,
                    self,
                    self@.scenes@[s as int].nodes@,
                ),
                None => nodes@.len() == 0,
            },
    {
        match self.scene() {
            Some(scene) => scene.nodes(),
            None => Vec::new(),
        }
    }

    /// The nodes with the name `name`, in the order of the file.
    pub fn search_nodes_by_name(&self, name: &str) -> (nodes: Vec<Node<'_>>)
        ensures
            are_nodes(nodes@, self, named_ids(self@.nodes@, name@, self@.nodes@.len() as int)),
    {
        proof {
            use_type_invariant(self);
        }
        let mut nodes: Vec<Node<'_>> = Vec::new();
        let mut i: usize = 0;
        while i < self.info.nodes.len()
            invariant
                i <= self.info.nodes@.len(),
                self.info.nodes@.len() <= crate::gltf::valid::MAX_NODES,
                are_nodes(nodes@, self, named_ids(self.info.nodes@, name@, i as int)),
            decreases self.info.nodes@.len() - i,
        {
            let found = match &self.info.nodes[i].name {
                Some(s) => same_text(s.as_str(), name),
                None => false,
            };
            if found {
                nodes.push(Node { gltf: self, id: i as NodeId });
            }
            i = i + 1;
        }
        nodes
    }

    /// Whether the data of the buffer `id` is loaded.
    pub fn buffer_loaded(&self, id: BufferId) -> (loaded: bool)
        requires
            id < self@.buffers@.len(),
        ensures
            id < self.buffers().len(),
            loaded == self.buffers()[id as int].is_some(),
    {
        proof {
            use_type_invariant(self);
        }
        self.buffers[id as usize].is_some()
    }

    /// The asset that holds the data of the buffer `id`: what the source
    /// that the buffer names denotes relative to the directory of the file.
    pub fn buffer_source(&self, id: BufferId) -> (source: AssetPath)
        requires
            id < self@.buffers@.len(),
            self@.buffers@[id as int].uri is Some,
        ensures
            source.root() == self.dir().root(),
            source.inner() == resolve(self.dir().inner(), self@.buffers@[id as int].uri->0@),
    {
        match &self.info.buffers[id as usize].uri {
            Some(uri) => self.dir.relative(uri.as_str()),
            None => self.dir.clone(),
        }
    }

    /// The file with `data` kept as the data of the buffer `id`, unless
    /// that buffer is loaded: what is loaded once stays.
    pub fn with_buffer(self, id: BufferId, data: Vec<u8>) -> (gltf: Self)
        requires
            id < self@.buffers@.len(),
        ensures
            gltf@ == self@,
            gltf.dir() == self.dir(),
            id < self.buffers().len(),
            gltf.buffers() == (if self.buffers()[id as int] is None {
                self.buffers().update(id as int, Some(data))
            } else {
                self.buffers()
            }),
    {
        proof {
            use_type_invariant(&self);
        }
        let Gltf { dir, info, mut buffers } = self;
        if buffers[id as usize].is_none() {
            buffers.set(id as usize, Some(data));
        }
        Gltf { dir, info, buffers }
    }

    /// The data of the buffer `id`, if it is loaded.
    pub fn buffer(&self, id: BufferId) -> (data: Option<&[u8]>)
        requires
            id < self@.buffers@.len(),
        ensures
            id < self.buffers().len(),
            match data {
                Some(d) => self.buffers()[id as int] matches Some(v) && d@ == v@,
                None => self.buffers()[id as int] is None,
            },
    {
        proof {
            use_type_invariant(self);
        }
        match &self.buffers[id as usize] {
            Some(v) => Some(v.as_slice()),
            None => None,
        }
    }

    /// The bytes that the buffer view `id` covers: those of its buffer from
    /// its offset on, as many as its length. There are none where the
    /// buffer is not loaded or is too short for the view.
    pub open spec fn view_data(&self, id: int) -> Option<Seq<u8>> {
        let view = self@.buffer_views@[id];
        match self.buffers()[view.buffer as int] {
            Some(data) => if view.byte_offset + view.byte_length <= data@.len() {
                Some(
                    data@.subrange(
                        view.byte_offset as int,
                        view.byte_offset + view.byte_length,
                    ),
                )
            } else {
                None
            },
            None => None,
        }
    }

    /// The data and the stride of the buffer view `id`. There is none
    /// where the buffer of the view is not loaded or is too short for it.
    pub fn buffer_view(&self, id: BufferViewId) -> (view: Option<(&[u8], Option<u64>)>)
        requires
            id < self@.buffer_views@.len(),
        ensures
            match view {
                Some((data, stride)) => self.view_data(id as int) == Some(data@) && stride
                    == self@.buffer_views@[id as int].byte_stride,
                None => self.view_data(id as int) is None,
            },
    {
        proof {
            use_type_invariant(self);
        }
        let info = &self.info.buffer_views[id as usize];
        assert(crate::gltf::valid::view_ok(*info, self.info.buffers@.len() as int));
        match self.buffer(info.buffer) {
            Some(data) => {
                let len = data.len() as u64;
                if info.byte_offset <= len && info.byte_length <= len - info.byte_offset {
                    let start = info.byte_offset as usize;
                    let end = (info.byte_offset + info.byte_length) as usize;
                    Some((vstd::slice::slice_subrange(data, start, end), info.byte_stride))
                } else {
                    None
                }
            },
            None => None,
        }
    }
}

/// The nodes `nodes` are those of `gltf` with the identifiers `ids`, in
/// that order.
pub open spec fn are_nodes(nodes: Seq<Node<'_>>, gltf: &Gltf, ids: Seq<NodeId>) -> bool {
    &&& nodes.len() == ids.len()
    &&& forall|k: int|
        0 <= k < nodes.len() ==> (#[trigger] nodes[k]).id() == ids[k] && nodes[k].gltf() == gltf
}

/// Makes the nodes of `gltf` with the identifiers `ids`.
fn nodes_of<'a>(gltf: &'a Gltf, ids: &Vec<NodeId>) -> (nodes: Vec<Node<'a>>)
    requires
        crate::gltf::valid::ids_below(ids@, gltf@.nodes@.len() as int),
    ensures
        are_nodes(nodes@, gltf, ids@),
{
    let mut nodes: Vec<Node<'a>> = Vec::new();
    let mut k: usize = 0;
    while k < ids.len()
        invariant
            k <= ids@.len(),
            crate::gltf::valid::ids_below(ids@, gltf@.nodes@.len() as int),
            are_nodes(nodes@, gltf, ids@.take(k as int)),
        decreases ids@.len() - k,
    {
        nodes.push(Node { gltf, id: ids[k] });
        k = k + 1;
    }
    assert(ids@.take(ids@.len() as int) =~= ids@);
    nodes
}

/// A scene of a glTF file.
pub struct Scene<'a> {
    gltf: &'a Gltf,
    id: SceneId,
}

impl<'a> Scene<'a> {
    #[verifier::type_invariant]
    spec fn inv(&self) -> bool {
        self.id < self.gltf.info.scenes@.len()
    }

    /// The file that the scene belongs to.
    pub closed spec fn gltf(&self) -> &'a Gltf {
        self.gltf
    }

    /// The identifier of the scene.
    pub closed spec fn id(&self) -> SceneId {
        self.id
    }

    /// What the file says of the scene.
    pub fn info(&self) -> (info: &'a SceneInfo)
        ensures
            self.id() < self.gltf()@.scenes@.len(),
            *info == self.gltf()@.scenes@[self.id() as int],
    {
        proof {
            use_type_invariant(self);
        }
        &self.gltf.info.scenes[self.id as usize]
    }

    /// The nodes of the scene, in the order of the file.
    pub fn nodes(&self) -> (nodes: Vec<Node<'a>>)
        ensures
            self.id() < self.gltf()@.scenes@.len(),
            are_nodes(nodes@, self.gltf(), self.gltf()@.scenes@[self.id() as int].nodes@),
    {
        proof {
            use_type_invariant(self);
            use_type_invariant(self.gltf);
        }
        let info = &self.gltf.info.scenes[self.id as usize];
        assert(crate::gltf::valid::scene_ok(*info, self.gltf.info.nodes@.len() as int));
        nodes_of(self.gltf, &info.nodes)
    }
}

/// A node of a glTF file.
#[derive(Clone, Copy)]
pub struct Node<'a> {
    gltf: &'a Gltf,
    id: NodeId,
}

impl<'a> Node<'a> {
    #[verifier::type_invariant]
    spec fn inv(&self) -> bool {
        self.id < self.gltf.info.nodes@.len()
    }

    /// The file that the node belongs to.
    pub closed spec fn gltf(&self) -> &'a Gltf {
        self.gltf
    }

    /// The identifier of the node.
    pub closed spec fn spec_id(&self) -> NodeId {
        self.id
    }

    /// The identifier of the node.
    #[verifier::when_used_as_spec(spec_id)]
    pub fn id(&self) -> (id: NodeId)
        ensures
            id == self.id(),
            id < self.gltf()@.nodes@.len(),
    {
        proof {
            use_type_invariant(self);
        }
        self.id
    }

    /// What the file says of the node.
    pub fn info(&self) -> (info: &'a NodeInfo)
        ensures
            self.id() < self.gltf()@.nodes@.len(),
            *info == self.gltf()@.nodes@[self.id() as int],
    {
        proof {
            use_type_invariant(self);
        }
        &self.gltf.info.nodes[self.id as usize]
    }

    /// The parent of the node: the first node of the file that has this one
    /// among its children, or `None` where no node has.
    pub fn parent(&self) -> (parent: Option<Node<'a>>)
        ensures
            match parent {
                Some(p) => p.gltf() == self.gltf() && is_first_parent(
                    self.gltf()@.nodes@,
                    self.id(),
                    p.id() as int,
                ),
                None => has_no_parent(self.gltf()@.nodes@, self.id()),
            },
    {
        proof {
            use_type_invariant(self.gltf);
        }
        let gltf = self.gltf;
        let mut i: usize = 0;
        while i < gltf.info.nodes.len()
            invariant
                gltf == self.gltf,
                i <= gltf.info.nodes@.len(),
                gltf.info.nodes@.len() <= crate::gltf::valid::MAX_NODES,
                forall|k: int|
                    0 <= k < i ==> !(#[trigger] gltf.info.nodes@[k]).children@.contains(self.id),
            decreases gltf.info.nodes@.len() - i,
        {
            if contains_id(&gltf.info.nodes[i].children, self.id) {
                return Some(Node { gltf, id: i as NodeId });
            }
            i = i + 1;
        }
        None
    }

    /// The children of the node, in the order of the file.
    pub fn children(&self) -> (children: Vec<Node<'a>>)
        ensures
            self.id() < self.gltf()@.nodes@.len(),
            are_nodes(children@, self.gltf(), self.gltf()@.nodes@[self.id() as int].children@),
    {
        proof {
            use_type_invariant(self);
            use_type_invariant(self.gltf);
        }
        let info = &self.gltf.info.nodes[self.id as usize];
        assert(crate::gltf::valid::node_ok(
            *info,
            self.gltf.info.nodes@.len() as int,
            self.gltf.info.meshes@.len() as int,
        ));
        nodes_of(self.gltf, &info.children)
    }

    /// A walk over the descendants of the node, the node itself first.
    pub fn descendants(&self) -> (walk: Descendants<'a>)
        ensures
            walk.pending() == seq![*self],
    {
        let mut stack: Vec<Node<'a>> = Vec::new();
        stack.push(*self);
        Descendants { stack }
    }

    /// The mesh displayed by the node, if it has one.
    pub fn mesh(&self) -> (mesh: Option<Mesh<'a>>)
        ensures
            self.id() < self.gltf()@.nodes@.len(),
            match mesh {
                Some(m) => m.gltf() == self.gltf() && self.gltf()@.nodes@[self.id() as int].mesh
                    == Some(m.id()),
                None => self.gltf()@.nodes@[self.id() as int].mesh is None,
            },
    {
        proof {
            use_type_invariant(self);
            use_type_invariant(self.gltf);
        }
        let info = &self.gltf.info.nodes[self.id as usize];
        assert(crate::gltf::valid::node_ok(
            *info,
            self.gltf.info.nodes@.len() as int,
            self.gltf.info.meshes@.len() as int,
        ));
        match info.mesh {
            Some(id) => Some(Mesh { gltf: self.gltf, id }),
            None => None,
        }
    }
}

/// A walk over the descendants of a node. The nodes still to be visited
/// wait on a stack: a step visits the one on top and puts its children on
/// the stack in its place, so that a node comes before its descendants and
/// the last child of a node before its other children. In a file whose
/// nodes refer to one another in a circle the walk has no end.
pub struct Descendants<'a> {
    stack: Vec<Node<'a>>,
}

impl<'a> Descendants<'a> {
    /// The nodes that wait to be visited, the next one last.
    pub closed spec fn pending(&self) -> Seq<Node<'a>> {
        self.stack@
    }

    /// Visits the next node, or returns `None` where none is left. The
    /// children of the node that is visited wait in place of it.
    pub fn next(&mut self) -> (node: Option<Node<'a>>)
        ensures
            match node {
                Some(n) => {
                    let rest = old(self).pending().len() - 1;
                    &&& old(self).pending().len() > 0
                    &&& n == old(self).pending().last()
                    &&& n.id() < n.gltf()@.nodes@.len()
                    &&& final(self).pending().take(rest) == old(self).pending().drop_last()
                    &&& are_nodes(
                        final(self).pending().skip(rest),
                        n.gltf(),
                        n.gltf()@.nodes@[n.id() as int].children@,
                    )
                },
                None => old(self).pending().len() == 0 && final(self).pending().len() == 0,
            },
    {
        match self.stack.pop() {
            Some(node) => {
                let ghost rest = self.stack@;
                assert(rest =~= old(self).stack@.drop_last());
                let mut children = node.children();
                let ghost added = children@;
                self.stack.append(&mut children);
                assert(self.stack@.take(rest.len() as int) =~= rest);
                assert(self.stack@.skip(rest.len() as int) =~= added);
                Some(node)
            },
            None => None,
        }
    }
}

/// A mesh of a glTF file.
pub struct Mesh<'a> {
    gltf: &'a Gltf,
    id: MeshId,
}

impl<'a> Mesh<'a> {
    #[verifier::type_invariant]
    spec fn inv(&self) -> bool {
        self.id < self.gltf.info.meshes@.len()
    }

    /// The file that the mesh belongs to.
    pub closed spec fn gltf(&self) -> &'a Gltf {
        self.gltf
    }

    /// The identifier of the mesh.
    pub closed spec fn id(&self) -> MeshId {
        self.id
    }

    /// What the file says of the mesh.
    pub fn info(&self) -> (info: &'a MeshInfo)
        ensures
            self.id() < self.gltf()@.meshes@.len(),
            *info == self.gltf()@.meshes@[self.id() as int],
    {
        proof {
            use_type_invariant(self);
        }
        &self.gltf.info.meshes[self.id as usize]
    }

    /// The primitives which make up the mesh, in the order of the file.
    pub fn primitives(&self) -> (primitives: Vec<Primitive<'a>>)
        ensures
            self.id() < self.gltf()@.meshes@.len(),
            primitives@.len() == self.gltf()@.meshes@[self.id() as int].primitives@.len(),
            forall|k: int|
                0 <= k < primitives@.len() ==> {
                    &&& (#[trigger] primitives@[k]).gltf() == self.gltf()
                    &&& primitives@[k].mesh() == self.id()
                    &&& primitives@[k].index() == k
                },
    {
        proof {
            use_type_invariant(self);
        }
        let count = self.gltf.info.meshes[self.id as usize].primitives.len();
        let mut primitives: Vec<Primitive<'a>> = Vec::new();
        let mut k: usize = 0;
        while k < count
            invariant
                k <= count,
                self.id < self.gltf.info.meshes@.len(),
                count == self.gltf.info.meshes@[self.id as int].primitives@.len(),
                primitives@.len() == k,
                forall|j: int|
                    0 <= j < k ==> {
                        &&& (#[trigger] primitives@[j]).gltf() == self.gltf()
                        &&& primitives@[j].mesh() == self.id()
                        &&& primitives@[j].index() == j
                    },
            decreases count - k,
        {
            primitives.push(Primitive { gltf: self.gltf, mesh: self.id, index: k });
            k = k + 1;
        }
        primitives
    }
}

/// A primitive of a mesh of a glTF file.
pub struct Primitive<'a> {
    gltf: &'a Gltf,
    mesh: MeshId,
    index: usize,
}

impl<'a> Primitive<'a> {
    #[verifier::type_invariant]
    spec fn inv(&self) -> bool {
        &&& self.mesh < self.gltf.info.meshes@.len()
        &&& self.index < self.gltf.info.meshes@[self.mesh as int].primitives@.len()
    }

    /// The file that the primitive belongs to.
    pub closed spec fn gltf(&self) -> &'a Gltf {
        self.gltf
    }

    /// The identifier of the mesh that the primitive is part of.
    pub closed spec fn mesh(&self) -> MeshId {
        self.mesh
    }

    /// The place of the primitive among the primitives of its mesh.
    pub closed spec fn index(&self) -> int {
        self.index as int
    }

    /// What the file says of the primitive.
    pub open spec fn spec_info(&self) -> PrimitiveInfo {
        self.gltf()@.meshes@[self.mesh() as int].primitives@[self.index()]
    }

    /// What the file says of the primitive.
    pub fn info(&self) -> (info: &'a PrimitiveInfo)
        ensures
            self.mesh() < self.gltf()@.meshes@.len(),
            0 <= self.index() < self.gltf()@.meshes@[self.mesh() as int].primitives@.len(),
            *info == self.spec_info(),
    {
        proof {
            use_type_invariant(self);
        }
        &self.gltf.info.meshes[self.mesh as usize].primitives[self.index]
    }

    /// The file that the primitive belongs to.
    pub fn file(&self) -> (gltf: &'a Gltf)
        ensures
            gltf == self.gltf(),
    {
        self.gltf
    }

    /// The type of topology used by the primitive.
    pub fn mode(&self) -> (mode: PrimitiveMode)
        ensures
            mode == self.spec_info().mode,
    {
        self.info().mode
    }

    /// The material applied to the primitive, if it has one.
    pub fn material(&self) -> (material: Option<Material<'a>>)
        ensures
            match material {
                Some(m) => m.gltf() == self.gltf() && self.spec_info().material == Some(m.id()),
                None => self.spec_info().material is None,
            },
    {
        proof {
            use_type_invariant(self);
            use_type_invariant(self.gltf);
        }
        let mesh = &self.gltf.info.meshes[self.mesh as usize];
        assert(crate::gltf::valid::mesh_ok(*mesh, self.gltf.info.materials@.len() as int));
        match mesh.primitives[self.index].material {
            Some(id) => Some(Material { gltf: self.gltf, id }),
            None => None,
        }
    }
}

/// A material of a glTF file.
pub struct Material<'a> {
    gltf: &'a Gltf,
    id: MaterialId,
}

impl<'a> Material<'a> {
    #[verifier::type_invariant]
    spec fn inv(&self) -> bool {
        self.id < self.gltf.info.materials@.len()
    }

    /// The file that the material belongs to.
    pub closed spec fn gltf(&self) -> &'a Gltf {
        self.gltf
    }

    /// The identifier of the material.
    pub closed spec fn id(&self) -> MaterialId {
        self.id
    }

    /// What the file says of the material.
    pub open spec fn spec_info(&self) -> MaterialInfo {
        self.gltf()@.materials@[self.id() as int]
    }

    /// What the file says of the material.
    pub fn info(&self) -> (info: &'a MaterialInfo)
        ensures
            self.id() < self.gltf()@.materials@.len(),
            *info == self.spec_info(),
    {
        proof {
            use_type_invariant(self);
        }
        &self.gltf.info.materials[self.id as usize]
    }

    /// The name of the material, if it has one.
    pub fn name(&self) -> (name: Option<&'a str>)
        ensures
            match name {
                Some(n) => self.spec_info().name matches Some(s) && s@ == n@,
                None => self.spec_info().name is None,
            },
    {
        match &self.info().name {
            Some(s) => Some(s.as_str()),
            None => None,
        }
    }

    /// The texture that the file names as the base color texture of the
    /// material, if it names one.
    pub open spec fn base_color(&self) -> Option<TextureId> {
        match self.spec_info().pbr_metallic_roughness {
            Some(pbr) => match pbr.base_color_texture {
                Some(texture) => Some(texture.texture),
                None => None,
            },
            None => None,
        }
    }

    /// The base color texture of the material, if it has one.
    pub fn base_color_texture(&self) -> (texture: Option<Texture<'a>>)
        ensures
            match texture {
                Some(t) => t.gltf() == self.gltf() && self.base_color() == Some(t.id()),
                None => self.base_color() is None,
            },
    {
        proof {
            use_type_invariant(self);
            use_type_invariant(self.gltf);
        }
        let info = &self.gltf.info.materials[self.id as usize];
        assert(crate::gltf::valid::material_ok(*info, self.gltf.info.textures@.len() as int));
        match info.pbr_metallic_roughness {
            Some(pbr) => match pbr.base_color_texture {
                Some(texture) => Some(Texture { gltf: self.gltf, id: texture.texture }),
                None => None,
            },
            None => None,
        }
    }
}

/// A texture of a glTF file.
pub struct Texture<'a> {
    gltf: &'a Gltf,
    id: TextureId,
}

impl<'a> Texture<'a> {
    #[verifier::type_invariant]
    spec fn inv(&self) -> bool {
        self.id < self.gltf.info.textures@.len()
    }

    /// The file that the texture belongs to.
    pub closed spec fn gltf(&self) -> &'a Gltf {
        self.gltf
    }

    /// The identifier of the texture.
    pub closed spec fn id(&self) -> TextureId {
        self.id
    }

    /// What the file says of the texture.
    pub open spec fn spec_info(&self) -> TextureInfo {
        self.gltf()@.textures@[self.id() as int]
    }

    /// What the file says of the texture.
    pub fn info(&self) -> (info: &'a TextureInfo)
        ensures
            self.id() < self.gltf()@.textures@.len(),
            *info == self.spec_info(),
    {
        proof {
            use_type_invariant(self);
        }
        &self.gltf.info.textures[self.id as usize]
    }

    /// The name of the texture, if it has one.
    pub fn name(&self) -> (name: Option<&'a str>)
        ensures
            match name {
                Some(n) => self.spec_info().name matches Some(s) && s@ == n@,
                None => self.spec_info().name is None,
            },
    {
        match &self.info().name {
            Some(s) => Some(s.as_str()),
            None => None,
        }
    }

    /// Whether the file names an image for the texture.
    pub fn has_image(&self) -> (has: bool)
        ensures
            has == self.spec_info().source.is_some(),
    {
        self.info().source.is_some()
    }

    /// The image used by the texture. The texture must name one.
    pub fn image(&self) -> (image: Image<'a>)
        requires
            self.spec_info().source is Some,
        ensures
            image.gltf() == self.gltf(),
            self.spec_info().source == Some(image.id()),
    {
        proof {
            use_type_invariant(self);
            use_type_invariant(self.gltf);
        }
        let info = &self.gltf.info.textures[self.id as usize];
        assert(crate::gltf::valid::texture_ok(*info, self.gltf.info.images@.len() as int));
        match info.source {
            Some(id) => Image { gltf: self.gltf, id },
            None => Image { gltf: self.gltf, id: 0 },
        }
    }
}

/// An image of a glTF file.
pub struct Image<'a> {
    gltf: &'a Gltf,
    id: ImageId,
}

/// A reference to the source data of an image that can be kept apart from
/// the file that named it.
#[derive(Clone, PartialEq, Eq, Hash)]
pub enum ImageSource {
    /// The image is an asset of its own.
    Asset(AssetPath),
}

impl<'a> Image<'a> {
    #[verifier::type_invariant]
    spec fn inv(&self) -> bool {
        self.id < self.gltf.info.images@.len()
    }

    /// The file that the image belongs to.
    pub closed spec fn gltf(&self) -> &'a Gltf {
        self.gltf
    }

    /// The identifier of the image.
    pub closed spec fn id(&self) -> ImageId {
        self.id
    }

    /// What the file says of the image.
    pub open spec fn spec_info(&self) -> ImageInfo {
        self.gltf()@.images@[self.id() as int]
    }

    /// What the file says of the image.
    pub fn info(&self) -> (info: &'a ImageInfo)
        ensures
            self.id() < self.gltf()@.images@.len(),
            *info == self.spec_info(),
    {
        proof {
            use_type_invariant(self);
        }
        &self.gltf.info.images[self.id as usize]
    }

    /// Whether the image is an asset of its own: it names a source and is
    /// not stored in a buffer view.
    pub fn is_asset(&self) -> (is: bool)
        ensures
            is == (self.spec_info().buffer_view is None && self.spec_info().uri is Some),
    {
        let info = self.info();
        info.buffer_view.is_none() && info.uri.is_some()
    }

    /// A reference to the source data of the image: the asset that its
    /// source denotes relative to the directory of the file. The image
    /// must be an asset of its own.
    pub fn source(&self) -> (source: ImageSource)
        requires
            self.spec_info().buffer_view is None,
            self.spec_info().uri is Some,
        ensures
            source matches ImageSource::Asset(path) && path.root() == self.gltf().dir().root()
                && path.inner() == resolve(self.gltf().dir().inner(), self.spec_info().uri->0@),
    {
        match &self.info().uri {
            Some(uri) => ImageSource::Asset(self.gltf.dir.relative(uri.as_str())),
            None => ImageSource::Asset(self.gltf.dir.clone()),
        }
    }
}

} // verus!
