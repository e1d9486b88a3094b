//! The references between the objects of a glTF file, and the check that
//! each of them leads to an object that the file defines.

use vstd::prelude::*;
use crate::gltf::info::{
    AccessorInfo, BufferViewInfo, GltfInfo, MaterialInfo, MeshInfo, NodeInfo, SceneInfo,
    TextureInfo,
};

verus! {

/// The number of nodes that identifiers can tell apart.
pub const MAX_NODES: u64 = 0x1_0000_0000;

/// Every identifier in `ids` is below `bound`.
pub open spec fn ids_below(ids: Seq<u32>, bound: int) -> bool {
    forall|j: int| 0 <= j < ids.len() ==> ids[j] < bound
}

/// The identifier, if there is one, is below `bound`.
pub open spec fn opt_below(id: Option<u32>, bound: int) -> bool {
    match id {
        Some(i) => i < bound,
        None => true,
    }
}

/// The nodes of the scene are among `nodes` nodes.
pub open spec fn scene_ok(scene: SceneInfo, nodes: int) -> bool {
    ids_below(scene.nodes@, nodes)
}

/// The children of the node are among `nodes` nodes and its mesh among
/// `meshes` meshes.
pub open spec fn node_ok(node: NodeInfo, nodes: int, meshes: int) -> bool {
    ids_below(node.children@, nodes) && opt_below(node.mesh, meshes)
}

/// The materials of the primitives of the mesh are among `materials`
/// materials.
pub open spec fn mesh_ok(mesh: MeshInfo, materials: int) -> bool {
    forall|j: int|
        0 <= j < mesh.primitives@.len() ==> opt_below(
            (#[trigger] mesh.primitives@[j]).material,
            materials,
        )
}

/// The buffer view of the accessor is among `views` buffer views.
pub open spec fn accessor_ok(accessor: AccessorInfo, views: int) -> bool {
    opt_below(accessor.buffer_view, views)
}

/// The buffer of the buffer view is among `buffers` buffers.
pub open spec fn view_ok(view: BufferViewInfo, buffers: int) -> bool {
    view.buffer < buffers
}

/// The base color texture of the material is among `textures` textures.
pub open spec fn material_ok(material: MaterialInfo, textures: int) -> bool {
    match material.pbr_metallic_roughness {
        Some(pbr) => match pbr.base_color_texture {
            Some(texture) => texture.texture < textures,
            None => true,
        },
        None => true,
    }
}

/// The image of the texture is among `images` images.
pub open spec fn texture_ok(texture: TextureInfo, images: int) -> bool {
    opt_below(texture.source, images)
}

impl GltfInfo {
    /// Every reference in the file leads to an object that the file
    /// defines, and every node of the file has an identifier.
    pub open spec fn valid(&self) -> bool {
        &&& self.nodes@.len() <= MAX_NODES
        &&& opt_below(self.scene, self.scenes@.len() as int)
        &&& forall|i: int|
            0 <= i < self.scenes@.len() ==> scene_ok(
                #[trigger] self.scenes@[i],
                self.nodes@.len() as int,
            )
        &&& forall|i: int|
            0 <= i < self.nodes@.len() ==> node_ok(
                #[trigger] self.nodes@[i],
                self.nodes@.len() as int,
                self.meshes@.len() as int,
            )
        &&& forall|i: int|
            0 <= i < self.meshes@.len() ==> mesh_ok(
                #[trigger] self.meshes@[i],
                self.materials@.len() as int,
            )
        &&& forall|i: int|
            0 <= i < self.accessors@.len() ==> accessor_ok(
                #[trigger] self.accessors@[i],
                self.buffer_views@.len() as int,
            )
        &&& forall|i: int|
            0 <= i < self.buffer_views@.len() ==> view_ok(
                #[trigger] self.buffer_views@[i],
                self.buffers@.len() as int,
            )
        &&& forall|i: int|
            0 <= i < self.materials@.len() ==> material_ok(
                #[trigger] self.materials@[i],
                self.textures@.len() as int,
            )
        &&& forall|i: int|
            0 <= i < self.textures@.len() ==> texture_ok(
                #[trigger] self.textures@[i],
                self.images@.len() as int,
            )
    }

    /// Checks that every reference in the file leads to an object that the
    /// file defines, and that every node of the file has an identifier.
    pub fn validate(&self) -> (ok: bool)
        ensures
            ok == self.valid(),
    {
        self.nodes.len() as u64 <= MAX_NODES && check_opt(self.scene, self.scenes.len())
            && self.check_scenes() && self.check_nodes() && self.check_meshes()
            && self.check_accessors() && self.check_views() && self.check_materials()
            && self.check_textures()
    }

    fn check_scenes(&self) -> (ok: bool)
        ensures
            ok == (forall|i: int|
                0 <= i < self.scenes@.len() ==> scene_ok(
                    #[trigger] self.scenes@[i],
                    self.nodes@.len() as int,
                )),
    {
        let mut i: usize = 0;
        while i < self.scenes.len()
            invariant
                i <= self.scenes@.len(),
                forall|k: int|
                    0 <= k < i ==> scene_ok(#[trigger] self.scenes@[k], self.nodes@.len() as int),
            decreases self.scenes@.len() - i,
        {
            if !check_ids(&self.scenes[i].nodes, self.nodes.len()) {
                return false;
            }
            i = i + 1;
        }
        true
    }

    fn check_nodes(&self) -> (ok: bool)
        ensures
            ok == (forall|i: int|
                0 <= i < self.nodes@.len() ==> node_ok(
                    #[trigger] self.nodes@[i],
                    self.nodes@.len() as int,
                    self.meshes@.len() as int,
                )),
    {
        let mut i: usize = 0;
        while i < self.nodes.len()
            invariant
                i <= self.nodes@.len(),
                forall|k: int|
                    0 <= k < i ==> node_ok(
                        #[trigger] self.nodes@[k],
                        self.nodes@.len() as int,
                        self.meshes@.len() as int,
                    ),
            decreases self.nodes@.len() - i,
        {
            if !check_ids(&self.nodes[i].children, self.nodes.len()) || !check_opt(
                self.nodes[i].mesh,
                self.meshes.len(),
            ) {
                return false;
            }
            i = i + 1;
        }
        true
    }

    fn check_meshes(&self) -> (ok: bool)
        ensures
            ok == (forall|i: int|
                0 <= i < self.meshes@.len() ==> mesh_ok(
                    #[trigger] self.meshes@[i],
                    self.materials@.len() as int,
                )),
    {
        let mut i: usize = 0;
        while i < self.meshes.len()
            invariant
                i <= self.meshes@.len(),
                forall|k: int|
                    0 <= k < i ==> mesh_ok(
                        #[trigger] self.meshes@[k],
                        self.materials@.len() as int,
                    ),
            decreases self.meshes@.len() - i,
        {
            if !check_mesh(&self.meshes[i], self.materials.len()) {
                return false;
            }
            i = i + 1;
        }
        true
    }

    fn check_accessors(&self) -> (ok: bool)
        ensures
            ok == (forall|i: int|
                0 <= i < self.accessors@.len() ==> accessor_ok(
                    #[trigger] self.accessors@[i],
                    self.buffer_views@.len() as int,
                )),
    {
        let mut i: usize = 0;
        while i < self.accessors.len()
            invariant
                i <= self.accessors@.len(),
                forall|k: int|
                    0 <= k < i ==> accessor_ok(
                        #[trigger] self.accessors@[k],
                        self.buffer_views@.len() as int,
                    ),
            decreases self.accessors@.len() - i,
        {
            if !check_opt(self.accessors[i].buffer_view, self.buffer_views.len()) {
                return false;
            }
            i = i + 1;
        }
        true
    }

    fn check_views(&self) -> (ok: bool)
        ensures
            ok == (forall|i: int|
                0 <= i < self.buffer_views@.len() ==> view_ok(
                    #[trigger] self.buffer_views@[i],
                    self.buffers@.len() as int,
                )),
    {
        let mut i: usize = 0;
        while i < self.buffer_views.len()
            invariant
                i <= self.buffer_views@.len(),
                forall|k: int|
                    0 <= k < i ==> view_ok(
                        #[trigger] self.buffer_views@[k],
                        self.buffers@.len() as int,
                    ),
            decreases self.buffer_views@.len() - i,
        {
            if !check_id(self.buffer_views[i].buffer, self.buffers.len()) {
                return false;
            }
            i = i + 1;
        }
        true
    }

    fn check_materials(&self) -> (ok: bool)
        ensures
            ok == (forall|i: int|
                0 <= i < self.materials@.len() ==> material_ok(
                    #[trigger] self.materials@[i],
                    self.textures@.len() as int,
                )),
    {
        let mut i: usize = 0;
        while i < self.materials.len()
            invariant
                i <= self.materials@.len(),
                forall|k: int|
                    0 <= k < i ==> material_ok(
                        #[trigger] self.materials@[k],
                        self.textures@.len() as int,
                    ),
            decreases self.materials@.len() - i,
        {
            let ok = match self.materials[i].pbr_metallic_roughness {
                Some(pbr) => match pbr.base_color_texture {
                    Some(texture) => check_id(texture.texture, self.textures.len()),
                    None => true,
                },
                None => true,
            };
            if !ok {
                return false;
            }
            i = i + 1;
        }
        true
    }

    fn check_textures(&self) -> (ok: bool)
        ensures
            ok == (forall|i: int|
                0 <= i < self.textures@.len() ==> texture_ok(
                    #[trigger] self.textures@[i],
                    self.images@.len() as int,
                )),
    {
        let mut i: usize = 0;
        while i < self.textures.len()
            invariant
                i <= self.textures@.len(),
                forall|k: int|
                    0 <= k < i ==> texture_ok(
                        #[trigger] self.textures@[k],
                        self.images@.len() as int,
                    ),
            decreases self.textures@.len() - i,
        {
            if !check_opt(self.textures[i].source, self.images.len()) {
                return false;
            }
            i = i + 1;
        }
        true
    }
}

/// Whether the materials of the primitives of the mesh are among
/// `materials` materials.
pub fn check_mesh(mesh: &MeshInfo, materials: usize) -> (ok: bool)
    ensures
        ok == mesh_ok(*mesh, materials as int),
{
    let mut j: usize = 0;
    while j < mesh.primitives.len()
        invariant
            j <= mesh.primitives@.len(),
            forall|k: int|
                0 <= k < j ==> opt_below(
                    (#[trigger] mesh.primitives@[k]).material,
                    materials as int,
                ),
        decreases mesh.primitives@.len() - j,
    {
        if !check_opt(mesh.primitives[j].material, materials) {
            return false;
        }
        j = j + 1;
    }
    true
}

/// Whether the identifier is below `bound`.
pub fn check_id(id: u32, bound: usize) -> (ok: bool)
    ensures
        ok == (id < bound),
{
    (id as u64) < (bound as u64)
}

/// Whether the identifier, if there is one, is below `bound`.
pub fn check_opt(id: Option<u32>, bound: usize) -> (ok: bool)
    ensures
        ok == opt_below(id, bound as int),
{
    match id {
        Some(i) => check_id(i, bound),
        None => true,
    }
}

/// Whether every identifier in `ids` is below `bound`.
pub fn check_ids(ids: &Vec<u32>, bound: usize) -> (ok: bool)
    ensures
        ok == ids_below(ids@, bound as int),
{
    let mut j: usize = 0;
    while j < ids.len()
        invariant
            j <= ids@.len(),
            forall|k: int| 0 <= k < j ==> ids@[k] < bound,
        decreases ids@.len() - j,
    {
        if !check_id(ids[j], bound) {
            return false;
        }
        j = j + 1;
    }
    true
}

} // verus!
