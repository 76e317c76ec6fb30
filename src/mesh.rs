//! Meshes and textures as the renderer holds them: GPU handles, index data
//! and the textures each mesh samples.

use vstd::prelude::*;

verus! {

/// The role a texture plays in the lighting model.
#[derive(Clone, Copy, Debug, PartialEq, Eq, Structural)]
pub enum TextureKind {
    Diffuse,
    Specular,
    Normal,
}

impl TextureKind {
    /// The sampler name the shaders declare for this kind of texture.
    pub open spec fn spec_sampler_name(self) -> Seq<char> {
        match self {
            TextureKind::Diffuse => "texture_diffuse"@,
            TextureKind::Specular => "texture_specular"@,
            TextureKind::Normal => "texture_normal"@,
        }
    }

    pub fn sampler_name(&self) -> (r: &'static str)
        ensures
            r@ == self.spec_sampler_name(),
    {
        match self {
            TextureKind::Diffuse => "texture_diffuse",
            TextureKind::Specular => "texture_specular",
            TextureKind::Normal => "texture_normal",
        }
    }
}

/// A texture known to the asset cache. `id` is the identity of its source
/// path; the embedding application binds it to a GPU texture name when it
/// performs the upload.
pub struct Texture {
    pub id: u64,
    pub kind: TextureKind,
    pub path: String,
}

pub struct TextureSpec {
    pub id: u64,
    pub kind: TextureKind,
    pub path: Seq<char>,
}

impl View for Texture {
    type V = TextureSpec;

    open spec fn view(&self) -> TextureSpec {
        TextureSpec { id: self.id, kind: self.kind, path: self.path@ }
    }
}

/// The views of a sequence of textures.
pub open spec fn texture_views(s: Seq<Texture>) -> Seq<TextureSpec> {
    s.map_values(|t: Texture| t@)
}

impl Texture {
    /// A copy of the texture that refers to the same GPU texture.
    pub fn duplicate(&self) -> (r: Texture)
        ensures
            r@ == self@,
    {
        Texture { id: self.id, kind: self.kind, path: self.path.clone() }
    }
}

/// The GPU objects holding one mesh's vertex and index data.
#[derive(Clone, Copy, Debug, PartialEq, Eq, Structural)]
pub struct MeshBuffers {
    pub vao: u32,
    pub vbo: u32,
    pub ebo: u32,
}

/// One drawable piece of a model.
pub struct Mesh {
    pub buffers: MeshBuffers,
    pub indices: Vec<u32>,
    pub textures: Vec<Texture>,
}

pub struct MeshSpec {
    pub buffers: MeshBuffers,
    pub indices: Seq<u32>,
    pub textures: Seq<TextureSpec>,
}

impl View for Mesh {
    type V = MeshSpec;

    open spec fn view(&self) -> MeshSpec {
        MeshSpec {
            buffers: self.buffers,
            indices: self.indices@,
            textures: texture_views(self.textures@),
        }
    }
}

/// A copy of each texture of `ts`, in order.
fn duplicate_textures(ts: &Vec<Texture>) -> (r: Vec<Texture>)
    ensures
        texture_views(r@) == texture_views(ts@),
{
    let mut r: Vec<Texture> = Vec::new();
    let mut i: usize = 0;
    while i < ts.len()
        invariant
            i <= ts.len(),
            r.len() == i,
            forall|j: int| 0 <= j < i ==> r@[j]@ == ts@[j]@,
        decreases ts.len() - i,
    {
        r.push(ts[i].duplicate());
        i = i + 1;
    }
    assert(texture_views(r@) =~= texture_views(ts@));
    r
}

/// A copy of each index of `v`, in order.
pub(crate) fn duplicate_indices(v: &Vec<u32>) -> (r: Vec<u32>)
    ensures
        r@ == v@,
{
    let mut r: Vec<u32> = Vec::new();
    let mut i: usize = 0;
    while i < v.len()
        invariant
            i <= v.len(),
            r@ == v@.subrange(0, i as int),
        decreases v.len() - i,
    {
        r.push(v[i]);
        i = i + 1;
        assert(r@ =~= v@.subrange(0, i as int));
    }
    assert(v@.subrange(0, i as int) =~= v@);
    r
}

impl Mesh {
    /// A copy of the mesh that shares its GPU buffers and textures.
    pub fn duplicate(&self) -> (r: Mesh)
        ensures
            r@ == self@,
    {
        Mesh {
            buffers: self.buffers,
            indices: duplicate_indices(&self.indices),
            textures: duplicate_textures(&self.textures),
        }
    }
}

} // verus!

verus! {

/// The texture maps a material names; an empty name means the map is absent.
pub struct MaterialMaps {
    pub diffuse: String,
    pub specular: String,
    pub normal: String,
}

pub struct MaterialSpec {
    pub diffuse: Seq<char>,
    pub specular: Seq<char>,
    pub normal: Seq<char>,
}

impl View for MaterialMaps {
    type V = MaterialSpec;

    open spec fn view(&self) -> MaterialSpec {
        MaterialSpec { diffuse: self.diffuse@, specular: self.specular@, normal: self.normal@ }
    }
}

/// One sub-mesh of a parsed model file, its vertex data already on the GPU.
pub struct SubMesh {
    pub buffers: MeshBuffers,
    pub indices: Vec<u32>,
    pub material: Option<usize>,
}

pub struct SubMeshSpec {
    pub buffers: MeshBuffers,
    pub indices: Seq<u32>,
    pub material: Option<usize>,
}

impl View for SubMesh {
    type V = SubMeshSpec;

    open spec fn view(&self) -> SubMeshSpec {
        SubMeshSpec { buffers: self.buffers, indices: self.indices@, material: self.material }
    }
}

/// What the model-file parser hands over: the sub-meshes and the materials
/// they refer to by index.
pub struct ObjData {
    pub meshes: Vec<SubMesh>,
    pub materials: Vec<MaterialMaps>,
}

pub struct ObjDataSpec {
    pub meshes: Seq<SubMeshSpec>,
    pub materials: Seq<MaterialSpec>,
}

impl View for ObjData {
    type V = ObjDataSpec;

    open spec fn view(&self) -> ObjDataSpec {
        ObjDataSpec {
            meshes: self.meshes@.map_values(|m: SubMesh| m@),
            materials: self.materials@.map_values(|m: MaterialMaps| m@),
        }
    }
}

impl ObjDataSpec {
    /// Every material reference names one of the materials.
    pub open spec fn wf(self) -> bool {
        forall|i: int|
            0 <= i < self.meshes.len() ==> ((#[trigger] self.meshes[i]).material matches Some(id)
                ==> id < self.materials.len())
    }
}

/// A texture to resolve through the cache: its path and the role it is
/// first loaded in.
pub struct TextureRequest {
    pub path: String,
    pub kind: TextureKind,
}

impl View for TextureRequest {
    type V = (Seq<char>, TextureKind);

    open spec fn view(&self) -> (Seq<char>, TextureKind) {
        (self.path@, self.kind)
    }
}

/// The view of an optional string.
pub open spec fn str_opt_view(o: Option<&str>) -> Option<Seq<char>> {
    match o {
        Some(s) => Some(s@),
        None => None,
    }
}

/// The views of a sequence of texture requests.
pub open spec fn request_views(s: Seq<TextureRequest>) -> Seq<(Seq<char>, TextureKind)> {
    s.map_values(|q: TextureRequest| q@)
}

/// The textures a material asks for: diffuse, specular, then normal map,
/// each only where the material names one.
pub open spec fn material_requests(m: MaterialSpec) -> Seq<(Seq<char>, TextureKind)> {
    (if m.diffuse.len() > 0 { seq![(m.diffuse, TextureKind::Diffuse)] } else { seq![] }) + (
    if m.specular.len() > 0 { seq![(m.specular, TextureKind::Specular)] } else { seq![] }) + (
    if m.normal.len() > 0 { seq![(m.normal, TextureKind::Normal)] } else { seq![] })
}

/// The textures sub-mesh `i` of `d` asks for. Textures are skipped
/// altogether, taken from the sub-mesh's material, or else from the diffuse
/// override; with neither the mesh has none.
pub open spec fn mesh_requests(
    d: ObjDataSpec,
    i: int,
    diffuse_override: Option<Seq<char>>,
    skip_textures: bool,
) -> Seq<(Seq<char>, TextureKind)> {
    if skip_textures {
        seq![]
    } else {
        match d.meshes[i].material {
            Some(id) => material_requests(d.materials[id as int]),
            None => match diffuse_override {
                Some(p) => seq![(p, TextureKind::Diffuse)],
                None => seq![],
            },
        }
    }
}

/// The requests of the first `n` sub-meshes of `d`, in order.
pub open spec fn requests_upto(
    d: ObjDataSpec,
    n: int,
    diffuse_override: Option<Seq<char>>,
    skip_textures: bool,
) -> Seq<(Seq<char>, TextureKind)>
    decreases n,
{
    if n <= 0 {
        seq![]
    } else {
        requests_upto(d, n - 1, diffuse_override, skip_textures) + mesh_requests(
            d,
            n - 1,
            diffuse_override,
            skip_textures,
        )
    }
}

fn push_if_named(reqs: &mut Vec<TextureRequest>, name: &String, kind: TextureKind)
    ensures
        request_views(final(reqs)@) == request_views(old(reqs)@) + (if name@.len() > 0 { seq![(name@, kind)] } else { seq![] }),
{
    if !name.as_str().is_empty() {
        reqs.push(TextureRequest { path: name.clone(), kind });
    }
    assert(request_views(final(reqs)@) =~= request_views(old(reqs)@) + (if name@.len() > 0 { seq![(name@, kind)] } else { seq![] }));
}

/// The textures sub-mesh `i` of `d` asks for, as `mesh_requests` states.
pub fn texture_requests(
    d: &ObjData,
    i: usize,
    diffuse_override: Option<&str>,
    skip_textures: bool,
) -> (r: Vec<TextureRequest>)
    requires
        d@.wf(),
        i < d.meshes.len(),
    ensures
        request_views(r@) == mesh_requests(
            d@,
            i as int,
            str_opt_view(diffuse_override),
            skip_textures,
        ),
{
    let mut r: Vec<TextureRequest> = Vec::new();
    if skip_textures {
        assert(request_views(r@) =~= seq![]);
        return r;
    }
    assert(d@.meshes[i as int] == d.meshes[i as int]@);
    match d.meshes[i].material {
        Some(id) => {
            assert(d@.meshes[i as int].material == Some(id));
            let m = &d.materials[id];
            assert(d@.materials[id as int] == m@);
            push_if_named(&mut r, &m.diffuse, TextureKind::Diffuse);
            push_if_named(&mut r, &m.specular, TextureKind::Specular);
            push_if_named(&mut r, &m.normal, TextureKind::Normal);
            assert(request_views(r@) =~= material_requests(m@));
        },
        None => match diffuse_override {
            Some(p) => {
                r.push(TextureRequest { path: p.to_owned(), kind: TextureKind::Diffuse });
                assert(request_views(r@) =~= seq![(p@, TextureKind::Diffuse)]);
            },
            None => {
                assert(request_views(r@) =~= seq![]);
            },
        },
    }
    r
}

} // verus!
