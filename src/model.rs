//! Models: the meshes loaded from one model file.

use crate::assets_cache::{AssetsCache, TextureState, load_all, lemma_load_all_keeps, lemma_load_all_append};
use crate::identity::{parent_dir, path_hash_of, parent_of};
use crate::mesh::{
    Mesh, MeshSpec, ObjData, ObjDataSpec, TextureKind, TextureSpec, mesh_requests, requests_upto,
    texture_requests, duplicate_indices, request_views, str_opt_view,
};
use vstd::prelude::*;

verus! {

/// Where the plane that 2D sprites are drawn on is read from.
pub const PLANE_MODEL_PATH: &'static str = "resources/defaults/plane.obj";

/// The meshes of one model file and the directory its textures are read from.
pub struct Model {
    pub meshes: Vec<Mesh>,
    pub directory: String,
}

pub struct ModelSpec {
    pub meshes: Seq<MeshSpec>,
    pub directory: Seq<char>,
}

impl View for Model {
    type V = ModelSpec;

    open spec fn view(&self) -> ModelSpec {
        ModelSpec { meshes: self.meshes@.map_values(|m: Mesh| m@), directory: self.directory@ }
    }
}

pub open spec fn obj_opt_view(o: Option<ObjData>) -> Option<ObjDataSpec> {
    match o {
        Some(d) => Some(d@),
        None => None,
    }
}

/// Parsed data the loader can take: absent, or with valid material indices.
pub open spec fn obj_opt_wf(o: Option<ObjDataSpec>) -> bool {
    match o {
        Some(d) => d.wf(),
        None => true,
    }
}

/// Mesh `m` is sub-mesh `k` of `d`, with the textures its requests resolve
/// to in `loaded`.
pub open spec fn mesh_matches(
    m: MeshSpec,
    d: ObjDataSpec,
    k: int,
    diffuse_override: Option<Seq<char>>,
    skip_textures: bool,
    loaded: Map<u64, TextureSpec>,
) -> bool {
    &&& m.buffers == d.meshes[k].buffers
    &&& m.indices == d.meshes[k].indices
    &&& m.textures == mesh_requests(d, k, diffuse_override, skip_textures).map_values(
        |q: (Seq<char>, TextureKind)| loaded[path_hash_of(q.0)],
    )
}

/// Every texture sub-mesh `k` of `d` asks for is in `loaded`.
pub open spec fn requests_loaded(
    d: ObjDataSpec,
    k: int,
    diffuse_override: Option<Seq<char>>,
    skip_textures: bool,
    loaded: Map<u64, TextureSpec>,
) -> bool {
    forall|j: int|
        0 <= j < mesh_requests(d, k, diffuse_override, skip_textures).len() ==> loaded.contains_key(
            path_hash_of(#[trigger] mesh_requests(d, k, diffuse_override, skip_textures)[j].0),
        )
}

/// `m` is the model loaded from `data` with its textures looked up in
/// `loaded`, read from directory `dir`. Absent data gives a model without
/// meshes.
pub open spec fn built_from(
    m: ModelSpec,
    dir: Seq<char>,
    data: Option<ObjDataSpec>,
    diffuse_override: Option<Seq<char>>,
    skip_textures: bool,
    loaded: Map<u64, TextureSpec>,
) -> bool {
    &&& m.directory == dir
    &&& match data {
        None => m.meshes.len() == 0,
        Some(d) => {
            &&& m.meshes.len() == d.meshes.len()
            &&& forall|k: int|
                0 <= k < d.meshes.len() ==> mesh_matches(
                    #[trigger] m.meshes[k],
                    d,
                    k,
                    diffuse_override,
                    skip_textures,
                    loaded,
                )
        },
    }
}

/// The texture side of the cache after loading `data`: every request of
/// every sub-mesh, in order.
pub open spec fn textures_after(
    before: TextureState,
    dir: Seq<char>,
    data: Option<ObjDataSpec>,
    diffuse_override: Option<Seq<char>>,
    skip_textures: bool,
) -> TextureState {
    match data {
        None => before,
        Some(d) => load_all(
            before,
            dir,
            requests_upto(d, d.meshes.len() as int, diffuse_override, skip_textures),
        ),
    }
}

proof fn lemma_mesh_stable(
    m: MeshSpec,
    d: ObjDataSpec,
    k: int,
    ovr: Option<Seq<char>>,
    skip: bool,
    l1: Map<u64, TextureSpec>,
    l2: Map<u64, TextureSpec>,
)
    requires
        mesh_matches(m, d, k, ovr, skip, l1),
        requests_loaded(d, k, ovr, skip, l1),
        forall|h: u64| #[trigger] l1.contains_key(h) ==> l2.contains_key(h) && l2[h] == l1[h],
    ensures
        mesh_matches(m, d, k, ovr, skip, l2),
        requests_loaded(d, k, ovr, skip, l2),
{
    let reqs = mesh_requests(d, k, ovr, skip);
    assert forall|j: int| 0 <= j < reqs.len() implies l2.contains_key(
        path_hash_of(#[trigger] reqs[j].0),
    ) by {
        assert(l1.contains_key(path_hash_of(reqs[j].0)));
    }
    assert(reqs.map_values(|q: (Seq<char>, TextureKind)| l1[path_hash_of(q.0)]) =~= reqs.map_values(
        |q: (Seq<char>, TextureKind)| l2[path_hash_of(q.0)],
    )) by {
        assert forall|j: int| 0 <= j < reqs.len() implies l1[path_hash_of(reqs[j].0)]
            == l2[path_hash_of(reqs[j].0)] by {
            assert(l1.contains_key(path_hash_of(reqs[j].0)));
        }
    }
}

impl Model {
    /// A copy of the model that shares its GPU buffers and textures.
    pub fn duplicate(&self) -> (r: Model)
        ensures
            r@ == self@,
    {
        let mut meshes: Vec<Mesh> = Vec::new();
        let mut i: usize = 0;
        while i < self.meshes.len()
            invariant
                i <= self.meshes.len(),
                meshes.len() == i,
                forall|j: int| 0 <= j < i ==> (#[trigger] meshes@[j])@ == self.meshes@[j]@,
            decreases self.meshes.len() - i,
        {
            meshes.push(self.meshes[i].duplicate());
            i = i + 1;
        }
        let r = Model { meshes, directory: self.directory.clone() };
        assert(r@.meshes =~= self@.meshes);
        r
    }

    /// The model at `path`, from what the model-file parser gave for it
    /// (`None` where the file is missing or unreadable, which gives a model
    /// without meshes). Each sub-mesh's textures are resolved through `cache`,
    /// unless `skip_textures` is set.
    pub fn new_ext(
        path: &str,
        diff_texture: Option<&str>,
        data: Option<ObjData>,
        cache: &mut AssetsCache,
        skip_textures: bool,
    ) -> (r: Model)
        requires
            old(cache).wf(),
            obj_opt_wf(obj_opt_view(data)),
        ensures
            final(cache).wf(),
            final(cache).model_map() == old(cache).model_map(),
            final(cache).texture_state() == textures_after(
                old(cache).texture_state(),
                parent_of(path@),
                obj_opt_view(data),
                str_opt_view(diff_texture),
                skip_textures,
            ),
            built_from(
                r@,
                parent_of(path@),
                obj_opt_view(data),
                str_opt_view(diff_texture),
                skip_textures,
                final(cache).texture_state().loaded,
            ),
    {
        let directory = parent_dir(path);
        let ghost ovr = str_opt_view(diff_texture);
        let ghost dir = directory@;
        let ghost st0 = cache.texture_state();
        let mut meshes: Vec<Mesh> = Vec::new();
        match data {
            None => {
                let r = Model { meshes, directory };
                assert(r@.meshes =~= Seq::<MeshSpec>::empty());
                r
            },
            Some(d) => {
                let ghost dv = d@;
                let mut i: usize = 0;
                assert(requests_upto(dv, 0, ovr, skip_textures) =~= seq![]);
                while i < d.meshes.len()
                    invariant
                        i <= d.meshes.len(),
                        dv == d@,
                        ovr == str_opt_view(diff_texture),
                        dv.wf(),
                        dir == directory@,
                        cache.wf(),
                        cache.model_map() == old(cache).model_map(),
                        cache.texture_state() == load_all(
                            st0,
                            dir,
                            requests_upto(dv, i as int, ovr, skip_textures),
                        ),
                        meshes.len() == i,
                        forall|k: int|
                            0 <= k < i ==> mesh_matches(
                                (#[trigger] meshes@[k])@,
                                dv,
                                k,
                                ovr,
                                skip_textures,
                                cache.texture_state().loaded,
                            ),
                        forall|k: int|
                            0 <= k < i ==> #[trigger] requests_loaded(
                                dv,
                                k,
                                ovr,
                                skip_textures,
                                cache.texture_state().loaded,
                            ),
                    decreases d.meshes.len() - i,
                {
                    let ghost before = cache.texture_state();
                    let reqs = texture_requests(&d, i, diff_texture, skip_textures);
                    let textures = cache.resolve_textures(directory.as_str(), &reqs);
                    let ghost qs = request_views(reqs@);
                    let ghost after = cache.texture_state();
                    proof {
                        lemma_load_all_keeps(before, dir, qs);
                        lemma_load_all_append(
                            st0,
                            dir,
                            requests_upto(dv, i as int, ovr, skip_textures),
                            qs,
                        );
                        assert forall|k: int| 0 <= k < i implies mesh_matches(
                            (#[trigger] meshes@[k])@,
                            dv,
                            k,
                            ovr,
                            skip_textures,
                            after.loaded,
                        ) && requests_loaded(dv, k, ovr, skip_textures, after.loaded) by {
                            lemma_mesh_stable(
                                meshes@[k]@,
                                dv,
                                k,
                                ovr,
                                skip_textures,
                                before.loaded,
                                after.loaded,
                            );
                        }
                    }
                    let sub = &d.meshes[i];
                    assert(dv.meshes[i as int] == sub@);
                    let m = Mesh {
                        buffers: sub.buffers,
                        indices: duplicate_indices(&sub.indices),
                        textures,
                    };
                    let ghost prev = meshes@;
                    meshes.push(m);
                    proof {
                        assert(qs =~= mesh_requests(dv, i as int, ovr, skip_textures));
                        assert(mesh_matches(meshes@[i as int]@, dv, i as int, ovr, skip_textures, after.loaded));
                        assert forall|j: int|
                            0 <= j < mesh_requests(dv, i as int, ovr, skip_textures).len() implies after.loaded.contains_key(
                            path_hash_of(#[trigger] mesh_requests(dv, i as int, ovr, skip_textures)[j].0),
                        ) by {
                            assert(qs[j] == mesh_requests(dv, i as int, ovr, skip_textures)[j]);
                        }
                        assert(requests_loaded(dv, i as int, ovr, skip_textures, after.loaded));
                        assert forall|k: int| 0 <= k < i implies mesh_matches(
                            (#[trigger] meshes@[k])@,
                            dv,
                            k,
                            ovr,
                            skip_textures,
                            after.loaded,
                        ) by {
                            assert(meshes@[k] == prev[k]);
                        }
                        assert forall|k: int| 0 <= k < i implies #[trigger] requests_loaded(
                            dv,
                            k,
                            ovr,
                            skip_textures,
                            after.loaded,
                        ) by {
                            assert(meshes@[k] == prev[k]);
                        }
                    }
                    i = i + 1;
                }
                let r = Model { meshes, directory };
                r
            },
        }
    }

    /// The model at `path` with the textures its materials name.
    pub fn new(path: &str, data: Option<ObjData>, cache: &mut AssetsCache) -> (r: Model)
        requires
            old(cache).wf(),
            obj_opt_wf(obj_opt_view(data)),
        ensures
            final(cache).wf(),
            final(cache).model_map() == old(cache).model_map(),
            final(cache).texture_state() == textures_after(
                old(cache).texture_state(),
                parent_of(path@),
                obj_opt_view(data),
                None,
                false,
            ),
            built_from(
                r@,
                parent_of(path@),
                obj_opt_view(data),
                None,
                false,
                final(cache).texture_state().loaded,
            ),
    {
        Model::new_ext(path, None, data, cache, false)
    }

    /// The plane that 2D sprites are drawn on, from what the parser gave for
    /// `PLANE_MODEL_PATH`; its meshes get no textures of their own.
    pub fn new_2d(cache: &mut AssetsCache, data: Option<ObjData>) -> (r: Model)
        requires
            old(cache).wf(),
            obj_opt_wf(obj_opt_view(data)),
        ensures
            final(cache).wf(),
            final(cache).model_map() == old(cache).model_map(),
            final(cache).texture_state() == old(cache).texture_state(),
            built_from(
                r@,
                parent_of(PLANE_MODEL_PATH@),
                obj_opt_view(data),
                None,
                true,
                final(cache).texture_state().loaded,
            ),
    {
        let r = Model::new_ext(PLANE_MODEL_PATH, None, data, cache, true);
        proof {
            if let Some(d) = obj_opt_view(data) {
                lemma_requests_skipped(d, d.meshes.len() as int);
                assert(load_all(old(cache).texture_state(), parent_of(PLANE_MODEL_PATH@), seq![])
                    == old(cache).texture_state());
            }
        }
        r
    }
}

/// With textures skipped, no sub-mesh asks for any.
proof fn lemma_requests_skipped(d: ObjDataSpec, n: int)
    ensures
        requests_upto(d, n, None, true) =~= seq![],
    decreases n,
{
    if n > 0 {
        lemma_requests_skipped(d, n - 1);
    }
}

} // verus!
