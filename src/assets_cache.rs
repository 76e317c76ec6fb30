//! The asset cache: loads each texture and model once per identity and hands
//! out shared copies afterwards.

use crate::identity::{hash_path, parent_dir, file_name, path_hash_of, parent_of, file_name_of};
use crate::mesh::{
    Mesh, Texture, TextureKind, TextureSpec, TextureRequest, ObjData, ObjDataSpec, texture_views,
    request_views, str_opt_view,
};
use crate::model::{
    Model, ModelSpec, built_from, textures_after, obj_opt_view, obj_opt_wf, PLANE_MODEL_PATH,
};
use std::collections::HashMap;
use vstd::prelude::*;

verus! {

broadcast use vstd::std_specs::hash::group_hash_axioms;

/// A texture whose image still has to be decoded and uploaded by the
/// application, under handle `id`, from `path` relative to `directory`.
pub struct TextureUpload {
    pub id: u64,
    pub directory: String,
    pub path: String,
}

pub struct UploadSpec {
    pub id: u64,
    pub directory: Seq<char>,
    pub path: Seq<char>,
}

impl View for TextureUpload {
    type V = UploadSpec;

    open spec fn view(&self) -> UploadSpec {
        UploadSpec { id: self.id, directory: self.directory@, path: self.path@ }
    }
}

/// The texture side of the cache: what is loaded, and what awaits upload.
pub struct TextureState {
    pub loaded: Map<u64, TextureSpec>,
    pub uploads: Seq<UploadSpec>,
}

/// Resolving one request: a cached identity is left as it is; a new one is
/// recorded in the role of this request and queued for upload.
pub open spec fn load_step(
    st: TextureState,
    dir: Seq<char>,
    req: (Seq<char>, TextureKind),
) -> TextureState {
    let h = path_hash_of(req.0);
    if st.loaded.contains_key(h) {
        st
    } else {
        TextureState {
            loaded: st.loaded.insert(h, TextureSpec { id: h, kind: req.1, path: req.0 }),
            uploads: st.uploads.push(UploadSpec { id: h, directory: dir, path: req.0 }),
        }
    }
}

/// Resolving a sequence of requests in order.
pub open spec fn load_all(
    st: TextureState,
    dir: Seq<char>,
    reqs: Seq<(Seq<char>, TextureKind)>,
) -> TextureState
    decreases reqs.len(),
{
    if reqs.len() == 0 {
        st
    } else {
        load_step(load_all(st, dir, reqs.drop_last()), dir, reqs.last())
    }
}

/// Resolving requests keeps every texture already loaded and ends with each
/// requested identity loaded.
pub proof fn lemma_load_all_keeps(
    st: TextureState,
    dir: Seq<char>,
    reqs: Seq<(Seq<char>, TextureKind)>,
)
    ensures
        forall|h: u64|
            #[trigger] st.loaded.contains_key(h) ==> load_all(st, dir, reqs).loaded.contains_key(h)
                && load_all(st, dir, reqs).loaded[h] == st.loaded[h],
        forall|j: int|
            0 <= j < reqs.len() ==> load_all(st, dir, reqs).loaded.contains_key(
                path_hash_of(#[trigger] reqs[j].0),
            ),
    decreases reqs.len(),
{
    if reqs.len() > 0 {
        lemma_load_all_keeps(st, dir, reqs.drop_last());
        let mid = load_all(st, dir, reqs.drop_last());
        assert forall|h: u64| st.loaded.contains_key(h) implies load_all(
            st,
            dir,
            reqs,
        ).loaded.contains_key(h) && load_all(st, dir, reqs).loaded[h] == st.loaded[h] by {
            assert(mid.loaded.contains_key(h));
        }
        assert forall|j: int| 0 <= j < reqs.len() implies load_all(
            st,
            dir,
            reqs,
        ).loaded.contains_key(path_hash_of(#[trigger] reqs[j].0)) by {
            if j < reqs.len() - 1 {
                assert(reqs.drop_last()[j] == reqs[j]);
            }
        }
    }
}

/// Resolving `a + b` is resolving `a`, then `b`.
pub proof fn lemma_load_all_append(
    st: TextureState,
    dir: Seq<char>,
    a: Seq<(Seq<char>, TextureKind)>,
    b: Seq<(Seq<char>, TextureKind)>,
)
    ensures
        load_all(st, dir, a + b) == load_all(load_all(st, dir, a), dir, b),
    decreases b.len(),
{
    if b.len() == 0 {
        assert(a + b =~= a);
    } else {
        assert((a + b).drop_last() =~= a + b.drop_last());
        assert((a + b).last() == b.last());
        lemma_load_all_append(st, dir, a, b.drop_last());
    }
}

/// Owns every texture and model loaded so far, keyed by the identity of the
/// path each came from.
pub struct AssetsCache {
    textures: HashMap<u64, Texture>,
    models: HashMap<u64, Model>,
    uploads: Vec<TextureUpload>,
}

impl AssetsCache {
    pub closed spec fn texture_state(&self) -> TextureState {
        TextureState {
            loaded: self.textures@.map_values(|t: Texture| t@),
            uploads: self.uploads@.map_values(|u: TextureUpload| u@),
        }
    }

    pub closed spec fn model_map(&self) -> Map<u64, ModelSpec> {
        self.models@.map_values(|m: Model| m@)
    }

    /// Every texture is stored under its own identity.
    pub closed spec fn wf(&self) -> bool {
        forall|h: u64| #[trigger]
            self.textures@.contains_key(h) ==> self.textures@[h].id == h
    }

    /// An empty cache.
    pub fn new() -> (r: AssetsCache)
        ensures
            r.wf(),
            r.texture_state().loaded.is_empty(),
            r.texture_state().uploads.len() == 0,
            r.model_map().is_empty(),
    {
        let r = AssetsCache { textures: HashMap::new(), models: HashMap::new(), uploads: Vec::new() };
        assert(r.texture_state().loaded =~= Map::empty());
        assert(r.model_map() =~= Map::empty());
        r
    }

    /// The identity of the asset at `path`.
    pub fn path_hash(path: &str) -> (r: u64)
        ensures
            r == path_hash_of(path@),
    {
        hash_path(path)
    }

    /// The texture at `path`, loaded on first request: a cached identity
    /// gives back the cached texture whatever role is asked for now; a new one
    /// is recorded in the role `kind` and queued for upload from `dir`.
    pub fn get_material_texture(&mut self, dir: &str, path: &str, kind: TextureKind) -> (r: Texture)
        requires
            old(self).wf(),
        ensures
            final(self).wf(),
            final(self).texture_state() == load_step(old(self).texture_state(), dir@, (path@, kind)),
            final(self).model_map() == old(self).model_map(),
            final(self).texture_state().loaded.contains_key(path_hash_of(path@)),
            r@ == final(self).texture_state().loaded[path_hash_of(path@)],
    {
        let h = hash_path(path);
        match self.textures.get(&h) {
            Some(t) => t.duplicate(),
            None => {
                let t = Texture { id: h, kind, path: path.to_owned() };
                self.textures.insert(h, t.duplicate());
                self.uploads.push(
                    TextureUpload { id: h, directory: dir.to_owned(), path: path.to_owned() },
                );
                assert(self.texture_state().loaded =~= old(self).texture_state().loaded.insert(
                    h,
                    t@,
                ));
                assert(self.texture_state().uploads =~= old(self).texture_state().uploads.push(
                    UploadSpec { id: h, directory: dir@, path: path@ },
                ));
                t
            },
        }
    }

    /// Resolves each request in order through `get_material_texture`, and
    /// returns the textures that answer them.
    pub fn resolve_textures(&mut self, dir: &str, reqs: &Vec<TextureRequest>) -> (r: Vec<Texture>)
        requires
            old(self).wf(),
        ensures
            final(self).wf(),
            final(self).texture_state() == load_all(
                old(self).texture_state(),
                dir@,
                request_views(reqs@),
            ),
            final(self).model_map() == old(self).model_map(),
            texture_views(r@) == request_views(reqs@).map_values(
                |q: (Seq<char>, TextureKind)| final(self).texture_state().loaded[path_hash_of(q.0)],
            ),
    {
        let ghost qs = request_views(reqs@);
        let mut r: Vec<Texture> = Vec::new();
        let mut i: usize = 0;
        while i < reqs.len()
            invariant
                i <= reqs.len(),
                qs == request_views(reqs@),
                self.wf(),
                self.texture_state() == load_all(old(self).texture_state(), dir@, qs.subrange(0, i as int)),
                self.model_map() == old(self).model_map(),
                r.len() == i,
                forall|j: int| 0 <= j < i ==> self.texture_state().loaded.contains_key(path_hash_of(qs[j].0)),
                forall|j: int| 0 <= j < i ==> (#[trigger] r@[j])@ == self.texture_state().loaded[path_hash_of(qs[j].0)],
            decreases reqs.len() - i,
        {
            let ghost before = self.texture_state();
            let t = self.get_material_texture(dir, reqs[i].path.as_str(), reqs[i].kind);
            r.push(t);
            proof {
                assert(qs[i as int] == (reqs@[i as int].path@, reqs@[i as int].kind));
                assert(qs.subrange(0, i + 1).drop_last() =~= qs.subrange(0, i as int));
                assert(before.loaded.contains_key(path_hash_of(qs[i as int].0)) ==> self.texture_state() == before);
            }
            i = i + 1;
        }
        assert(qs.subrange(0, i as int) =~= qs);
        assert(texture_views(r@) =~= qs.map_values(
            |q: (Seq<char>, TextureKind)| self.texture_state().loaded[path_hash_of(q.0)],
        ));
        r
    }

    /// Whether a model from `path` is cached.
    pub fn has_model(&self, path: &str) -> (r: bool)
        ensures
            r == self.model_map().contains_key(path_hash_of(path@)),
    {
        let h = hash_path(path);
        self.models.contains_key(&h)
    }

    /// The cached model of identity `hash`, if there is one.
    pub fn get_model_by_hash(&self, hash: &u64) -> (r: Option<Model>)
        ensures
            match r {
                Some(m) => self.model_map().contains_key(*hash) && m@ == self.model_map()[*hash],
                None => !self.model_map().contains_key(*hash),
            },
    {
        match self.models.get(hash) {
            Some(m) => Some(m.duplicate()),
            None => None,
        }
    }

    /// Loads the model at `path` from `data` and stores it under the path's
    /// identity.
    fn load_model_ext(&mut self, path: &str, diff_texture: Option<&str>, data: Option<ObjData>)
        requires
            old(self).wf(),
            obj_opt_wf(obj_opt_view(data)),
        ensures
            final(self).wf(),
            final(self).model_map().contains_key(path_hash_of(path@)),
            final(self).model_map() == old(self).model_map().insert(
                path_hash_of(path@),
                final(self).model_map()[path_hash_of(path@)],
            ),
            final(self).texture_state() == textures_after(
                old(self).texture_state(),
                parent_of(path@),
                obj_opt_view(data),
                str_opt_view(diff_texture),
                false,
            ),
            built_from(
                final(self).model_map()[path_hash_of(path@)],
                parent_of(path@),
                obj_opt_view(data),
                str_opt_view(diff_texture),
                false,
                final(self).texture_state().loaded,
            ),
    {
        let h = hash_path(path);
        let model = Model::new_ext(path, diff_texture, data, self, false);
        let ghost mv = model@;
        self.models.insert(h, model);
        assert(self.model_map() =~= old(self).model_map().insert(h, mv));
    }

    /// The model at `path`: the cached one where its identity is known,
    /// else the one loaded from `data` (what the parser gave for the file),
    /// which is then cached.
    pub fn get_model_ext(&mut self, path: &str, diff_texture: Option<&str>, data: Option<ObjData>) -> (r: Model)
        requires
            old(self).wf(),
            obj_opt_wf(obj_opt_view(data)),
        ensures
            final(self).wf(),
            model_requested(
                old(self).model_map(),
                old(self).texture_state(),
                path@,
                str_opt_view(diff_texture),
                obj_opt_view(data),
                r@,
                final(self).model_map(),
                final(self).texture_state(),
            ),
    {
        let h = hash_path(path);
        match self.models.get(&h) {
            Some(model) => model.duplicate(),
            None => {
                self.load_model_ext(path, diff_texture, data);
                match self.models.get(&h) {
                    Some(model) => model.duplicate(),
                    None => {
                        proof {
                            assert(self.model_map().contains_key(h));
                        }
                        Model { meshes: Vec::new(), directory: String::new() }
                    },
                }
            },
        }
    }

    /// The model at `path` with the textures its materials name.
    pub fn get_model(&mut self, path: &str, data: Option<ObjData>) -> (r: Model)
        requires
            old(self).wf(),
            obj_opt_wf(obj_opt_view(data)),
        ensures
            final(self).wf(),
            model_requested(
                old(self).model_map(),
                old(self).texture_state(),
                path@,
                None,
                obj_opt_view(data),
                r@,
                final(self).model_map(),
                final(self).texture_state(),
            ),
    {
        self.get_model_ext(path, None, data)
    }

    /// A sprite: the plane model (from `plane`, what the parser gave for
    /// `PLANE_MODEL_PATH`) with the image at `path` as the diffuse texture of
    /// each of its meshes. A path without a final component is used whole as
    /// the texture's name.
    pub fn load_2d(&mut self, path: &str, plane: Option<ObjData>) -> (r: Model)
        requires
            old(self).wf(),
            obj_opt_wf(obj_opt_view(plane)),
        ensures
            final(self).wf(),
            final(self).model_map() == old(self).model_map(),
            ({
                let name = match file_name_of(path@) {
                    Some(n) => n,
                    None => path@,
                };
                let h = path_hash_of(name);
                &&& final(self).texture_state() == load_step(
                    old(self).texture_state(),
                    parent_of(path@),
                    (name, TextureKind::Diffuse),
                )
                &&& r@.directory == parent_of(PLANE_MODEL_PATH@)
                &&& r@.meshes.len() == match obj_opt_view(plane) {
                    Some(d) => d.meshes.len(),
                    None => 0,
                }
                &&& forall|k: int|
                    0 <= k < r@.meshes.len() ==> {
                        &&& (#[trigger] r@.meshes[k]).buffers == obj_opt_view(plane)->Some_0.meshes[k].buffers
                        &&& r@.meshes[k].indices == obj_opt_view(plane)->Some_0.meshes[k].indices
                        &&& r@.meshes[k].textures == seq![final(self).texture_state().loaded[h]]
                    }
            }),
    {
        let dir = parent_dir(path);
        let name = match file_name(path) {
            Some(n) => n,
            None => path.to_owned(),
        };
        let texture = self.get_material_texture(dir.as_str(), name.as_str(), TextureKind::Diffuse);
        let ghost st = self.texture_state();
        let mut model = Model::new_2d(self, plane);
        let ghost mid = model@;
        let mut meshes: Vec<Mesh> = Vec::new();
        let mut i: usize = 0;
        while i < model.meshes.len()
            invariant
                i <= model.meshes.len(),
                model@ == mid,
                meshes.len() == i,
                texture@ == st.loaded[path_hash_of(name@)],
                forall|k: int|
                    0 <= k < i ==> {
                        &&& (#[trigger] meshes@[k])@.buffers == mid.meshes[k].buffers
                        &&& meshes@[k]@.indices == mid.meshes[k].indices
                        &&& meshes@[k]@.textures == mid.meshes[k].textures.push(texture@)
                    },
            decreases model.meshes.len() - i,
        {
            let mut m = model.meshes[i].duplicate();
            m.textures.push(texture.duplicate());
            assert(texture_views(m.textures@) =~= mid.meshes[i as int].textures.push(texture@));
            meshes.push(m);
            i = i + 1;
        }
        model.meshes = meshes;
        proof {
            if let Some(d) = obj_opt_view(plane) {
                assert forall|k: int| 0 <= k < d.meshes.len() implies mid.meshes[k].textures =~= seq![] by {
                    assert(crate::model::mesh_matches(mid.meshes[k], d, k, None, true, st.loaded));
                }
            }
        }
        model
    }

    /// Hands over the textures that await upload, oldest first, and clears
    /// the queue.
    pub fn take_uploads(&mut self) -> (r: Vec<TextureUpload>)
        requires
            old(self).wf(),
        ensures
            final(self).wf(),
            r@.map_values(|u: TextureUpload| u@) == old(self).texture_state().uploads,
            final(self).texture_state().uploads.len() == 0,
            final(self).texture_state().loaded == old(self).texture_state().loaded,
            final(self).model_map() == old(self).model_map(),
    {
        let mut r: Vec<TextureUpload> = Vec::new();
        std::mem::swap(&mut r, &mut self.uploads);
        assert(self.texture_state().uploads =~= Seq::<UploadSpec>::empty());
        r
    }
}

impl Default for AssetsCache {
    fn default() -> (r: AssetsCache)
        ensures
            r.wf(),
            r.texture_state().loaded.is_empty(),
            r.texture_state().uploads.len() == 0,
            r.model_map().is_empty(),
    {
        AssetsCache::new()
    }
}

/// The outcome of requesting the model at `path`. A cached identity gives
/// the cached model and leaves the cache as it was; a new one is built from
/// `data`, resolving its textures, and stored under the identity.
pub open spec fn model_requested(
    models_before: Map<u64, ModelSpec>,
    textures_before: TextureState,
    path: Seq<char>,
    diffuse_override: Option<Seq<char>>,
    data: Option<ObjDataSpec>,
    r: ModelSpec,
    models_after: Map<u64, ModelSpec>,
    textures_after_request: TextureState,
) -> bool {
    let h = path_hash_of(path);
    if models_before.contains_key(h) {
        &&& r == models_before[h]
        &&& models_after == models_before
        &&& textures_after_request == textures_before
    } else {
        &&& textures_after_request == textures_after(
            textures_before,
            parent_of(path),
            data,
            diffuse_override,
            false,
        )
        &&& built_from(r, parent_of(path), data, diffuse_override, false, textures_after_request.loaded)
        &&& models_after == models_before.insert(h, r)
    }
}

/// Requesting the same path twice loads it once: after the first request
/// the model is cached, so the second returns the same model, with the same
/// GPU handles, and neither loads nor queues anything, whatever data is
/// offered with it.
pub proof fn lemma_get_model_idempotent(
    m0: Map<u64, ModelSpec>,
    t0: TextureState,
    path: Seq<char>,
    ovr1: Option<Seq<char>>,
    d1: Option<ObjDataSpec>,
    r1: ModelSpec,
    m1: Map<u64, ModelSpec>,
    t1: TextureState,
    ovr2: Option<Seq<char>>,
    d2: Option<ObjDataSpec>,
    r2: ModelSpec,
    m2: Map<u64, ModelSpec>,
    t2: TextureState,
)
    requires
        model_requested(m0, t0, path, ovr1, d1, r1, m1, t1),
        model_requested(m1, t1, path, ovr2, d2, r2, m2, t2),
    ensures
        m1.contains_key(path_hash_of(path)),
        r2 == r1,
        m2 == m1,
        t2 == t1,
{
}

} // verus!
