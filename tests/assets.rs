use doppler::assets_cache::AssetsCache;
use doppler::mesh::{MaterialMaps, MeshBuffers, ObjData, SubMesh, TextureKind};
use doppler::model::{Model, PLANE_MODEL_PATH};

fn buffers(n: u32) -> MeshBuffers {
    MeshBuffers { vao: n, vbo: n + 1, ebo: n + 2 }
}

fn material(diffuse: &str, specular: &str, normal: &str) -> MaterialMaps {
    MaterialMaps {
        diffuse: diffuse.to_string(),
        specular: specular.to_string(),
        normal: normal.to_string(),
    }
}

fn crate_obj() -> ObjData {
    ObjData {
        meshes: vec![
            SubMesh { buffers: buffers(1), indices: vec![0, 1, 2], material: Some(0) },
            SubMesh { buffers: buffers(4), indices: vec![2, 3, 0], material: None },
        ],
        materials: vec![material("wood.png", "wood_spec.png", "")],
    }
}

#[test]
fn cache_idempotence_loads_once() {
    let mut cache = AssetsCache::new();
    let first = cache.get_model("models/crate.obj", Some(crate_obj()));
    let uploads_after_first = cache.take_uploads();
    // The second request is served from the cache: the data offered is ignored.
    let second = cache.get_model("models/crate.obj", None);
    assert_eq!(first.meshes.len(), 2);
    assert_eq!(second.meshes.len(), 2);
    for (a, b) in first.meshes.iter().zip(second.meshes.iter()) {
        assert_eq!(a.buffers, b.buffers);
        assert_eq!(a.indices, b.indices);
        let ids_a: Vec<u64> = a.textures.iter().map(|t| t.id).collect();
        let ids_b: Vec<u64> = b.textures.iter().map(|t| t.id).collect();
        assert_eq!(ids_a, ids_b);
    }
    assert_eq!(uploads_after_first.len(), 2);
    assert!(cache.take_uploads().is_empty());
}

#[test]
fn missing_model_has_no_meshes() {
    let mut cache = AssetsCache::new();
    let model = cache.get_model("does/not/exist.obj", None);
    assert!(model.meshes.is_empty());
    assert!(cache.has_model("does/not/exist.obj"));
    assert!(cache.take_uploads().is_empty());
}

#[test]
fn material_textures_in_map_order() {
    let mut cache = AssetsCache::new();
    let model = Model::new("models/crate.obj", Some(crate_obj()), &mut cache);
    assert_eq!(model.directory, "models");
    let m0 = &model.meshes[0];
    assert_eq!(m0.buffers, buffers(1));
    assert_eq!(m0.indices, vec![0, 1, 2]);
    assert_eq!(m0.textures.len(), 2);
    assert_eq!(m0.textures[0].path, "wood.png");
    assert_eq!(m0.textures[0].kind, TextureKind::Diffuse);
    assert_eq!(m0.textures[0].id, AssetsCache::path_hash("wood.png"));
    assert_eq!(m0.textures[1].path, "wood_spec.png");
    assert_eq!(m0.textures[1].kind, TextureKind::Specular);
    // Without a material or an override the mesh is untextured.
    assert!(model.meshes[1].textures.is_empty());
    let uploads = cache.take_uploads();
    assert_eq!(uploads.len(), 2);
    assert_eq!(uploads[0].directory, "models");
    assert_eq!(uploads[0].path, "wood.png");
    assert_eq!(uploads[1].path, "wood_spec.png");
}

#[test]
fn diffuse_override_for_meshes_without_material() {
    let mut cache = AssetsCache::new();
    let model = cache.get_model_ext("models/crate.obj", Some("grass.png"), Some(crate_obj()));
    assert_eq!(model.meshes[1].textures.len(), 1);
    assert_eq!(model.meshes[1].textures[0].path, "grass.png");
    assert_eq!(model.meshes[1].textures[0].kind, TextureKind::Diffuse);
    // The material wins over the override where there is one.
    assert_eq!(model.meshes[0].textures[0].path, "wood.png");
}

#[test]
fn texture_role_is_fixed_at_first_load() {
    let mut cache = AssetsCache::new();
    let a = cache.get_material_texture("dir", "shared.png", TextureKind::Diffuse);
    let b = cache.get_material_texture("dir", "shared.png", TextureKind::Specular);
    assert_eq!(a.id, b.id);
    assert_eq!(b.kind, TextureKind::Diffuse);
    assert_eq!(cache.take_uploads().len(), 1);
}

#[test]
fn path_hash_depends_on_path_only() {
    assert_eq!(AssetsCache::path_hash("a/b.obj"), AssetsCache::path_hash("a/b.obj"));
    assert_ne!(AssetsCache::path_hash("a/b.obj"), AssetsCache::path_hash("a/c.obj"));
}

#[test]
fn get_model_by_hash_finds_cached_models() {
    let mut cache = AssetsCache::new();
    let _ = cache.get_model("models/crate.obj", Some(crate_obj()));
    let hash = AssetsCache::path_hash("models/crate.obj");
    let found = cache.get_model_by_hash(&hash).expect("cached");
    assert_eq!(found.meshes.len(), 2);
    assert!(cache.get_model_by_hash(&AssetsCache::path_hash("other.obj")).is_none());
}

#[test]
fn sprite_uses_image_as_diffuse_of_plane() {
    let mut cache = AssetsCache::new();
    let plane = ObjData {
        meshes: vec![SubMesh { buffers: buffers(9), indices: vec![0, 1, 2, 2, 3, 0], material: Some(0) }],
        materials: vec![material("ignored.png", "", "")],
    };
    let sprite = cache.load_2d("sprites/hero.png", Some(plane));
    assert_eq!(sprite.meshes.len(), 1);
    assert_eq!(sprite.meshes[0].textures.len(), 1);
    assert_eq!(sprite.meshes[0].textures[0].path, "hero.png");
    assert_eq!(sprite.directory, "resources/defaults");
    let uploads = cache.take_uploads();
    assert_eq!(uploads.len(), 1);
    assert_eq!(uploads[0].directory, "sprites");
    assert_eq!(uploads[0].path, "hero.png");
    assert!(PLANE_MODEL_PATH.ends_with("plane.obj"));
}
