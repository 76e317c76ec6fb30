use doppler::assets_cache::AssetsCache;
use doppler::framebuffer::{FramebufferAction, FramebufferSlot};
use doppler::lighting::{prepare_for_draw_uniforms, LightField, Uniform, POINT_LIGHT_COUNT};
use doppler::manifest::{manifest_line, ManifestAction};
use doppler::mesh::{MeshBuffers, ObjData, SubMesh};
use doppler::scene::{frame_steps, FrameStep};

fn one_mesh(n: u32) -> ObjData {
    ObjData {
        meshes: vec![SubMesh {
            buffers: MeshBuffers { vao: n, vbo: n, ebo: n },
            indices: vec![0, 1, 2],
            material: None,
        }],
        materials: vec![],
    }
}

#[test]
fn manifest_tokens_path_and_override() {
    assert_eq!(
        manifest_line("  models/tree.obj\ttextures/bark.png extra"),
        Some(("models/tree.obj".to_string(), Some("textures/bark.png".to_string())))
    );
    assert_eq!(manifest_line("models/rock.obj"), Some(("models/rock.obj".to_string(), None)));
    assert_eq!(manifest_line(""), None);
    assert_eq!(manifest_line(" \t \u{3000}"), None);
}

#[test]
fn manifest_blank_line_is_skipped() {
    let mut cache = AssetsCache::new();
    let lines = ["models/tree.obj textures/bark.png", ""];
    let mut loaded = 0;
    let mut skipped = 0;
    for line in lines.iter() {
        match cache.manifest_action(line) {
            ManifestAction::Skip => skipped += 1,
            ManifestAction::Load { path, texture } => {
                assert_eq!(path, "models/tree.obj");
                assert_eq!(texture.as_deref(), Some("textures/bark.png"));
                let _ = cache.get_model_ext(&path, texture.as_deref(), Some(one_mesh(1)));
                loaded += 1;
            }
        }
    }
    assert_eq!(loaded, 1);
    assert_eq!(skipped, 1);
}

#[test]
fn manifest_repeated_path_is_skipped() {
    let mut cache = AssetsCache::new();
    let _ = cache.get_model("models/tree.obj", Some(one_mesh(1)));
    assert!(matches!(cache.manifest_action("models/tree.obj"), ManifestAction::Skip));
    assert!(matches!(cache.manifest_action("models/rock.obj"), ManifestAction::Load { .. }));
}

#[test]
fn lighting_uploads_every_point_light_slot() {
    let uploads = prepare_for_draw_uniforms();
    assert_eq!(uploads.len(), 8 + 7 * POINT_LIGHT_COUNT);
    let point_positions = uploads
        .iter()
        .filter(|u| matches!(u, Uniform::PointLight(_, LightField::Position)))
        .count();
    assert_eq!(point_positions, 4);
    let directional = uploads.iter().filter(|u| matches!(u, Uniform::DirLight(_))).count();
    assert_eq!(directional, 4);
    assert_eq!(uploads[0], Uniform::Projection);
    assert_eq!(uploads[3], Uniform::Shininess);
    assert_eq!(uploads[8], Uniform::PointLight(0, LightField::Position));
    assert_eq!(uploads[35], Uniform::PointLight(3, LightField::Quadratic));
}

#[test]
fn uniform_names_match_shader_declarations() {
    assert_eq!(Uniform::PointLight(2, LightField::Linear).name(), "pointLights[2].linear");
    assert_eq!(Uniform::PointLight(0, LightField::Position).name(), "pointLights[0].position");
    assert_eq!(Uniform::DirLight(LightField::Direction).name(), "dirLight.direction");
    assert_eq!(Uniform::Shininess.name(), "material.shininess");
    assert_eq!(Uniform::ViewPos.name(), "viewPos");
    assert_eq!(Uniform::Model.name(), "model");
}

#[test]
fn frame_passes_in_order() {
    let steps = frame_steps(2);
    assert_eq!(
        steps,
        vec![
            FrameStep::ClearOffscreen,
            FrameStep::PrepareLighting,
            FrameStep::DrawObject(0),
            FrameStep::DrawObject(1),
            FrameStep::DrawSky,
            FrameStep::Composite,
        ]
    );
    assert_eq!(frame_steps(0).len(), 4);
}

#[test]
fn framebuffer_regenerated_on_resize() {
    let mut slot = FramebufferSlot::new();
    assert_eq!(slot.request(800, 600), FramebufferAction::Generate { width: 800, height: 600 });
    assert_eq!(slot.request(800, 600), FramebufferAction::Keep);
    assert_eq!(
        slot.request(1024, 768),
        FramebufferAction::Regenerate { width: 1024, height: 768 }
    );
    assert_eq!(slot.size, Some((1024, 768)));
}

#[test]
fn saved_objects_resolve_through_cache() {
    let mut cache = AssetsCache::new();
    let _ = cache.get_model("models/a.obj", Some(one_mesh(1)));
    let _ = cache.get_model("models/b.obj", Some(one_mesh(7)));
    let a = AssetsCache::path_hash("models/a.obj");
    let b = AssetsCache::path_hash("models/b.obj");
    let missing = AssetsCache::path_hash("models/gone.obj");
    let placed = cache.resolve_objects(&vec![b, missing, a, b]);
    let indices: Vec<usize> = placed.iter().map(|p| p.0).collect();
    assert_eq!(indices, vec![0, 2, 3]);
    assert_eq!(placed[0].1.meshes[0].buffers.vao, 7);
    assert_eq!(placed[1].1.meshes[0].buffers.vao, 1);
    let all = cache.resolve_objects(&vec![a, b]);
    assert_eq!(all.len(), 2);
}
