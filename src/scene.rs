//! The scene aggregate's decisions: which saved objects can be placed again,
//! and the order of one frame's passes.

use crate::assets_cache::AssetsCache;
use crate::model::{Model, ModelSpec};
use vstd::prelude::*;

verus! {

/// The saved objects (by model identity, in order) that the cache can
/// resolve: each as its position among the saved objects and its model.
/// Objects whose identity is not cached are left out.
pub open spec fn resolved_objects(models: Map<u64, ModelSpec>, hashes: Seq<u64>) -> Seq<(int, ModelSpec)>
    decreases hashes.len(),
{
    if hashes.len() == 0 {
        seq![]
    } else {
        let n = hashes.len() - 1;
        resolved_objects(models, hashes.drop_last()) + if models.contains_key(hashes[n]) {
            seq![(n, models[hashes[n]])]
        } else {
            seq![]
        }
    }
}

pub open spec fn placed_views(s: Seq<(usize, Model)>) -> Seq<(int, ModelSpec)> {
    s.map_values(|p: (usize, Model)| (p.0 as int, p.1@))
}

impl AssetsCache {
    /// Re-resolves saved objects through the cache, as `resolved_objects`
    /// states.
    pub fn resolve_objects(&self, hashes: &Vec<u64>) -> (r: Vec<(usize, Model)>)
        ensures
            placed_views(r@) == resolved_objects(self.model_map(), hashes@),
    {
        let mut r: Vec<(usize, Model)> = Vec::new();
        let mut i: usize = 0;
        while i < hashes.len()
            invariant
                i <= hashes.len(),
                placed_views(r@) == resolved_objects(self.model_map(), hashes@.subrange(0, i as int)),
            decreases hashes.len() - i,
        {
            let ghost prev = r@;
            let found = self.get_model_by_hash(&hashes[i]);
            assert(hashes@.subrange(0, i + 1).drop_last() =~= hashes@.subrange(0, i as int));
            match found {
                Some(m) => {
                    r.push((i, m));
                    assert(placed_views(r@) =~= placed_views(prev) + seq![(i as int, m@)]);
                },
                None => {
                    assert(placed_views(r@) =~= placed_views(prev) + seq![]);
                },
            }
            i = i + 1;
        }
        assert(hashes@.subrange(0, i as int) =~= hashes@);
        r
    }
}

/// Saving then loading keeps every object: where each saved identity is
/// still cached, resolving gives every object back, in order, each with the
/// cached model of its identity.
pub proof fn lemma_resolve_all_cached(models: Map<u64, ModelSpec>, hashes: Seq<u64>)
    requires
        forall|i: int| 0 <= i < hashes.len() ==> models.contains_key(#[trigger] hashes[i]),
    ensures
        resolved_objects(models, hashes).len() == hashes.len(),
        forall|i: int|
            0 <= i < hashes.len() ==> #[trigger] resolved_objects(models, hashes)[i] == (
                i,
                models[hashes[i]],
            ),
    decreases hashes.len(),
{
    if hashes.len() > 0 {
        let n = hashes.len() - 1;
        assert forall|i: int| 0 <= i < hashes.drop_last().len() implies models.contains_key(
            #[trigger] hashes.drop_last()[i],
        ) by {
            assert(hashes.drop_last()[i] == hashes[i]);
        }
        lemma_resolve_all_cached(models, hashes.drop_last());
        assert(models.contains_key(hashes[n]));
    }
}

/// One step of drawing a frame.
#[derive(Clone, Copy, Debug, PartialEq, Eq, Structural)]
pub enum FrameStep {
    /// Bind the offscreen framebuffer, enable depth testing, clear it.
    ClearOffscreen,
    /// Activate the lighting program and upload camera and light uniforms.
    PrepareLighting,
    /// Set the model matrix of scene object `i` and draw its meshes.
    DrawObject(usize),
    /// Draw the skybox with the relaxed depth comparison.
    DrawSky,
    /// Bind the screen, disable depth testing, draw the offscreen texture on
    /// a fullscreen quad.
    Composite,
}

/// The steps of `n` objects' draw calls, in object order.
pub open spec fn object_steps(n: nat) -> Seq<FrameStep>
    decreases n,
{
    if n == 0 {
        seq![]
    } else {
        object_steps((n - 1) as nat).push(FrameStep::DrawObject((n - 1) as usize))
    }
}

/// A frame: clear offscreen, upload lighting once, draw each object, draw
/// the sky, then composite to the screen.
pub open spec fn frame_plan(n: nat) -> Seq<FrameStep> {
    seq![FrameStep::ClearOffscreen, FrameStep::PrepareLighting] + object_steps(n) + seq![
        FrameStep::DrawSky,
        FrameStep::Composite,
    ]
}

/// The steps of one frame of a scene with `n_objects` objects.
pub fn frame_steps(n_objects: usize) -> (r: Vec<FrameStep>)
    ensures
        r@ == frame_plan(n_objects as nat),
{
    let mut r: Vec<FrameStep> = Vec::new();
    r.push(FrameStep::ClearOffscreen);
    r.push(FrameStep::PrepareLighting);
    let mut i: usize = 0;
    while i < n_objects
        invariant
            i <= n_objects,
            r@ == seq![FrameStep::ClearOffscreen, FrameStep::PrepareLighting] + object_steps(i as nat),
        decreases n_objects - i,
    {
        r.push(FrameStep::DrawObject(i));
        i = i + 1;
        assert(r@ =~= seq![FrameStep::ClearOffscreen, FrameStep::PrepareLighting] + object_steps(i as nat));
    }
    r.push(FrameStep::DrawSky);
    r.push(FrameStep::Composite);
    assert(r@ =~= frame_plan(n_objects as nat));
    r
}

proof fn lemma_object_steps(n: nat)
    ensures
        object_steps(n).len() == n,
        forall|i: int| 0 <= i < n ==> #[trigger] object_steps(n)[i] == FrameStep::DrawObject(i as usize),
    decreases n,
{
    if n > 0 {
        lemma_object_steps((n - 1) as nat);
    }
}

/// Lighting is prepared exactly once per frame, before every object's draw
/// call; each object is drawn exactly once, in order; the sky follows the
/// objects and the composite comes last.
pub proof fn lemma_frame_order(n: nat)
    ensures
        frame_plan(n).len() == n + 4,
        frame_plan(n)[0] == FrameStep::ClearOffscreen,
        frame_plan(n)[1] == FrameStep::PrepareLighting,
        forall|i: int| 0 <= i < n ==> #[trigger] frame_plan(n)[i + 2] == FrameStep::DrawObject(i as usize),
        frame_plan(n)[n as int + 2] == FrameStep::DrawSky,
        frame_plan(n)[n as int + 3] == FrameStep::Composite,
        forall|j: int| 0 <= j < frame_plan(n).len() && j != 1 ==> frame_plan(n)[j] != FrameStep::PrepareLighting,
{
    lemma_object_steps(n);
    assert forall|j: int| 0 <= j < frame_plan(n).len() && j != 1 implies frame_plan(n)[j]
        != FrameStep::PrepareLighting by {
        if 2 <= j < n + 2 {
            assert(frame_plan(n)[j] == object_steps(n)[j - 2]);
        }
    }
    assert forall|i: int| 0 <= i < n implies #[trigger] frame_plan(n)[i + 2] == FrameStep::DrawObject(i as usize) by {
        assert(frame_plan(n)[i + 2] == object_steps(n)[i]);
    }
}

} // verus!
