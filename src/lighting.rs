//! The lighting system's uniform protocol: which uniforms one frame uploads,
//! in which order, and under which names the shaders declare them.

use vstd::prelude::*;
use vstd::string::*;

verus! {

/// The number of point-light slots the lighting shader declares.
pub const POINT_LIGHT_COUNT: usize = 4;

/// One field of a light.
#[derive(Clone, Copy, Debug, PartialEq, Eq, Structural)]
pub enum LightField {
    Position,
    Direction,
    Ambient,
    Diffuse,
    Specular,
    Constant,
    Linear,
    Quadratic,
}

impl LightField {
    pub open spec fn spec_name(self) -> Seq<char> {
        match self {
            LightField::Position => "position"@,
            LightField::Direction => "direction"@,
            LightField::Ambient => "ambient"@,
            LightField::Diffuse => "diffuse"@,
            LightField::Specular => "specular"@,
            LightField::Constant => "constant"@,
            LightField::Linear => "linear"@,
            LightField::Quadratic => "quadratic"@,
        }
    }

    /// The field's name in the shader's light structs.
    pub fn name(&self) -> (r: &'static str)
        ensures
            r@ == self.spec_name(),
    {
        match self {
            LightField::Position => "position",
            LightField::Direction => "direction",
            LightField::Ambient => "ambient",
            LightField::Diffuse => "diffuse",
            LightField::Specular => "specular",
            LightField::Constant => "constant",
            LightField::Linear => "linear",
            LightField::Quadratic => "quadratic",
        }
    }
}

/// A uniform of the lighting program.
#[derive(Clone, Copy, Debug, PartialEq, Eq, Structural)]
pub enum Uniform {
    Model,
    View,
    Projection,
    ViewPos,
    Shininess,
    DirLight(LightField),
    PointLight(usize, LightField),
}

pub open spec fn digit_name(i: usize) -> Seq<char> {
    if i == 0 {
        "0"@
    } else if i == 1 {
        "1"@
    } else if i == 2 {
        "2"@
    } else {
        "3"@
    }
}

impl Uniform {
    /// Point-light slots are within the shader's array.
    pub open spec fn wf(self) -> bool {
        match self {
            Uniform::PointLight(i, _) => i < POINT_LIGHT_COUNT,
            _ => true,
        }
    }

    pub open spec fn spec_name(self) -> Seq<char> {
        match self {
            Uniform::Model => "model"@,
            Uniform::View => "view"@,
            Uniform::Projection => "projection"@,
            Uniform::ViewPos => "viewPos"@,
            Uniform::Shininess => "material.shininess"@,
            Uniform::DirLight(f) => "dirLight."@ + f.spec_name(),
            Uniform::PointLight(i, f) => "pointLights["@ + digit_name(i) + "]."@ + f.spec_name(),
        }
    }

    /// The name the shader declares the uniform under.
    pub fn name(&self) -> (r: String)
        requires
            self.wf(),
        ensures
            r@ == self.spec_name(),
    {
        match self {
            Uniform::Model => String::from_str("model"),
            Uniform::View => String::from_str("view"),
            Uniform::Projection => String::from_str("projection"),
            Uniform::ViewPos => String::from_str("viewPos"),
            Uniform::Shininess => String::from_str("material.shininess"),
            Uniform::DirLight(f) => {
                let mut s = String::from_str("dirLight.");
                s.append(f.name());
                s
            },
            Uniform::PointLight(i, f) => {
                let mut s = String::from_str("pointLights[");
                let digit = if *i == 0 {
                    "0"
                } else if *i == 1 {
                    "1"
                } else if *i == 2 {
                    "2"
                } else {
                    "3"
                };
                s.append(digit);
                s.append("].");
                s.append(f.name());
                s
            },
        }
    }
}

/// The uploads of one point light, in field order.
pub open spec fn point_light_uploads(i: usize) -> Seq<Uniform> {
    seq![
        Uniform::PointLight(i, LightField::Position),
        Uniform::PointLight(i, LightField::Ambient),
        Uniform::PointLight(i, LightField::Diffuse),
        Uniform::PointLight(i, LightField::Specular),
        Uniform::PointLight(i, LightField::Constant),
        Uniform::PointLight(i, LightField::Linear),
        Uniform::PointLight(i, LightField::Quadratic),
    ]
}

/// The uploads of the directional light's four vectors.
pub open spec fn directional_uploads() -> Seq<Uniform> {
    seq![
        Uniform::DirLight(LightField::Direction),
        Uniform::DirLight(LightField::Ambient),
        Uniform::DirLight(LightField::Diffuse),
        Uniform::DirLight(LightField::Specular),
    ]
}

/// The uploads of the point lights in slots before `n`, in slot order.
pub open spec fn point_lights_upto(n: nat) -> Seq<Uniform>
    decreases n,
{
    if n == 0 {
        seq![]
    } else {
        point_lights_upto((n - 1) as nat) + point_light_uploads((n - 1) as usize)
    }
}

/// What preparing the lighting program for a frame uploads: camera and
/// material uniforms, the directional light, then every point-light slot.
pub open spec fn lighting_uploads() -> Seq<Uniform> {
    seq![Uniform::Projection, Uniform::View, Uniform::ViewPos, Uniform::Shininess]
        + directional_uploads() + point_lights_upto(POINT_LIGHT_COUNT as nat)
}

fn push_point_light(r: &mut Vec<Uniform>, i: usize)
    ensures
        final(r)@ == old(r)@ + point_light_uploads(i),
{
    r.push(Uniform::PointLight(i, LightField::Position));
    r.push(Uniform::PointLight(i, LightField::Ambient));
    r.push(Uniform::PointLight(i, LightField::Diffuse));
    r.push(Uniform::PointLight(i, LightField::Specular));
    r.push(Uniform::PointLight(i, LightField::Constant));
    r.push(Uniform::PointLight(i, LightField::Linear));
    r.push(Uniform::PointLight(i, LightField::Quadratic));
    assert(final(r)@ =~= old(r)@ + point_light_uploads(i));
}

/// The uniforms `prepare_for_draw` uploads, in order, as `lighting_uploads`
/// states.
pub fn prepare_for_draw_uniforms() -> (r: Vec<Uniform>)
    ensures
        r@ == lighting_uploads(),
        forall|j: int| 0 <= j < r.len() ==> (#[trigger] r@[j]).wf(),
{
    let mut r: Vec<Uniform> = Vec::new();
    r.push(Uniform::Projection);
    r.push(Uniform::View);
    r.push(Uniform::ViewPos);
    r.push(Uniform::Shininess);
    r.push(Uniform::DirLight(LightField::Direction));
    r.push(Uniform::DirLight(LightField::Ambient));
    r.push(Uniform::DirLight(LightField::Diffuse));
    r.push(Uniform::DirLight(LightField::Specular));
    let ghost head = r@;
    assert(head =~= seq![Uniform::Projection, Uniform::View, Uniform::ViewPos, Uniform::Shininess]
        + directional_uploads());
    let mut i: usize = 0;
    while i < POINT_LIGHT_COUNT
        invariant
            i <= POINT_LIGHT_COUNT,
            r@ == head + point_lights_upto(i as nat),
        decreases POINT_LIGHT_COUNT - i,
    {
        push_point_light(&mut r, i);
        i = i + 1;
        assert(r@ =~= head + point_lights_upto(i as nat));
    }
    proof {
        lemma_lighting_slots();
    }
    r
}

proof fn lemma_point_lights_upto(n: nat)
    ensures
        point_lights_upto(n).len() == 7 * n,
        forall|i: int|
            0 <= i < n ==> point_lights_upto(n).subrange(7 * i, 7 * i + 7) == #[trigger] point_light_uploads(
                i as usize,
            ),
        forall|j: int|
            0 <= j < point_lights_upto(n).len() ==> ((#[trigger] point_lights_upto(n)[j]) matches Uniform::PointLight(s, _) && s < n),
    decreases n,
{
    if n > 0 {
        let m = (n - 1) as nat;
        lemma_point_lights_upto(m);
        let prev = point_lights_upto(m);
        let all = point_lights_upto(n);
        assert(all == prev + point_light_uploads(m as usize));
        assert forall|i: int| 0 <= i < n implies all.subrange(7 * i, 7 * i + 7)
            == #[trigger] point_light_uploads(i as usize) by {
            if i < m {
                assert(all.subrange(7 * i, 7 * i + 7) =~= prev.subrange(7 * i, 7 * i + 7));
            } else {
                assert(all.subrange(7 * i, 7 * i + 7) =~= point_light_uploads(m as usize));
            }
        }
        assert forall|j: int| 0 <= j < all.len() implies ((#[trigger] all[j]) matches Uniform::PointLight(s, _) && s < n) by {
            if j < prev.len() {
                assert(all[j] == prev[j]);
            } else {
                assert(all[j] == point_light_uploads(m as usize)[j - prev.len()]);
            }
        }
    }
}

/// Every frame uploads every point-light slot: after the camera, material
/// and directional-light uniforms come exactly `POINT_LIGHT_COUNT` groups of
/// seven point-light uniforms, one per slot in slot order, whatever the
/// lights hold; the directional light is uploaded exactly once, as its four
/// vectors; and nothing else is uploaded.
pub proof fn lemma_lighting_slots()
    ensures
        lighting_uploads().len() == 8 + 7 * POINT_LIGHT_COUNT,
        lighting_uploads().subrange(4, 8) == directional_uploads(),
        forall|i: int|
            0 <= i < POINT_LIGHT_COUNT ==> lighting_uploads().subrange(8 + 7 * i, 15 + 7 * i)
                == #[trigger] point_light_uploads(i as usize),
        forall|j: int|
            0 <= j < lighting_uploads().len() ==> ((#[trigger] lighting_uploads()[j]) is DirLight
                <==> 4 <= j < 8),
        forall|j: int|
            0 <= j < lighting_uploads().len() ==> ((#[trigger] lighting_uploads()[j]) is PointLight
                <==> 8 <= j),
        forall|j: int| 0 <= j < lighting_uploads().len() ==> (#[trigger] lighting_uploads()[j]).wf(),
{
    let n = POINT_LIGHT_COUNT as nat;
    lemma_point_lights_upto(n);
    let head = seq![Uniform::Projection, Uniform::View, Uniform::ViewPos, Uniform::Shininess]
        + directional_uploads();
    let pl = point_lights_upto(n);
    let all = lighting_uploads();
    assert(all == head + pl);
    assert(all.subrange(4, 8) =~= directional_uploads());
    assert forall|i: int| 0 <= i < POINT_LIGHT_COUNT implies all.subrange(8 + 7 * i, 15 + 7 * i)
        == #[trigger] point_light_uploads(i as usize) by {
        assert(all.subrange(8 + 7 * i, 15 + 7 * i) =~= pl.subrange(7 * i, 7 * i + 7));
    }
    assert forall|j: int| 0 <= j < all.len() implies ((#[trigger] all[j]) is DirLight <==> 4 <= j < 8)
        && (all[j] is PointLight <==> 8 <= j) && all[j].wf() by {
        if j >= 8 {
            assert(all[j] == pl[j - 8]);
        }
    }
}

} // verus!
