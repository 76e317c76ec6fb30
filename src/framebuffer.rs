//! The offscreen framebuffer's lifecycle: it is sized to the viewport and is
//! never resized in place, only released and generated anew.

use vstd::prelude::*;

verus! {

/// What the application does with the GPU for a framebuffer request.
#[derive(Clone, Copy, Debug, PartialEq, Eq, Structural)]
pub enum FramebufferAction {
    /// The current framebuffer already has the requested size.
    Keep,
    /// There is none yet: generate one of this size.
    Generate { width: i32, height: i32 },
    /// Release the current framebuffer's GPU objects, then generate one of
    /// this size.
    Regenerate { width: i32, height: i32 },
}

impl FramebufferAction {
    /// How many framebuffers the action releases.
    pub open spec fn released(self) -> nat {
        match self {
            FramebufferAction::Regenerate { .. } => 1,
            _ => 0,
        }
    }

    /// How many framebuffers the action generates.
    pub open spec fn generated(self) -> nat {
        match self {
            FramebufferAction::Keep => 0,
            _ => 1,
        }
    }
}

/// The action a request for `width` by `height` takes while the
/// framebuffer held has size `size`: generate where there is none, keep one
/// of that size, and otherwise release it and generate anew.
pub open spec fn decide(size: Option<(i32, i32)>, width: i32, height: i32) -> FramebufferAction {
    match size {
        None => FramebufferAction::Generate { width, height },
        Some((w, h)) => if w == width && h == height {
            FramebufferAction::Keep
        } else {
            FramebufferAction::Regenerate { width, height }
        },
    }
}

/// The size of the framebuffer the application holds, if it holds one.
pub struct FramebufferSlot {
    pub size: Option<(i32, i32)>,
}

impl FramebufferSlot {
    /// The number of framebuffers alive on the GPU.
    pub open spec fn live(self) -> nat {
        if self.size is Some {
            1
        } else {
            0
        }
    }

    /// A slot that holds no framebuffer yet.
    pub fn new() -> (r: FramebufferSlot)
        ensures
            r.size is None,
    {
        FramebufferSlot { size: None }
    }

    /// Decides what a request for a framebuffer of `width` by `height` takes,
    /// and records the new size.
    pub fn request(&mut self, width: i32, height: i32) -> (r: FramebufferAction)
        ensures
            final(self).size == Some((width, height)),
            r == decide(old(self).size, width, height),
            final(self).live() + r.released() == old(self).live() + r.generated(),
    {
        let r = match self.size {
            None => FramebufferAction::Generate { width, height },
            Some((w, h)) => if w == width && h == height {
                FramebufferAction::Keep
            } else {
                FramebufferAction::Regenerate { width, height }
            },
        };
        self.size = Some((width, height));
        r
    }
}

/// A request at one size and then at another releases the first
/// framebuffer: two are generated in all and one is released, so one
/// framebuffer stays alive, as after the first request.
pub proof fn lemma_resize_releases(w1: i32, h1: i32, w2: i32, h2: i32)
    requires
        (w1, h1) != (w2, h2),
    ensures
        ({
            let a1 = decide(None, w1, h1);
            let a2 = decide(Some((w1, h1)), w2, h2);
            let s1 = FramebufferSlot { size: Some((w1, h1)) };
            let s2 = FramebufferSlot { size: Some((w2, h2)) };
            &&& a1.generated() + a2.generated() == 2
            &&& a1.released() + a2.released() == 1
            &&& a2.released() == 1
            &&& s1.live() == 1
            &&& s2.live() == s1.live()
        }),
{
}

} // verus!
