//! The read-only joined query the rendering collaborator consumes: world
//! position, shape and color for each live entity that is both kinematic
//! and drawable. Rendering never mutates simulation state, so it only ever
//! sees this snapshot.

use vstd::prelude::*;

verus! {

use crate::arena::Index;
use crate::components::Color;
use crate::components::Shape;
use crate::geom::Vec2;
use crate::world::World;

/// One entity as the renderer sees it.
#[derive(Clone, Copy, PartialEq, Eq, Structural, Debug)]
pub struct RenderItem {
    pub id: Index,
    pub position: Vec2,
    pub shape: Shape,
    pub color: Color,
}

/// The joined (kinematic, drawable) view over the first `n` slots, in
/// ascending slot order.
pub open spec fn render_upto(w: World, n: int) -> Seq<RenderItem>
    decreases n,
{
    if n <= 0 {
        Seq::empty()
    } else {
        let rest = render_upto(w, n - 1);
        let i = n - 1;
        if w.entities.occupied(i) {
            let id = Index { index: i as usize, generation: w.entities.generation_of(i) };
            match (w.physics.spec_get(id), w.drawables.spec_get(id)) {
                (Some(p), Some(d)) => rest.push(
                    RenderItem {
                        id,
                        position: p.world_space_position,
                        shape: d.shape,
                        color: d.color,
                    },
                ),
                _ => rest,
            }
        } else {
            rest
        }
    }
}

/// The renderer's view of the whole world.
pub open spec fn render_view(w: World) -> Seq<RenderItem> {
    render_upto(w, w.entities.n_slots())
}

impl World {
    /// Materializes the renderer's read-only snapshot: position, shape and
    /// color of every live drawable body, in ascending slot order.
    pub fn render_items(&self) -> (out: Vec<RenderItem>)
        requires
            self.wf(),
        ensures
            out@ == render_view(*self),
    {
        let mut out: Vec<RenderItem> = Vec::new();
        let n = self.entities.slot_count();
        let mut i: usize = 0;
        while i < n
            invariant
                self.wf(),
                n as int == self.entities.n_slots(),
                0 <= i <= n,
                out@ == render_upto(*self, i as int),
            decreases n - i,
        {
            if let Some(id) = self.entities.id_at(i) {
                let ph = self.physics.get(id);
                let dr = self.drawables.get(id);
                if let (Some(p), Some(d)) = (ph, dr) {
                    out.push(
                        RenderItem {
                            id,
                            position: p.world_space_position,
                            shape: d.shape,
                            color: d.color,
                        },
                    );
                }
            }
            i = i + 1;
        }
        out
    }
}

} // verus!
