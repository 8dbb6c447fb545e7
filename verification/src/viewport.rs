use vstd::prelude::*;

verus! {

use crate::scene::{Camera, Viewport};

/// A logical window length scaled to physical pixels: one and a half times
/// the logical length, rounded half away from zero.
pub open spec fn scaled_len(v: u32) -> int {
    (3 * v + 1) / 2
}

/// The viewport the layout assigns to a camera after a resize to logical size
/// w by h: player 1's camera takes the left half of the scaled window, every
/// other camera the right half; both halves span the full scaled height.
pub open spec fn viewport_ok(vp: Viewport, id: i32, w: u32, h: u32) -> bool {
    &&& vp.x == if id == 1 {
        0int
    } else {
        scaled_len(w) / 2
    }
    &&& vp.y == 0
    &&& vp.width == scaled_len(w) / 2
    &&& vp.height == scaled_len(h)
}

/// Scale a logical length to physical pixels.
pub fn scale_physical(v: u32) -> (r: u32)
    requires
        scaled_len(v) <= u32::MAX,
    ensures
        r == scaled_len(v),
{
    ((3 * (v as u64) + 1) / 2) as u32
}

/// Lay the two viewports out after window resizes.  Only the last resize
/// event matters; with no event, or one whose scaled width is zero, every
/// camera keeps its viewport.  Camera identity, position and aim are never
/// touched here.
pub fn on_resize_system(cameras: &mut Vec<Camera>, resize_events: &Vec<(u32, u32)>)
    requires
        forall|e: int|
            0 <= e < resize_events@.len() ==> scaled_len((#[trigger] resize_events@[e]).0)
                <= u32::MAX && scaled_len(resize_events@[e].1) <= u32::MAX,
    ensures
        final(cameras)@.len() == old(cameras)@.len(),
        resize_events@.len() == 0 ==> final(cameras)@ == old(cameras)@,
        resize_events@.len() > 0 && scaled_len(resize_events@.last().0) == 0 ==> final(cameras)@
            == old(cameras)@,
        resize_events@.len() > 0 && scaled_len(resize_events@.last().0) != 0 ==> forall|i: int|
            0 <= i < old(cameras)@.len() ==> {
                let c0 = (#[trigger] old(cameras)@[i]);
                let c1 = final(cameras)@[i];
                &&& c1.id == c0.id
                &&& c1.pos == c0.pos
                &&& c1.target == c0.target
                &&& viewport_ok(
                    c1.viewport,
                    c0.id,
                    resize_events@.last().0,
                    resize_events@.last().1,
                )
            },
{
    let mut width: u32 = 0;
    let mut height: u32 = 0;
    let ne = resize_events.len();
    let mut e: usize = 0;
    while e < ne
        invariant
            ne == resize_events@.len(),
            e <= ne,
            forall|i: int|
                0 <= i < resize_events@.len() ==> scaled_len((#[trigger] resize_events@[i]).0)
                    <= u32::MAX && scaled_len(resize_events@[i].1) <= u32::MAX,
            e == 0 ==> width == 0,
            e > 0 ==> width == scaled_len(resize_events@[e - 1].0) && height == scaled_len(
                resize_events@[e - 1].1,
            ),
        decreases ne - e,
    {
        let ev = resize_events[e];
        width = scale_physical(ev.0);
        height = scale_physical(ev.1);
        e = e + 1;
    }
    if width != 0 {
        let n = cameras.len();
        let mut i: usize = 0;
        while i < n
            invariant
                n == cameras@.len(),
                i <= n,
                cameras@.len() == old(cameras)@.len(),
                ne == resize_events@.len(),
                ne > 0,
                width == scaled_len(resize_events@[ne - 1].0),
                height == scaled_len(resize_events@[ne - 1].1),
                forall|m: int| i <= m < n ==> cameras@[m] == old(cameras)@[m],
                forall|m: int|
                    0 <= m < i ==> {
                        let c0 = (#[trigger] old(cameras)@[m]);
                        let c1 = cameras@[m];
                        &&& c1.id == c0.id
                        &&& c1.pos == c0.pos
                        &&& c1.target == c0.target
                        &&& viewport_ok(
                            c1.viewport,
                            c0.id,
                            resize_events@[ne - 1].0,
                            resize_events@[ne - 1].1,
                        )
                    },
            decreases n - i,
        {
            let cam = cameras[i];
            let mut laid = cam;
            laid.viewport = if cam.id == 1 {
                Viewport { x: 0, y: 0, width: width / 2, height }
            } else {
                Viewport { x: width / 2, y: 0, width: width / 2, height }
            };
            cameras.set(i, laid);
            i = i + 1;
        }
    }
}

} // verus!
