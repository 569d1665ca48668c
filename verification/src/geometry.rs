//! The reference geometry strategy: a dot count drawn from [50, 200), then
//! for each dot a position drawn uniformly inside the padded canvas, emitted
//! as a closed four-point triangular marker. Coordinates are in thousandths
//! of a millimeter; a dot marker spans one millimeter.
use vstd::prelude::*;

use crate::gen::Generator;
use crate::gen::draw_u64;
use crate::gen::next_state;

verus! {

/// Canvas dimensions are capped so that offsetting a position by one marker
/// never overflows.
pub const MAX_DIM: u64 = 0x1000_0000_0000;

pub open spec fn bounds_ok(w: u64, h: u64, pad: u64) -> bool {
    2 * pad < w && 2 * pad < h && w <= MAX_DIM && h <= MAX_DIM
}

/// The closed triangular marker at a position: the position, one marker width
/// to the right, half a width down-right, and back.
pub open spec fn dot_route(x: u64, y: u64) -> Seq<(u64, u64)> {
    seq![(x, y), (((x + 1000) as u64), y), (((x + 500) as u64), ((y + 500) as u64)), (x, y)]
}

/// The stream state after the two draws of one dot.
pub open spec fn step_dot(s: Seq<u8>, w: u64, h: u64, pad: u64) -> Seq<u8> {
    next_state(next_state(s, pad, (w - pad) as u64), pad, (h - pad) as u64)
}

/// The stream state after the first `i` dots.
pub open spec fn dot_state(s0: Seq<u8>, w: u64, h: u64, pad: u64, i: nat) -> Seq<u8>
    decreases i,
{
    if i == 0 {
        s0
    } else {
        step_dot(dot_state(s0, w, h, pad, (i - 1) as nat), w, h, pad)
    }
}

/// The route of the `i`-th dot: x then y are drawn from the stream.
pub open spec fn dot_at(s0: Seq<u8>, w: u64, h: u64, pad: u64, i: nat) -> Seq<(u64, u64)> {
    let s = dot_state(s0, w, h, pad, i);
    let x = draw_u64(s, pad, (w - pad) as u64);
    let y = draw_u64(next_state(s, pad, (w - pad) as u64), pad, (h - pad) as u64);
    dot_route(x, y)
}

/// All dot routes, in draw order.
pub open spec fn dots_routes(s0: Seq<u8>, w: u64, h: u64, pad: u64, n: nat) -> Seq<
    Seq<(u64, u64)>,
> {
    Seq::new(n, |i: int| dot_at(s0, w, h, pad, i as nat))
}

/// The dot count drawn first from a fresh stream.
pub open spec fn dots_count_of(s: Seq<u8>) -> u64 {
    draw_u64(s, 50, 200)
}

/// The routes of a vector, as sequences.
pub open spec fn routes_view(v: Seq<Vec<(u64, u64)>>) -> Seq<Seq<(u64, u64)>> {
    Seq::new(v.len(), |i: int| v[i]@)
}

/// A marker whose position lies inside the padded canvas.
pub open spec fn in_canvas(route: Seq<(u64, u64)>, w: u64, h: u64, pad: u64) -> bool {
    route.len() == 4 && pad <= route[0].0 < w - pad && pad <= route[0].1 < h - pad
}

/// Draws the dot count, then one marker per dot. The routes, the count and
/// the final stream state are functions of the starting state and the bounds,
/// and every position lies inside the padded canvas.
pub fn dot_strategy(g: &mut Generator, width: u64, height: u64, pad: u64) -> (r: (
    Vec<Vec<(u64, u64)>>,
    u64,
))
    requires
        bounds_ok(width, height, pad),
    ensures
        r.1 == dots_count_of(old(g).state()),
        50 <= r.1 < 200,
        r.0@.len() == r.1,
        routes_view(r.0@) == dots_routes(
            next_state(old(g).state(), 50, 200),
            width,
            height,
            pad,
            r.1 as nat,
        ),
        final(g).state() == dot_state(
            next_state(old(g).state(), 50, 200),
            width,
            height,
            pad,
            r.1 as nat,
        ),
        forall|i: int|
            0 <= i < r.0@.len() ==> in_canvas(#[trigger] routes_view(r.0@)[i], width, height, pad),
{
    let count = g.next_in_range(50, 200);
    let ghost s0 = g.state();
    let mut dots: Vec<Vec<(u64, u64)>> = Vec::new();
    let mut i: u64 = 0;
    while i < count
        invariant
            bounds_ok(width, height, pad),
            i <= count,
            dots@.len() == i,
            g.state() == dot_state(s0, width, height, pad, i as nat),
            routes_view(dots@) == dots_routes(s0, width, height, pad, i as nat),
            forall|j: int|
                0 <= j < dots@.len() ==> in_canvas(
                    #[trigger] routes_view(dots@)[j],
                    width,
                    height,
                    pad,
                ),
        decreases count - i,
    {
        let ghost si = g.state();
        let x = g.next_in_range(pad, width - pad);
        let y = g.next_in_range(pad, height - pad);
        let mut route: Vec<(u64, u64)> = Vec::new();
        route.push((x, y));
        route.push((x + 1000, y));
        route.push((x + 500, y + 500));
        route.push((x, y));
        proof {
            assert(route@ =~= dot_at(s0, width, height, pad, i as nat));
            assert(g.state() == dot_state(s0, width, height, pad, (i + 1) as nat));
        }
        let ghost prev = dots@;
        let ghost rt = route@;
        dots.push(route);
        proof {
            assert forall|j: int| 0 <= j <= i implies routes_view(dots@)[j] == dots_routes(
                s0,
                width,
                height,
                pad,
                (i + 1) as nat,
            )[j] by {
                if j < i {
                    assert(routes_view(prev)[j] == dots_routes(
                        s0,
                        width,
                        height,
                        pad,
                        i as nat,
                    )[j]);
                    assert(dots@[j] == prev[j]);
                } else {
                    assert(dots@[j]@ == rt);
                }
            }
            assert(routes_view(dots@) =~= dots_routes(s0, width, height, pad, (i + 1) as nat));
            assert forall|j: int| 0 <= j < dots@.len() implies in_canvas(
                #[trigger] routes_view(dots@)[j],
                width,
                height,
                pad,
            ) by {
                if j < i {
                    assert(in_canvas(routes_view(prev)[j], width, height, pad));
                    assert(routes_view(dots@)[j] == routes_view(prev)[j]);
                } else {
                    assert(routes_view(dots@)[j] == rt);
                }
            }
        }
        i += 1;
    }
    (dots, count)
}

} // verus!
