//! Route rendering: a route becomes path data — a move to the first point,
//! then a line to every point of the route, the first included, so a closed
//! marker draws its final segment back to its origin. Every coordinate is
//! quantized by truncation (never rounding) from thousandths to hundredths of
//! a millimeter before it is printed.
use vstd::prelude::*;
use vstd::string::StringExecFns;

use crate::text::fixed_chars;
use crate::text::fixed_string;
use crate::text::lemma_pow10_scales;

verus! {

/// A coordinate, quantized: hundredths of a millimeter, truncated toward zero.
pub open spec fn quantized(v: u64) -> nat {
    (v / 10) as nat
}

/// One printed coordinate pair.
pub open spec fn coord_pair_chars(p: (u64, u64)) -> Seq<char> {
    fixed_chars(quantized(p.0), 100) + seq![','] + fixed_chars(quantized(p.1), 100)
}

/// The line commands for every point of a route.
pub open spec fn line_segs(route: Seq<(u64, u64)>) -> Seq<char>
    decreases route.len(),
{
    if route.len() == 0 {
        Seq::empty()
    } else {
        seq![' ', 'L'] + coord_pair_chars(route[0]) + line_segs(route.drop_first())
    }
}

/// The full path data of a route; an empty route renders nothing.
pub open spec fn route_data(route: Seq<(u64, u64)>) -> Seq<char> {
    if route.len() == 0 {
        Seq::empty()
    } else {
        seq!['M'] + coord_pair_chars(route[0]) + line_segs(route)
    }
}

proof fn lemma_line_segs_push(route: Seq<(u64, u64)>, p: (u64, u64))
    ensures
        line_segs(route.push(p)) == line_segs(route) + seq![' ', 'L'] + coord_pair_chars(p),
    decreases route.len(),
{
    if route.len() == 0 {
        let single = route.push(p);
        assert(single[0] == p);
        assert(single.drop_first() =~= Seq::<(u64, u64)>::empty());
        assert(line_segs(single.drop_first()) =~= Seq::<char>::empty());
        assert(line_segs(single) =~= seq![' ', 'L'] + coord_pair_chars(p));
        assert(line_segs(route) =~= Seq::<char>::empty());
        assert(line_segs(route.push(p)) =~= line_segs(route) + seq![' ', 'L'] + coord_pair_chars(
            p,
        ));
    } else {
        assert(route.push(p).drop_first() =~= route.drop_first().push(p));
        lemma_line_segs_push(route.drop_first(), p);
        assert(line_segs(route.push(p)) =~= line_segs(route) + seq![' ', 'L'] + coord_pair_chars(
            p,
        ));
    }
}

fn coord_pair_string(p: (u64, u64)) -> (s: String)
    ensures
        s@ == coord_pair_chars(p),
{
    proof {
        lemma_pow10_scales();
        reveal_strlit(",");
    }
    let mut s = fixed_string(p.0 / 10, 100);
    s.append(",");
    let ys = fixed_string(p.1 / 10, 100);
    s.append(ys.as_str());
    proof {
        assert(","@ =~= seq![',']);
        assert(s@ =~= coord_pair_chars(p));
    }
    s
}

/// Renders one route into its quantized path data.
pub fn render_route(route: &Vec<(u64, u64)>) -> (d: String)
    ensures
        d@ == route_data(route@),
{
    if route.len() == 0 {
        return String::new();
    }
    proof {
        reveal_strlit("M");
        reveal_strlit(" L");
    }
    let mut s = String::from_str("M");
    let first = coord_pair_string(route[0]);
    s.append(first.as_str());
    proof {
        assert("M"@ =~= seq!['M']);
        assert(" L"@ =~= seq![' ', 'L']);
        assert(route@.take(0) =~= Seq::<(u64, u64)>::empty());
        assert(s@ =~= seq!['M'] + coord_pair_chars(route@[0]) + line_segs(route@.take(0)));
    }
    let mut i: usize = 0;
    while i < route.len()
        invariant
            i <= route@.len(),
            route@.len() > 0,
            s@ == seq!['M'] + coord_pair_chars(route@[0]) + line_segs(route@.take(i as int)),
        decreases route@.len() - i,
    {
        proof {
            reveal_strlit(" L");
            assert(" L"@ =~= seq![' ', 'L']);
        }
        s.append(" L");
        let pair = coord_pair_string(route[i]);
        s.append(pair.as_str());
        proof {
            assert(route@.take(i + 1) =~= route@.take(i as int).push(route@[i as int]));
            lemma_line_segs_push(route@.take(i as int), route@[i as int]);
            assert(s@ =~= seq!['M'] + coord_pair_chars(route@[0]) + line_segs(
                route@.take(i + 1),
            ));
        }
        i += 1;
    }
    proof {
        assert(route@.take(route@.len() as int) =~= route@);
    }
    s
}

} // verus!
