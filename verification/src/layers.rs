//! Layer assembly: route groups become rendering-ready layers. Groups without
//! routes are dropped, label and all. Each kept layer assigns its routes a
//! falling opacity: route `i` of `n` (counting from 1) gets
//! `0.6 - i * (0.15 / n)`, truncated to three decimals — carried here exactly,
//! in thousandths. The emitted labels are collected, sorted, and a pair of
//! exactly two equal labels collapses to one reported ink.
use vstd::prelude::*;
use vstd::relations::sorted_by;
use vstd::relations::total_ordering;
use vstd::multiset::Multiset;
use vstd::seq_lib::lemma_sorted_unique;

use crate::geometry::routes_view;
use crate::order::lemma_lex_total_ordering;
use crate::order::lex_le;
use crate::order::lex_leq;
use crate::order::str_lex_le;

verus! {

broadcast use vstd::seq_lib::group_to_multiset_ensures;

/// A (color, label, routes) triple produced by a geometry strategy.
pub struct RouteGroup {
    pub color: String,
    pub label: String,
    pub routes: Vec<Vec<(u64, u64)>>,
}

/// The mathematical model of a route group.
#[verifier::ext_equal]
pub struct GroupModel {
    pub color: Seq<char>,
    pub label: Seq<char>,
    pub routes: Seq<Seq<(u64, u64)>>,
}

impl View for RouteGroup {
    type V = GroupModel;

    open spec fn view(&self) -> GroupModel {
        GroupModel { color: self.color@, label: self.label@, routes: routes_view(self.routes@) }
    }
}

/// A rendering-ready layer: routes in order, each with its opacity in
/// thousandths.
pub struct Layer {
    pub color: String,
    pub label: String,
    pub routes: Vec<Vec<(u64, u64)>>,
    pub opacities: Vec<u64>,
}

/// The mathematical model of a layer.
#[verifier::ext_equal]
pub struct LayerModel {
    pub color: Seq<char>,
    pub label: Seq<char>,
    pub routes: Seq<Seq<(u64, u64)>>,
    pub opacities: Seq<u64>,
}

impl View for Layer {
    type V = LayerModel;

    open spec fn view(&self) -> LayerModel {
        LayerModel {
            color: self.color@,
            label: self.label@,
            routes: routes_view(self.routes@),
            opacities: self.opacities@,
        }
    }
}

pub open spec fn groups_view(s: Seq<RouteGroup>) -> Seq<GroupModel> {
    Seq::new(s.len(), |i: int| s[i]@)
}

pub open spec fn layers_view(s: Seq<Layer>) -> Seq<LayerModel> {
    Seq::new(s.len(), |i: int| s[i]@)
}

pub open spec fn strings_view(s: Seq<String>) -> Seq<Seq<char>> {
    Seq::new(s.len(), |i: int| s[i]@)
}

/// The opacity of route `i` of `n`, in thousandths: the exact value of
/// `1000 * (0.6 - i * (0.15 / n))`, truncated toward zero.
pub open spec fn opacity_milli(i: int, n: int) -> int
    recommends
        1 <= i <= n,
{
    (600 * n - 150 * i) / n
}

/// The opacities of a layer of `n` routes, in traversal order.
pub open spec fn opacities_of(n: int) -> Seq<u64>
    recommends
        n >= 0,
{
    Seq::new(n as nat, |k: int| opacity_milli(k + 1, n) as u64)
}

/// The groups a layer is made of: those with at least one route.
pub open spec fn kept(gs: Seq<GroupModel>) -> Seq<GroupModel> {
    gs.filter(|g: GroupModel| g.routes.len() > 0)
}

pub open spec fn layer_of_group(g: GroupModel) -> LayerModel {
    LayerModel {
        color: g.color,
        label: g.label,
        routes: g.routes,
        opacities: opacities_of(g.routes.len() as int),
    }
}

/// The layers of an input list: one per non-empty group, in input order.
pub open spec fn layers_of(gs: Seq<GroupModel>) -> Seq<LayerModel> {
    kept(gs).map_values(|g: GroupModel| layer_of_group(g))
}

/// The labels the kept layers emit, in input order.
pub open spec fn labels_of(gs: Seq<GroupModel>) -> Seq<Seq<char>> {
    kept(gs).map_values(|g: GroupModel| g.label)
}

/// Exactly two equal labels collapse to one; any other list is unchanged.
pub open spec fn dedup_two(l: Seq<Seq<char>>) -> Seq<Seq<char>> {
    if l.len() == 2 && l[0] == l[1] {
        seq![l[0]]
    } else {
        l
    }
}

/// The reported ink list: kept labels, sorted, a pair of equals collapsed.
pub open spec fn inks_of(gs: Seq<GroupModel>) -> Seq<Seq<char>> {
    dedup_two(labels_of(gs).sort_by(lex_leq()))
}

/// Within one layer, opacities never rise along the route order.
pub proof fn lemma_opacity_monotone(n: int, i: int, j: int)
    requires
        1 <= i <= j <= n,
    ensures
        opacity_milli(j, n) <= opacity_milli(i, n),
{
    vstd::arithmetic::div_mod::lemma_div_is_ordered(600 * n - 150 * j, 600 * n - 150 * i, n);
}

/// In a layer of at most 150 routes the opacity falls strictly between any
/// two routes. (With more routes the step is below one thousandth, so two
/// neighboring routes can share a truncated opacity.)
pub proof fn lemma_opacity_strictly_falls(n: int, i: int, j: int)
    requires
        1 <= i < j <= n,
        n <= 150,
    ensures
        opacity_milli(j, n) < opacity_milli(i, n),
{
    let a = 600 * n - 150 * j;
    let b = 600 * n - 150 * i;
    assert(a + n <= b);
    vstd::arithmetic::div_mod::lemma_div_is_ordered(n + a, b, n);
    vstd::arithmetic::div_mod::lemma_div_plus_one(a, n);
}

/// In any layer of two or more routes, the last route is strictly fainter
/// than the first.
pub proof fn lemma_opacity_first_to_last(n: int)
    requires
        2 <= n,
    ensures
        opacity_milli(n, n) < opacity_milli(1, n),
{
    let a = 600 * n - 150 * n;
    let b = 600 * n - 150;
    assert(a + n <= b);
    vstd::arithmetic::div_mod::lemma_div_is_ordered(n + a, b, n);
    vstd::arithmetic::div_mod::lemma_div_plus_one(a, n);
}

/// Every assembled layer holds at least one route: empty groups are dropped.
pub proof fn lemma_layers_nonempty(gs: Seq<GroupModel>, i: int)
    requires
        0 <= i < layers_of(gs).len(),
    ensures
        layers_of(gs)[i].routes.len() > 0,
{
    gs.lemma_filter_pred(|g: GroupModel| g.routes.len() > 0, i);
}

/// Exactly two equal labels are reported once.
pub proof fn lemma_label_pair_collapses(l: Seq<Seq<char>>)
    requires
        l.len() == 2,
        l[0] == l[1],
    ensures
        dedup_two(l).len() == 1,
        dedup_two(l)[0] == l[0],
{
}

/// Three or more labels are reported as they stand, equal or not.
pub proof fn lemma_label_triple_kept(l: Seq<Seq<char>>)
    requires
        l.len() >= 3,
    ensures
        dedup_two(l) == l,
{
}

/// The opacities of one layer, computed exactly.
fn opacities_for(n: usize) -> (r: Vec<u64>)
    requires
        1 <= n <= 0xFFFF_FFFFusize,
    ensures
        r@ == opacities_of(n as int),
{
    let nn = n as u64;
    let mut r: Vec<u64> = Vec::new();
    let mut i: u64 = 1;
    while i <= nn
        invariant
            1 <= i <= nn + 1,
            nn == n,
            nn <= 0xFFFF_FFFFu64,
            r@.len() == i - 1,
            forall|k: int| 0 <= k < r@.len() ==> r@[k] == opacity_milli(k + 1, nn as int) as u64,
        decreases nn + 1 - i,
    {
        let v = (600 * nn - 150 * i) / nn;
        proof {
            assert(600 * nn - 150 * i >= 0);
            assert(v == opacity_milli(i as int, nn as int));
        }
        r.push(v);
        i += 1;
    }
    proof {
        assert(r@ =~= opacities_of(n as int));
    }
    r
}

/// Sorts strings into the label order.
fn sort_strings(input: Vec<String>) -> (r: Vec<String>)
    ensures
        strings_view(r@) == strings_view(input@).sort_by(lex_leq()),
{
    let ghost orig = strings_view(input@);
    let mut rest = input;
    let mut out: Vec<String> = Vec::new();
    while rest.len() > 0
        invariant
            strings_view(out@).to_multiset().add(strings_view(rest@).to_multiset())
                == orig.to_multiset(),
            forall|p: int, q: int|
                0 <= p < out@.len() && 0 <= q < rest@.len() ==> lex_le(
                    #[trigger] out@[p]@,
                    #[trigger] rest@[q]@,
                ),
            forall|p: int, q: int| 0 <= p < q < out@.len() ==> lex_le(out@[p]@, out@[q]@),
        decreases rest@.len(),
    {
        let mut m: usize = 0;
        let mut k: usize = 1;
        proof {
            crate::order::lemma_lex_refl(rest@[0]@);
        }
        while k < rest.len()
            invariant
                0 <= m < k <= rest@.len(),
                rest@.len() > 0,
                forall|j: int| 0 <= j < k ==> lex_le(rest@[m as int]@, #[trigger] rest@[j]@),
            decreases rest@.len() - k,
        {
            if !str_lex_le(rest[m].as_str(), rest[k].as_str()) {
                proof {
                    crate::order::lemma_lex_total(rest@[m as int]@, rest@[k as int]@);
                }
                let ghost oldm = m;
                m = k;
                proof {
                    assert forall|j: int| 0 <= j < k + 1 implies lex_le(
                        rest@[m as int]@,
                        #[trigger] rest@[j]@,
                    ) by {
                        if j < k {
                            crate::order::lemma_lex_trans(
                                rest@[m as int]@,
                                rest@[oldm as int]@,
                                rest@[j]@,
                            );
                        } else {
                            crate::order::lemma_lex_refl(rest@[m as int]@);
                        }
                    }
                }
            }
            k += 1;
        }
        let ghost before = strings_view(rest@);
        let x = rest.remove(m);
        proof {
            assert(strings_view(rest@) =~= before.remove(m as int));
            assert(before.to_multiset().remove(before[m as int]) =~= strings_view(
                rest@,
            ).to_multiset());
        }
        let ghost outb = strings_view(out@);
        out.push(x);
        proof {
            assert(strings_view(out@) =~= outb.push(x@));
        }
    }
    proof {
        lemma_lex_total_ordering();
        orig.lemma_sort_by_ensures(lex_leq());
        assert(strings_view(rest@).to_multiset() =~= Multiset::<Seq<char>>::empty());
        assert(strings_view(out@).to_multiset() =~= orig.to_multiset());
        assert(sorted_by(strings_view(out@), lex_leq()));
        lemma_sorted_unique(strings_view(out@), orig.sort_by(lex_leq()), lex_leq());
        assert(strings_view(out@) == orig.sort_by(lex_leq()));
    }
    out
}

/// Assembles layers: keeps non-empty groups in order with their opacities,
/// and reports the sorted, pair-collapsed ink labels.
pub fn make_layers(groups: Vec<RouteGroup>) -> (r: (Vec<Layer>, Vec<String>))
    requires
        forall|i: int|
            0 <= i < groups@.len() ==> (#[trigger] groups@[i]).routes@.len() <= 0xFFFF_FFFF,
    ensures
        layers_view(r.0@) == layers_of(groups_view(groups@)),
        strings_view(r.1@) == inks_of(groups_view(groups@)),
{
    let ghost orig = groups_view(groups@);
    let mut rest = groups;
    let mut layers: Vec<Layer> = Vec::new();
    let mut labels: Vec<String> = Vec::new();
    let ghost mut done: int = 0;
    while rest.len() > 0
        invariant
            0 <= done,
            done + rest@.len() == orig.len(),
            groups_view(rest@) =~= orig.skip(done),
            forall|i: int| 0 <= i < rest@.len() ==> (#[trigger] rest@[i]).routes@.len() <= 0xFFFF_FFFF,
            layers_view(layers@) == layers_of(orig.take(done)),
            strings_view(labels@) == labels_of(orig.take(done)),
        decreases rest@.len(),
    {
        let ghost before = rest@;
        let g = rest.remove(0);
        proof {
            assert(g == before[0]);
            assert(groups_view(before)[0] == orig.skip(done)[0]);
            assert(g@ == orig[done]);
            assert forall|ii: int| 0 <= ii < rest@.len() implies groups_view(rest@)[ii]
                == orig.skip(done + 1)[ii] by {
                assert(rest@[ii] == before[ii + 1]);
                assert(groups_view(before)[ii + 1] == orig.skip(done)[ii + 1]);
            }
            assert(groups_view(rest@) =~= orig.skip(done + 1));
            assert(orig.take(done + 1).drop_last() =~= orig.take(done));
            assert(orig.take(done + 1).last() == orig[done]);
        }
        let ghost lv = layers_view(layers@);
        let ghost sv = strings_view(labels@);
        if g.routes.len() > 0 {
            let n = g.routes.len();
            let ops = opacities_for(n);
            labels.push(g.label.clone());
            let lay = Layer { color: g.color, label: g.label, routes: g.routes, opacities: ops };
            proof {
                assert(lay@ == layer_of_group(orig[done]));
            }
            layers.push(lay);
            proof {
                reveal_with_fuel(Seq::<GroupModel>::filter, 2);
                assert(kept(orig.take(done + 1)) =~= kept(orig.take(done)).push(orig[done]));
                assert(layers_view(layers@) =~= lv.push(layer_of_group(orig[done])));
                assert(layers_of(orig.take(done + 1)) =~= layers_of(orig.take(done)).push(
                    layer_of_group(orig[done]),
                ));
                assert(strings_view(labels@) =~= sv.push(orig[done].label));
                assert(labels_of(orig.take(done + 1)) =~= labels_of(orig.take(done)).push(
                    orig[done].label,
                ));
            }
        } else {
            proof {
                reveal_with_fuel(Seq::<GroupModel>::filter, 2);
                assert(kept(orig.take(done + 1)) =~= kept(orig.take(done)));
                assert(layers_of(orig.take(done + 1)) =~= layers_of(orig.take(done)));
                assert(labels_of(orig.take(done + 1)) =~= labels_of(orig.take(done)));
            }
        }
        proof {
            done = done + 1;
        }
    }
    proof {
        assert(orig.take(done) =~= orig);
    }
    let mut inks = sort_strings(labels);
    let ghost sorted = strings_view(inks@);
    if inks.len() == 2 {
        let equal = inks[0].eq(&inks[1]);
        if equal {
            inks.remove(1);
            proof {
                assert(strings_view(inks@) =~= dedup_two(sorted));
            }
        }
    }
    proof {
        assert(strings_view(inks@) =~= inks_of(orig));
    }
    (layers, inks)
}

} // verus!
