//! Document assembly on top of the svg crate. The svg node types are opaque;
//! their attribute maps and children are named, and the serialized text is a
//! named function of those models, which the svg crate's sorted-attribute
//! writer makes deterministic. Everything placed into the document — path
//! data, opacities, dimensions, the trait map — is computed by the verified
//! pipeline.
use vstd::prelude::*;
use vstd::string::StringExecFns;

use crate::ArtError;
use crate::Opts;
use crate::OptsModel;
use crate::gen::Generator;
use crate::gen::next_state;
use crate::gen::seeded_state;
use crate::geometry::MAX_DIM;
use crate::geometry::dot_strategy;
use crate::geometry::dots_count_of;
use crate::geometry::dots_routes;
use crate::json::perf_json_chars;
use crate::json::traits_json;
use crate::json::traits_json_chars;
use crate::layers::GroupModel;
use crate::layers::Layer;
use crate::layers::LayerModel;
use crate::layers::RouteGroup;
use crate::layers::groups_view;
use crate::layers::layers_of;
use crate::layers::layers_view;
use crate::layers::make_layers;
use crate::pathdata::render_route;
use crate::pathdata::route_data;
use crate::perf::PerfRecords;
use crate::seed::decode_seed;
use crate::seed::seed_of;
use crate::seed::valid_hash;
use crate::text::fixed_chars;
use crate::text::fixed_string;
use crate::text::lemma_pow10_scales;

verus! {

#[verifier::external_type_specification]
#[verifier::external_body]
pub struct ExSVG(svg::node::element::SVG);

#[verifier::external_type_specification]
#[verifier::external_body]
pub struct ExGroup(svg::node::element::Group);

#[verifier::external_type_specification]
#[verifier::external_body]
pub struct ExPath(svg::node::element::Path);

/// The attributes a path element carries.
pub uninterp spec fn path_attrs(p: svg::node::element::Path) -> Map<Seq<char>, Seq<char>>;

/// The attributes a group element carries.
pub uninterp spec fn group_attrs(g: svg::node::element::Group) -> Map<Seq<char>, Seq<char>>;

/// The children of a group, each as its attribute map.
pub uninterp spec fn group_paths(g: svg::node::element::Group) -> Seq<Map<Seq<char>, Seq<char>>>;

/// The attributes of the document root.
pub uninterp spec fn doc_attrs(d: svg::node::element::SVG) -> Map<Seq<char>, Seq<char>>;

/// The groups of the document, each as its attributes and its children.
pub uninterp spec fn doc_groups(d: svg::node::element::SVG) -> Seq<
    (Map<Seq<char>, Seq<char>>, Seq<Map<Seq<char>, Seq<char>>>),
>;

/// The text the document serializes to. The svg crate writes attributes
/// sorted by name, so the text is a function of the model alone.
pub uninterp spec fn svg_text(
    attrs: Map<Seq<char>, Seq<char>>,
    groups: Seq<(Map<Seq<char>, Seq<char>>, Seq<Map<Seq<char>, Seq<char>>>)>,
) -> Seq<char>;

/// The attribute map of a fresh element.
pub open spec fn empty_attrs() -> Map<Seq<char>, Seq<char>> {
    Map::empty()
}

/// The child list of a fresh group.
pub open spec fn no_paths() -> Seq<Map<Seq<char>, Seq<char>>> {
    Seq::empty()
}

/// The group list of a fresh document.
pub open spec fn no_groups() -> Seq<(Map<Seq<char>, Seq<char>>, Seq<Map<Seq<char>, Seq<char>>>)> {
    Seq::empty()
}

/// Relies on `svg::node::element::Path::new`: a fresh path has no attributes.
#[verifier::external_body]
fn path_new() -> (r: svg::node::element::Path)
    ensures
        path_attrs(r) == empty_attrs(),
{
    svg::node::element::Path::new()
}

/// Relies on `Path::set`, which inserts into the attribute map.
#[verifier::external_body]
fn path_set(p: svg::node::element::Path, name: &str, value: &str) -> (r: svg::node::element::Path)
    ensures
        path_attrs(r) == path_attrs(p).insert(name@, value@),
{
    p.set(name, value)
}

/// Relies on `svg::node::element::Group::new`: a fresh group is empty.
#[verifier::external_body]
fn group_new() -> (r: svg::node::element::Group)
    ensures
        group_attrs(r) == empty_attrs(),
        group_paths(r) == no_paths(),
{
    svg::node::element::Group::new()
}

/// Relies on `Group::set`, which inserts into the attribute map and leaves
/// the children alone.
#[verifier::external_body]
fn group_set(g: svg::node::element::Group, name: &str, value: &str) -> (r:
    svg::node::element::Group)
    ensures
        group_attrs(r) == group_attrs(g).insert(name@, value@),
        group_paths(r) == group_paths(g),
{
    g.set(name, value)
}

/// Relies on `Group::add`, which appends a child and leaves the attributes
/// alone.
#[verifier::external_body]
fn group_add(g: svg::node::element::Group, p: svg::node::element::Path) -> (r:
    svg::node::element::Group)
    ensures
        group_attrs(r) == group_attrs(g),
        group_paths(r) == group_paths(g).push(path_attrs(p)),
{
    g.add(p)
}

/// Relies on `svg::Document::new`: a fresh document holds only the standard
/// namespace declaration.
#[verifier::external_body]
fn doc_new() -> (r: svg::node::element::SVG)
    ensures
        doc_attrs(r) == empty_attrs().insert("xmlns"@, "http://www.w3.org/2000/svg"@),
        doc_groups(r) == no_groups(),
{
    svg::Document::new()
}

/// Relies on `SVG::set`, which inserts into the attribute map and leaves the
/// children alone.
#[verifier::external_body]
fn doc_set(d: svg::node::element::SVG, name: &str, value: &str) -> (r: svg::node::element::SVG)
    ensures
        doc_attrs(r) == doc_attrs(d).insert(name@, value@),
        doc_groups(r) == doc_groups(d),
{
    d.set(name, value)
}

/// Relies on `SVG::add`, which appends a child group and leaves the
/// attributes alone.
#[verifier::external_body]
fn doc_add(d: svg::node::element::SVG, g: svg::node::element::Group) -> (r:
    svg::node::element::SVG)
    ensures
        doc_attrs(r) == doc_attrs(d),
        doc_groups(r) == doc_groups(d).push((group_attrs(g), group_paths(g))),
{
    d.add(g)
}

/// Relies on `Display` for svg elements (via `to_string`): the writer emits
/// attributes sorted by name and children in order, a pure function of the
/// document's contents.
#[verifier::external_body]
fn doc_to_string(d: &svg::node::element::SVG) -> (r: String)
    ensures
        r@ == svg_text(doc_attrs(*d), doc_groups(*d)),
{
    d.to_string()
}

/// The viewBox value: origin, then width and height.
pub open spec fn viewbox_chars(w: u64, h: u64) -> Seq<char> {
    "0 0 "@ + fixed_chars(w as nat, 1000) + " "@ + fixed_chars(h as nat, 1000)
}

/// A millimeter-suffixed dimension value.
pub open spec fn dim_mm_chars(v: u64) -> Seq<char> {
    fixed_chars(v as nat, 1000) + "mm"@
}

fn viewbox_string(w: u64, h: u64) -> (r: String)
    ensures
        r@ == viewbox_chars(w, h),
{
    proof {
        lemma_pow10_scales();
        reveal_strlit("0 0 ");
        reveal_strlit(" ");
    }
    let mut r = String::from_str("0 0 ");
    let ws = fixed_string(w, 1000);
    r.append(ws.as_str());
    r.append(" ");
    let hs = fixed_string(h, 1000);
    r.append(hs.as_str());
    proof {
        assert(r@ =~= viewbox_chars(w, h));
    }
    r
}

fn dim_mm_string(v: u64) -> (r: String)
    ensures
        r@ == dim_mm_chars(v),
{
    proof {
        lemma_pow10_scales();
        reveal_strlit("mm");
    }
    let mut r = fixed_string(v, 1000);
    r.append("mm");
    proof {
        assert(r@ =~= dim_mm_chars(v));
    }
    r
}

/// The attribute map of one path: its opacity and its quantized path data.
pub open spec fn path_model(opacity: u64, route: Seq<(u64, u64)>) -> Map<Seq<char>, Seq<char>> {
    Map::<Seq<char>, Seq<char>>::empty().insert("opacity"@, fixed_chars(opacity as nat, 1000)).insert(
        "d"@,
        route_data(route),
    )
}

/// The children of one layer's group.
pub open spec fn paths_model(l: LayerModel) -> Seq<Map<Seq<char>, Seq<char>>> {
    Seq::new(l.routes.len(), |i: int| path_model(l.opacities[i], l.routes[i]))
}

/// The attribute map of one layer's group: an editor layer, stroked and
/// unfilled, with round caps and a fixed stroke width.
pub open spec fn group_attrs_model(l: LayerModel) -> Map<Seq<char>, Seq<char>> {
    Map::<Seq<char>, Seq<char>>::empty().insert("inkscape:groupmode"@, "layer"@).insert(
        "inkscape:label"@,
        l.label,
    ).insert("fill"@, "none"@).insert("stroke"@, l.color).insert(
        "stroke-linecap"@,
        "round"@,
    ).insert("stroke-width"@, "0.35"@)
}

pub open spec fn groups_model(ls: Seq<LayerModel>) -> Seq<
    (Map<Seq<char>, Seq<char>>, Seq<Map<Seq<char>, Seq<char>>>),
> {
    Seq::new(ls.len(), |i: int| (group_attrs_model(ls[i]), paths_model(ls[i])))
}

/// The three route groups of a generation: the dot markers on the first
/// layer, the second and third layers empty.
pub open spec fn art_groups(o: OptsModel) -> Seq<GroupModel> {
    let s0 = seeded_state(seed_of(o.hash));
    let s1 = next_state(s0, 50, 200);
    seq![
        GroupModel {
            color: "#0FF"@,
            label: o.layer1_name,
            routes: dots_routes(s1, o.width, o.height, o.pad, dots_count_of(s0) as nat),
        },
        GroupModel { color: "#F0F"@, label: o.layer2_name, routes: Seq::empty() },
        GroupModel { color: "#FF0"@, label: o.layer3_name, routes: Seq::empty() },
    ]
}

pub open spec fn art_layers(o: OptsModel) -> Seq<LayerModel> {
    layers_of(art_groups(o))
}

/// The document's root attributes, in the order they are assigned.
pub open spec fn document_attrs(o: OptsModel) -> Map<Seq<char>, Seq<char>> {
    Map::<Seq<char>, Seq<char>>::empty().insert("xmlns"@, "http://www.w3.org/2000/svg"@).insert(
        "data-hash"@,
        o.hash,
    ).insert("data-traits"@, traits_json_chars(dots_count_of(seeded_state(seed_of(o.hash))))).insert(
        "viewBox"@,
        viewbox_chars(o.width, o.height),
    ).insert("width"@, dim_mm_chars(o.width)).insert("height"@, dim_mm_chars(o.height)).insert(
        "style"@,
        "background:white"@,
    ).insert("xmlns:inkscape"@, "http://www.inkscape.org/namespaces/inkscape"@).insert(
        "xmlns"@,
        "http://www.w3.org/2000/svg"@,
    )
}

pub open spec fn document_groups(o: OptsModel) -> Seq<
    (Map<Seq<char>, Seq<char>>, Seq<Map<Seq<char>, Seq<char>>>),
> {
    groups_model(art_layers(o))
}

/// The timing attribute's value: the report of the two phases and the
/// implicit total, in that order, with the given nanosecond readings.
pub open spec fn perf_attr_chars(dots_ns: u64, svg_ns: u64, total_ns: u64) -> Seq<char> {
    perf_json_chars(seq![("dots"@, dots_ns), ("svg"@, svg_ns), ("total"@, total_ns)])
}

/// Builds the graphical group of one layer.
#[verifier::loop_isolation(false)]
fn layer_group(l: &Layer) -> (g: svg::node::element::Group)
    requires
        l@.opacities.len() == l@.routes.len(),
    ensures
        group_attrs(g) == group_attrs_model(l@),
        group_paths(g) == paths_model(l@),
{
    let mut g = group_new();
    g = group_set(g, "inkscape:groupmode", "layer");
    g = group_set(g, "inkscape:label", l.label.as_str());
    g = group_set(g, "fill", "none");
    g = group_set(g, "stroke", l.color.as_str());
    g = group_set(g, "stroke-linecap", "round");
    g = group_set(g, "stroke-width", "0.35");
    proof {
        lemma_pow10_scales();
    }
    let mut i: usize = 0;
    while i < l.routes.len()
        invariant
            i <= l.routes@.len(),
            group_attrs(g) == group_attrs_model(l@),
            group_paths(g) =~= paths_model(l@).take(i as int),
        decreases l.routes@.len() - i,
    {
        let mut p = path_new();
        let ops = fixed_string(l.opacities[i], 1000);
        p = path_set(p, "opacity", ops.as_str());
        let d = render_route(&l.routes[i]);
        p = path_set(p, "d", d.as_str());
        proof {
            assert(path_attrs(p) == path_model(l@.opacities[i as int], l@.routes[i as int]));
        }
        g = group_add(g, p);
        proof {
            assert(paths_model(l@).take(i + 1) =~= paths_model(l@).take(i as int).push(
                path_model(l@.opacities[i as int], l@.routes[i as int]),
            ));
        }
        i += 1;
    }
    proof {
        assert(paths_model(l@).take(l@.routes.len() as int) =~= paths_model(l@));
    }
    g
}

/// Runs the whole pipeline and assembles the document. The result is a
/// function of the options alone: the groups, their paths, the trait map and
/// every root attribute are pinned, except that with debug enabled a timing
/// attribute with unspecified contents is added.
#[verifier::loop_isolation(false)]
pub fn art(opts: &Opts) -> (r: Result<svg::node::element::SVG, ArtError>)
    requires
        2 * opts@.pad < opts@.width,
        2 * opts@.pad < opts@.height,
        opts@.width <= MAX_DIM,
        opts@.height <= MAX_DIM,
    ensures
        r is Ok <==> valid_hash(opts@.hash),
        r matches Ok(d) ==> doc_groups(d) == document_groups(opts@),
        !opts@.debug ==> (r matches Ok(d) ==> doc_attrs(d) == document_attrs(opts@)),
        opts@.debug ==> (r matches Ok(d) ==> (exists|a: u64, b: u64, c: u64|
            doc_attrs(d) == document_attrs(opts@).insert(
                "data-perf"@,
                perf_attr_chars(a, b, c),
            ))),
        r is Err ==> r == Err::<svg::node::element::SVG, ArtError>(ArtError::MalformedHash),
{
    let mut perf = PerfRecords::start(opts.debug);
    proof {
        if opts@.debug {
            assert(perf@.started.dom() =~= Set::<Seq<char>>::empty().insert("total"@));
        }
    }
    let seed = match decode_seed(opts.hash.as_str()) {
        Ok(s) => s,
        Err(e) => {
            return Err(e);
        },
    };
    let mut gen = Generator::new(&seed);
    perf.span("dots");
    proof {
        if opts@.debug {
            assert(perf@.started.dom().contains("dots"@));
            assert(perf@.started.dom().contains("total"@));
            assert(perf@.spans =~= crate::perf::no_spans());
        }
    }
    let (dots, count) = dot_strategy(&mut gen, opts.width, opts.height, opts.pad);
    perf.span_end("dots");
    proof {
        if opts@.debug {
            assert(crate::perf::spans_labels(perf@.spans) =~= seq!["dots"@]);
            assert(perf@.started.dom().contains("total"@));
        }
    }
    perf.span("svg");
    proof {
        if opts@.debug {
            assert(perf@.started.dom().contains("svg"@));
            assert(perf@.started.dom().contains("total"@));
            assert(crate::perf::spans_labels(perf@.spans) =~= seq!["dots"@]);
        }
    }
    let mut groups_vec: Vec<RouteGroup> = Vec::new();
    groups_vec.push(
        RouteGroup { color: "#0FF".to_owned(), label: opts.layer1_name.clone(), routes: dots },
    );
    groups_vec.push(
        RouteGroup { color: "#F0F".to_owned(), label: opts.layer2_name.clone(), routes: Vec::new() },
    );
    groups_vec.push(
        RouteGroup { color: "#FF0".to_owned(), label: opts.layer3_name.clone(), routes: Vec::new() },
    );
    proof {
        assert(crate::geometry::routes_view(Seq::<Vec<(u64, u64)>>::empty()) =~= Seq::<
            Seq<(u64, u64)>,
        >::empty());
        assert(groups_view(groups_vec@) =~~= art_groups(opts@));
    }
    let ghost gv = groups_view(groups_vec@);
    let (layers, _inks) = make_layers(groups_vec);
    perf.span_end("svg");
    proof {
        if opts@.debug {
            assert(crate::perf::spans_labels(perf@.spans) =~= seq!["dots"@, "svg"@]);
            assert(perf@.started.dom().contains("total"@));
        }
    }
    let tj = traits_json(count);
    let mut doc = doc_new();
    doc = doc_set(doc, "data-hash", opts.hash.as_str());
    doc = doc_set(doc, "data-traits", tj.as_str());
    let vb = viewbox_string(opts.width, opts.height);
    doc = doc_set(doc, "viewBox", vb.as_str());
    let wmm = dim_mm_string(opts.width);
    doc = doc_set(doc, "width", wmm.as_str());
    let hmm = dim_mm_string(opts.height);
    doc = doc_set(doc, "height", hmm.as_str());
    doc = doc_set(doc, "style", "background:white");
    doc = doc_set(doc, "xmlns:inkscape", "http://www.inkscape.org/namespaces/inkscape");
    doc = doc_set(doc, "xmlns", "http://www.w3.org/2000/svg");
    proof {
        assert(doc_attrs(doc) == document_attrs(opts@));
    }
    if opts.debug {
        let ghost pm = perf@;
        let report = perf.end();
        proof {
            reveal_strlit("dots");
            reveal_strlit("svg");
            reveal_strlit("total");
            reveal_with_fuel(crate::perf::first_labels, 5);
            let cl = crate::perf::closing_labels(pm);
            assert(cl =~= seq!["dots"@, "svg"@, "total"@]);
            assert("dots"@.len() == 4 && "svg"@.len() == 3 && "total"@.len() == 5);
            let l1 = seq!["dots"@];
            let l2 = seq!["dots"@, "svg"@];
            assert(l1.drop_last() =~= Seq::<Seq<char>>::empty());
            assert(crate::perf::first_labels(l1) =~= l1);
            assert(!l1.contains("svg"@)) by {
                if l1.contains("svg"@) {
                    let i = choose|i: int| 0 <= i < l1.len() && l1[i] == "svg"@;
                    assert(l1[0] == "svg"@);
                }
            }
            assert(l2.drop_last() =~= l1);
            assert(crate::perf::first_labels(l2) =~= l2);
            assert(!l2.contains("total"@)) by {
                if l2.contains("total"@) {
                    let i = choose|i: int| 0 <= i < l2.len() && l2[i] == "total"@;
                    assert(l2[i] == "total"@);
                }
            }
            assert(cl.drop_last() =~= l2);
            assert(crate::perf::first_labels(cl) =~= cl);
            assert(crate::perf::entry_labels(report.per_label@) =~= cl);
            assert(report.per_label@.len() == 3);
            assert(report.per_label@[0].0@ == "dots"@);
            assert(report.per_label@[1].0@ == "svg"@);
            assert(report.per_label@[2].0@ == "total"@);
        }
        let pj = report.to_json();
        proof {
            let entries = Seq::new(
                report.per_label@.len(),
                |i: int| (report.per_label@[i].0@, report.per_label@[i].1),
            );
            assert(entries =~= seq![
                ("dots"@, report.per_label@[0].1),
                ("svg"@, report.per_label@[1].1),
                ("total"@, report.per_label@[2].1),
            ]);
            assert(pj@ == perf_attr_chars(
                report.per_label@[0].1,
                report.per_label@[1].1,
                report.per_label@[2].1,
            ));
        }
        doc = doc_set(doc, "data-perf", pj.as_str());
        proof {
            assert(doc_attrs(doc) == document_attrs(opts@).insert(
                "data-perf"@,
                perf_attr_chars(
                    report.per_label@[0].1,
                    report.per_label@[1].1,
                    report.per_label@[2].1,
                ),
            ));
        }
    }
    let mut li: usize = 0;
    let ghost attrs_now = doc_attrs(doc);
    while li < layers.len()
        invariant
            li <= layers@.len(),
            doc_attrs(doc) == attrs_now,
            doc_groups(doc) =~= groups_model(layers_view(layers@).take(li as int)),
        decreases layers@.len() - li,
    {
        proof {
            let ks = crate::layers::kept(gv);
            assert(layers_of(gv).len() == ks.len());
            assert(layers_view(layers@)[li as int] == layers@[li as int]@);
            assert(layers@[li as int]@ == layers_of(gv)[li as int]);
            assert(ks.map_values(
                |g: crate::layers::GroupModel| crate::layers::layer_of_group(g),
            )[li as int] == crate::layers::layer_of_group(ks[li as int]));
        }
        let grp = layer_group(&layers[li]);
        doc = doc_add(doc, grp);
        proof {
            assert(groups_model(layers_view(layers@).take(li + 1)) =~= groups_model(
                layers_view(layers@).take(li as int),
            ).push((group_attrs(grp), group_paths(grp))));
        }
        li += 1;
    }
    proof {
        assert(layers_view(layers@).take(layers@.len() as int) =~= layers_view(layers@));
        assert(doc_groups(doc) =~= document_groups(opts@));
    }
    Ok(doc)
}

/// Runs the pipeline and serializes the document. For fixed options the text
/// is a fixed function of them (the timing attribute aside), so two calls
/// with equal options yield byte-identical documents.
pub fn render(opts: &Opts) -> (r: Result<String, ArtError>)
    requires
        2 * opts@.pad < opts@.width,
        2 * opts@.pad < opts@.height,
        opts@.width <= MAX_DIM,
        opts@.height <= MAX_DIM,
    ensures
        r is Ok <==> valid_hash(opts@.hash),
        !opts@.debug ==> (r matches Ok(s) ==> s@ == svg_text(
            document_attrs(opts@),
            document_groups(opts@),
        )),
        opts@.debug ==> (r matches Ok(s) ==> (exists|a: u64, b: u64, c: u64|
            s@ == svg_text(
                document_attrs(opts@).insert("data-perf"@, perf_attr_chars(a, b, c)),
                document_groups(opts@),
            ))),
        r is Err ==> r == Err::<String, ArtError>(ArtError::MalformedHash),
{
    match art(opts) {
        Ok(d) => {
            let text = doc_to_string(&d);
            proof {
                if opts@.debug {
                    let (a, b, c) = choose|a: u64, b: u64, c: u64|
                        doc_attrs(d) == document_attrs(opts@).insert(
                            "data-perf"@,
                            perf_attr_chars(a, b, c),
                        );
                    assert(text@ == svg_text(
                        document_attrs(opts@).insert("data-perf"@, perf_attr_chars(a, b, c)),
                        document_groups(opts@),
                    ));
                }
            }
            Ok(text)
        },
        Err(e) => Err(e),
    }
}

} // verus!
