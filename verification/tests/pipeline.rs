use plottable_dots::ArtError;
use plottable_dots::Generator;
use plottable_dots::Opts;
use plottable_dots::PerfRecords;
use plottable_dots::PerfResult;
use plottable_dots::RouteGroup;
use plottable_dots::decode_seed;
use plottable_dots::dot_strategy;
use plottable_dots::make_layers;
use plottable_dots::render;
use plottable_dots::render_route;
use plottable_dots::traits_json;

// A fixture hash: two prefix characters, then 49 base-58 characters. Its
// 43-character tail decodes to exactly 32 bytes.
fn fixture_hash() -> String {
    let mut h = String::from("oo");
    for _ in 0..49 {
        h.push('m');
    }
    h
}

fn fixture_opts(debug: bool) -> Opts {
    Opts {
        hash: fixture_hash(),
        width: 100_000,
        height: 150_000,
        pad: 5_000,
        layer1_name: String::from("Black"),
        layer2_name: String::from("Red"),
        layer3_name: String::from("Gold"),
        debug,
    }
}

#[test]
fn determinism_same_options_same_bytes() {
    let a = render(&fixture_opts(false)).unwrap();
    let b = render(&fixture_opts(false)).unwrap();
    assert_eq!(a, b);
}

#[test]
fn seed_valid_hash_gives_32_bytes() {
    let seed = decode_seed(&fixture_hash()).unwrap();
    assert_eq!(seed.len(), 32);
}

#[test]
fn seed_short_hash_is_malformed() {
    assert_eq!(decode_seed("oo123"), Err(ArtError::MalformedHash));
    assert_eq!(decode_seed(""), Err(ArtError::MalformedHash));
}

#[test]
fn seed_bad_alphabet_is_malformed() {
    // '0' is not a base-58 character.
    let mut h = String::from("oo0");
    for _ in 0..48 {
        h.push('m');
    }
    assert_eq!(decode_seed(&h), Err(ArtError::MalformedHash));
}

#[test]
fn seed_wrong_length_is_malformed() {
    // 43 ones decode to 43 zero bytes, not 32.
    let mut h = String::from("oo");
    for _ in 0..49 {
        h.push('1');
    }
    assert_eq!(decode_seed(&h), Err(ArtError::MalformedHash));
}

#[test]
fn render_malformed_hash_yields_error_and_no_document() {
    let mut o = fixture_opts(false);
    o.hash = String::from("oops");
    assert_eq!(render(&o), Err(ArtError::MalformedHash));
}

#[test]
fn dot_count_trait_is_in_range() {
    let seed = decode_seed(&fixture_hash()).unwrap();
    let mut g = Generator::new(&seed);
    let (routes, count) = dot_strategy(&mut g, 100_000, 150_000, 5_000);
    assert!((50..200).contains(&count));
    assert_eq!(routes.len() as u64, count);
}

#[test]
fn dot_positions_stay_inside_pad() {
    let seed = decode_seed(&fixture_hash()).unwrap();
    let mut g = Generator::new(&seed);
    let (routes, _count) = dot_strategy(&mut g, 100_000, 150_000, 5_000);
    for route in &routes {
        assert_eq!(route.len(), 4);
        let (x, y) = route[0];
        assert!((5_000..95_000).contains(&x));
        assert!((5_000..145_000).contains(&y));
    }
}

#[test]
fn dot_strategy_is_deterministic_for_a_seed() {
    let seed = decode_seed(&fixture_hash()).unwrap();
    let mut g1 = Generator::new(&seed);
    let mut g2 = Generator::new(&seed);
    let (r1, c1) = dot_strategy(&mut g1, 100_000, 150_000, 5_000);
    let (r2, c2) = dot_strategy(&mut g2, 100_000, 150_000, 5_000);
    assert_eq!(c1, c2);
    assert_eq!(r1, r2);
}

fn group(color: &str, label: &str, routes: Vec<Vec<(u64, u64)>>) -> RouteGroup {
    RouteGroup { color: String::from(color), label: String::from(label), routes }
}

fn one_route() -> Vec<Vec<(u64, u64)>> {
    vec![vec![(10_000, 10_000), (11_000, 10_000)]]
}

#[test]
fn opacities_fall_strictly_and_start_under_base() {
    let routes = vec![
        vec![(1_000, 1_000)],
        vec![(2_000, 2_000)],
        vec![(3_000, 3_000)],
        vec![(4_000, 4_000)],
    ];
    let (layers, _inks) = make_layers(vec![group("#0FF", "A", routes)]);
    assert_eq!(layers.len(), 1);
    assert_eq!(layers[0].opacities, vec![562, 525, 487, 450]);
    for w in layers[0].opacities.windows(2) {
        assert!(w[0] > w[1]);
    }
}

#[test]
fn opacities_can_tie_beyond_150_routes() {
    // With more routes than thousandths of falloff, truncation lets two
    // neighboring routes share an opacity: routes 150 and 151 of 151.
    let mut routes: Vec<Vec<(u64, u64)>> = Vec::new();
    for i in 0..151u64 {
        routes.push(vec![(1_000 + i, 1_000)]);
    }
    let (layers, _inks) = make_layers(vec![group("#0FF", "A", routes)]);
    let ops = &layers[0].opacities;
    assert_eq!(ops.len(), 151);
    assert_eq!(ops[149], 450);
    assert_eq!(ops[150], 450);
    for w in ops.windows(2) {
        assert!(w[0] >= w[1]);
    }
}

#[test]
fn empty_groups_are_dropped_with_their_labels() {
    let (layers, inks) = make_layers(vec![
        group("#0FF", "A", one_route()),
        group("#F0F", "B", Vec::new()),
        group("#FF0", "C", Vec::new()),
    ]);
    assert_eq!(layers.len(), 1);
    assert_eq!(layers[0].label, "A");
    assert_eq!(inks, vec![String::from("A")]);
}

#[test]
fn two_equal_labels_collapse_to_one_ink() {
    let (layers, inks) = make_layers(vec![
        group("#0FF", "Black", one_route()),
        group("#F0F", "Black", one_route()),
    ]);
    assert_eq!(layers.len(), 2);
    assert_eq!(inks, vec![String::from("Black")]);
}

#[test]
fn three_equal_labels_do_not_collapse() {
    let (_layers, inks) = make_layers(vec![
        group("#0FF", "Black", one_route()),
        group("#F0F", "Black", one_route()),
        group("#FF0", "Black", one_route()),
    ]);
    assert_eq!(inks.len(), 3);
}

#[test]
fn inks_are_sorted_lexicographically() {
    let (_layers, inks) = make_layers(vec![
        group("#0FF", "cyan", one_route()),
        group("#F0F", "Amber", one_route()),
        group("#FF0", "Blue", one_route()),
    ]);
    assert_eq!(
        inks,
        vec![String::from("Amber"), String::from("Blue"), String::from("cyan")]
    );
}

#[test]
fn quantization_floors_to_two_decimals() {
    let d = render_route(&vec![(1_239, 2_005)]);
    assert_eq!(d, "M1.23,2 L1.23,2");
}

#[test]
fn render_route_closes_back_to_origin() {
    let d = render_route(&vec![(10_000, 10_000), (11_000, 10_000), (10_500, 10_500), (10_000, 10_000)]);
    assert_eq!(d, "M10,10 L10,10 L11,10 L10.5,10.5 L10,10");
}

#[test]
fn render_route_empty_is_empty() {
    let d = render_route(&Vec::new());
    assert_eq!(d, "");
}

#[test]
fn traits_json_is_exact() {
    assert_eq!(traits_json(123), "{\"Dots Count\":123}");
}

#[test]
fn perf_disabled_reports_nothing() {
    let mut p = PerfRecords::start(false);
    p.span("dots");
    p.span_end("dots");
    let r = p.end();
    assert!(r.per_label.is_empty());
}

#[test]
fn perf_accumulates_per_label_and_adds_total() {
    let mut p = PerfRecords::start(true);
    p.span("dots");
    p.span_end("dots");
    p.span("dots");
    p.span_end("dots");
    p.span("svg");
    p.span_end("svg");
    p.span_end("never-started");
    let r = p.end();
    let labels: Vec<&str> = r.per_label.iter().map(|e| e.0.as_str()).collect();
    assert_eq!(labels, vec!["dots", "svg", "total"]);
}

#[test]
fn accumulate_sums_values_per_label() {
    let entries = vec![
        (String::from("a"), 5),
        (String::from("b"), 7),
        (String::from("a"), 3),
    ];
    let r = plottable_dots::accumulate_nanos(&entries);
    assert_eq!(r, vec![(String::from("a"), 8), (String::from("b"), 7)]);
}

#[test]
fn perf_restarted_label_reports_one_entry() {
    let mut p = PerfRecords::start(true);
    p.span("a");
    p.span("a");
    p.span_end("a");
    let r = p.end();
    let labels: Vec<&str> = r.per_label.iter().map(|e| e.0.as_str()).collect();
    assert_eq!(labels, vec!["a", "total"]);
}

#[test]
fn perf_json_renders_seconds_exactly() {
    let r = PerfResult { per_label: vec![(String::from("a"), 1_500_000_000), (String::from("b"), 25_000)] };
    assert_eq!(r.to_json(), "{\"per_label\":{\"a\":1.5,\"b\":0.000025}}");
}

#[test]
fn end_to_end_document_shape() {
    let out = render(&fixture_opts(false)).unwrap();
    // one graphical group: the dot layer; the empty layers are dropped
    assert_eq!(out.matches("<g ").count(), 1);
    assert!(out.contains(&format!("data-hash=\"{}\"", fixture_hash())));
    assert!(out.contains("viewBox=\"0 0 100 150\""));
    assert!(out.contains("width=\"100mm\""));
    assert!(out.contains("height=\"150mm\""));
    assert!(out.contains("style=\"background:white\""));
    assert!(out.contains("xmlns=\"http://www.w3.org/2000/svg\""));
    assert!(out.contains("xmlns:inkscape=\"http://www.inkscape.org/namespaces/inkscape\""));
    assert!(out.contains("inkscape:label=\"Black\""));
    assert!(out.contains("stroke=\"#0FF\""));
    assert!(!out.contains("data-perf"));
    // the dot count trait is in [50, 200)
    let tag = "Dots Count&quot;:";
    let at = out.find(tag).expect("data-traits present");
    let rest = &out[at + tag.len()..];
    let digits: String = rest.chars().take_while(|c| c.is_ascii_digit()).collect();
    let count: u64 = digits.parse().unwrap();
    assert!((50..200).contains(&count));
}

#[test]
fn debug_adds_perf_attribute() {
    let out = render(&fixture_opts(true)).unwrap();
    assert!(out.contains("data-perf="));
    assert!(out.contains("per_label"));
    assert!(out.contains("total"));
}
