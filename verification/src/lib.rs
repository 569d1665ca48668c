//! Deterministic generative art: a content hash is decoded into a seed, a
//! seeded generator places triangular dot markers on a padded canvas, the
//! routes are grouped into colored plotter layers with falling opacities, and
//! the whole is assembled into an SVG document.
//!
//! All lengths are carried as integers in thousandths of a millimeter, so that
//! every computation — coordinate quantization, opacity falloff, dimension
//! attributes — is exact.
use vstd::prelude::*;

mod gen;
mod geometry;
mod json;
mod layers;
mod order;
mod pathdata;
mod perf;
mod seed;
mod svgdoc;
mod text;

verus! {

/// The one failure the pipeline can report: the hash cannot yield a seed.
#[derive(Clone, Copy, Debug, PartialEq, Eq, Structural)]
pub enum ArtError {
    MalformedHash,
}

/// The options of one generation. Lengths — width, height, pad — are in
/// thousandths of a millimeter; the drawable interior is the canvas less the
/// pad on every side, and is required to be non-empty.
pub struct Opts {
    pub hash: String,
    pub width: u64,
    pub height: u64,
    pub pad: u64,
    pub layer1_name: String,
    pub layer2_name: String,
    pub layer3_name: String,
    pub debug: bool,
}

/// The model of the options.
#[verifier::ext_equal]
pub struct OptsModel {
    pub hash: Seq<char>,
    pub width: u64,
    pub height: u64,
    pub pad: u64,
    pub layer1_name: Seq<char>,
    pub layer2_name: Seq<char>,
    pub layer3_name: Seq<char>,
    pub debug: bool,
}

impl View for Opts {
    type V = OptsModel;

    open spec fn view(&self) -> OptsModel {
        OptsModel {
            hash: self.hash@,
            width: self.width,
            height: self.height,
            pad: self.pad,
            layer1_name: self.layer1_name@,
            layer2_name: self.layer2_name@,
            layer3_name: self.layer3_name@,
            debug: self.debug,
        }
    }
}

} // verus!

pub use gen::Generator;
pub use gen::draw_u64;
pub use gen::next_state;
pub use gen::seeded_state;
pub use geometry::MAX_DIM;
pub use geometry::dot_strategy;
pub use geometry::dots_count_of;
pub use geometry::dots_routes;
pub use geometry::in_canvas;
pub use geometry::routes_view;
pub use json::traits_json;
pub use json::traits_json_chars;
pub use layers::Layer;
pub use layers::RouteGroup;
pub use layers::dedup_two;
pub use layers::inks_of;
pub use layers::layers_of;
pub use layers::lemma_label_pair_collapses;
pub use layers::lemma_label_triple_kept;
pub use layers::lemma_layers_nonempty;
pub use layers::lemma_opacity_first_to_last;
pub use layers::lemma_opacity_monotone;
pub use layers::lemma_opacity_strictly_falls;
pub use layers::make_layers;
pub use layers::opacity_milli;
pub use pathdata::render_route;
pub use pathdata::route_data;
pub use perf::PerfRecords;
pub use perf::accumulate_nanos;
pub use perf::closing_labels;
pub use perf::entry_labels;
pub use perf::first_labels;
pub use perf::label_total;
pub use perf::sat_add;
pub use perf::spans_labels;
pub use perf::totals_of;
pub use perf::with_values;
pub use perf::PerfResult;
pub use seed::decode_seed;
pub use seed::is_b58_char;
pub use seed::seed_of;
pub use seed::valid_hash;
pub use svgdoc::art;
pub use svgdoc::art_layers;
pub use svgdoc::document_attrs;
pub use svgdoc::document_groups;
pub use svgdoc::perf_attr_chars;
pub use svgdoc::render;
pub use svgdoc::svg_text;
