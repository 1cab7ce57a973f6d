use aperture::dicebear::hash::hash_u32;
use aperture::dicebear::prng::Prng;
use aperture::dicebear::xml::Escaped;
use aperture::dicebear::color::Rgb8;
use aperture::dicebear::data::{
    find_color, variant_names_sorted, AttrVal, Canvas, ColorRef, Node, Palette,
};
use aperture::dicebear::hash::{hash_seed_key, step};
use aperture::dicebear::number::format_scaled;
use aperture::dicebear::prng::{floor_index, ContrastEntry, ContrastTable, Mulberry32};
use aperture::dicebear::renderer::{node_id, write_node, DefDedup};
use aperture::dicebear::resolver::Resolver;
use aperture::dicebear::svg::{document, use_element};
use aperture::dicebear::{Animation, Speed};
use aperture::dicebear::svg::Escaped as SvgEscaped;
use aperture::dicebear::data::color_within_limits;
use aperture::dicebear::definition::{ColorDef, MetaDef, MetaParty};
use aperture::dicebear::render::{render_svg, Placement};
use aperture::dicebear::variant::{variant_pool, VariantPool};

#[test]
fn hash_u32_is_deterministic() {
    assert_eq!(hash_u32("test", "seed1"), hash_u32("test", "seed1"));
    assert_ne!(hash_u32("test", "seed1"), hash_u32("test", "seed2"));
}

#[test]
fn shuffle_zero_stays_in_bounds() {
    let prng = Prng::new("test");
    for n in 1..=8 {
        let idx = prng.shuffle_zero(&["test", "shuffle"], n);
        assert!(idx < n, "idx={idx} n={n}");
    }
}

#[test]
fn shuffle_zero_is_deterministic() {
    let prng = Prng::new("test");
    let a = prng.shuffle_zero(&["color"], 5);
    let b = prng.shuffle_zero(&["color"], 5);
    assert_eq!(a, b);
}

#[test]
fn escaped_handles_special_chars() {
    assert_eq!(Escaped("a&b").to_string(), "a&amp;b");
    assert_eq!(Escaped("<tag>").to_string(), "&lt;tag&gt;");
    assert_eq!(Escaped("\"q\"").to_string(), "&quot;q&quot;");
    assert_eq!(Escaped("it's").to_string(), "it&apos;s");
}

#[test]
fn escaped_passes_through_normal_text() {
    assert_eq!(Escaped("normal").to_string(), "normal");
    assert_eq!(Escaped("").to_string(), "");
}


fn plain_color(key: &str, stops: &[u32]) -> ColorRef {
    ColorRef {
        key: key.to_string(),
        palette: Palette::new(stops.iter().map(|&v| Rgb8::from_u24(v)).collect()),
        contrast_to: None,
        not_equal_to: Vec::new(),
    }
}

#[test]
fn hash_u32_matches_fnv1a_over_utf16() {
    assert_eq!(hash_u32("test", "seed1"), 2_028_154_015);
    assert_eq!(hash_u32("", ""), 1_057_798_253);
    // A character outside the BMP is hashed as a surrogate pair.
    assert_eq!(hash_u32("a", "\u{1F389}"), 3_850_745_929);
    assert_eq!(hash_u32("thumbs", "alice"), 0xc35b_bb96);
}

#[test]
fn key_fragments_hash_as_their_concatenation() {
    assert_eq!(hash_seed_key("alice", &["background", "Color"]), 1_762_316_106);
    assert_eq!(
        hash_seed_key("alice", &["background", "Color"]),
        hash_seed_key("alice", &["backgroundColor"])
    );
    assert_eq!(hash_seed_key("p", &["s"]), hash_u32("p", "s"));
}

#[test]
fn fnv_step_xors_then_multiplies() {
    assert_eq!(step(0, 1), 0x0100_0193);
    assert_eq!(step(0x811C_9DC5, 0x3A), (0x811C_9DC5u32 ^ 0x3A).wrapping_mul(0x0100_0193));
}

#[test]
fn mulberry32_produces_reference_outputs() {
    let mut rng = Mulberry32::new(0);
    assert_eq!(rng.next(), 1_144_304_738);
    let mut rng = Mulberry32::new(1);
    assert_eq!(rng.next(), 2_693_262_067);
}

#[test]
fn floor_index_scales_a_draw() {
    assert_eq!(floor_index(0, 5), 0);
    assert_eq!(floor_index(u32::MAX, 5), 4);
    assert_eq!(floor_index(0x8000_0000, 2), 1);
    assert_eq!(floor_index(0x7FFF_FFFF, 2), 0);
}

#[test]
fn shuffle_zero_matches_reference_permutations() {
    let prng = Prng::new("test");
    let expected = [0, 1, 2, 1, 3, 2, 6, 6];
    for (n, want) in (1..=8).zip(expected) {
        assert_eq!(prng.shuffle_zero(&["test", "shuffle"], n), want, "n={n}");
    }
}

#[test]
fn rgb8_packs_and_formats() {
    let c = Rgb8::from_u24(0x0a_bc_de);
    assert_eq!(c.to_u24(), 0x0a_bc_de);
    assert_eq!(c.to_hex(), "#0abcde");
    assert_eq!(Rgb8::from_u24(0).to_hex(), "#000000");
    assert_eq!(Rgb8::from_u24(0xff_ff_ff).to_hex(), "#ffffff");
}

#[test]
fn format_scaled_trims_fraction() {
    assert_eq!(format_scaled(false, 0, 0), "0");
    assert_eq!(format_scaled(false, 100, 0), "100");
    assert_eq!(format_scaled(true, 12, 0), "-12");
    assert_eq!(format_scaled(false, 2, 50_000), "2.5");
    assert_eq!(format_scaled(false, 1, 50_000), "1.5");
    assert_eq!(format_scaled(false, 3, 14_159), "3.14159");
    assert_eq!(format_scaled(true, 0, 1), "-0.00001");
}

#[test]
fn resolve_shuffles_the_palette() {
    let table = ContrastTable { entries: Vec::new() };
    let bg = plain_color("background", &[0x111111, 0x222222, 0x333333]);
    assert_eq!(Prng::new("alice").resolve(&bg, &table), Rgb8::from_u24(0x222222));
    assert_eq!(Prng::new("42").resolve(&bg, &table), Rgb8::from_u24(0x333333));
    assert_eq!(Prng::new("").resolve(&bg, &table), Rgb8::from_u24(0x111111));
}

#[test]
fn resolve_drops_stops_equal_to_references() {
    let table = ContrastTable { entries: Vec::new() };
    let mut eyes = plain_color("eyes", &[0x111111, 0x222222, 0x333333]);
    eyes.not_equal_to.push(plain_color("background", &[0x111111, 0x222222, 0x333333]));
    // background resolves to #222222 for "alice"; eyes shuffles the other two.
    assert_eq!(Prng::new("alice").resolve(&eyes, &table), Rgb8::from_u24(0x333333));
    // When every stop is excluded the whole palette is shuffled.
    let mut lone = plain_color("eyes", &[0x222222]);
    lone.not_equal_to.push(plain_color("background", &[0x222222]));
    assert_eq!(Prng::new("alice").resolve(&lone, &table), Rgb8::from_u24(0x222222));
}

#[test]
fn resolve_contrast_picks_highest_key_first_on_ties() {
    let a = Rgb8::from_u24(0x000001);
    let b = Rgb8::from_u24(0x000002);
    let c = Rgb8::from_u24(0x000003);
    let r = Rgb8::from_u24(0xffffff);
    let table = ContrastTable {
        entries: vec![
            ContrastEntry { stop: a, reference: r, key: 5 },
            ContrastEntry { stop: b, reference: r, key: 9 },
            ContrastEntry { stop: c, reference: r, key: 9 },
        ],
    };
    let mut fg = plain_color("fg", &[0x000001, 0x000002, 0x000003]);
    fg.contrast_to = Some(Box::new(plain_color("bg", &[0xffffff])));
    assert_eq!(Prng::new("x").resolve(&fg, &table), b);
    // Excluding the top stop picks the next one in rank order.
    fg.not_equal_to.push(plain_color("other", &[0x000002]));
    assert_eq!(Prng::new("x").resolve(&fg, &table), c);
}

#[test]
fn resolver_color_is_the_plain_shuffle() {
    let bg = plain_color("background", &[0x111111, 0x222222, 0x333333]);
    assert_eq!(Resolver::new("bob").color(&bg), Some(Rgb8::from_u24(0x222222)));
    assert_eq!(Resolver::new("Simon").color(&bg), Some(Rgb8::from_u24(0x333333)));
}

#[test]
fn speed_names_match_variants() {
    assert_eq!(Speed::Fastest.as_str(), "fastest");
    assert_eq!(Speed::Fast.as_str(), "fast");
    assert_eq!(Speed::Medium.as_str(), "medium");
    assert_eq!(Speed::Slow.as_str(), "slow");
    assert_eq!(Speed::Slowest.as_str(), "slowest");
    assert_ne!(Animation::Fixed(Speed::Fast), Animation::Random);
}

#[test]
fn svg_escaped_matches_xml_escaped() {
    assert_eq!(SvgEscaped("<a & 'b'>").to_string(), "&lt;a &amp; &apos;b&apos;&gt;");
    assert_eq!(SvgEscaped("日本語").to_string(), "日本語");
}

#[test]
fn use_element_joins_transforms() {
    assert_eq!(
        use_element("body", "default", 0xab, &Vec::new()),
        "<use href=\"#body-default-000000ab\"/>"
    );
    let parts = vec!["translate(24 24)".to_string(), "rotate(5, 45, 65)".to_string()];
    assert_eq!(
        use_element("body", "default", 0xdead_beef, &parts),
        "<use transform=\"translate(24 24) rotate(5, 45, 65)\" href=\"#body-default-deadbeef\"/>"
    );
}

#[test]
fn document_frames_the_body() {
    let svg = document("100", "100", "<metadata/>", 1, "<g/>", "#fff", "<use/>");
    assert_eq!(
        svg,
        "<svg xmlns=\"http://www.w3.org/2000/svg\" viewBox=\"0 0 100 100\" fill=\"none\" \
         shape-rendering=\"auto\" aria-hidden=\"true\"><!-- Generated by DiceBear \
         (https://www.dicebear.com) --><metadata/><defs><g/><clipPath id=\"clip-00000001\"><rect \
         width=\"100\" height=\"100\" rx=\"0\" ry=\"0\"/></clipPath></defs><g \
         clip-path=\"url(#clip-00000001)\"><rect width=\"100\" height=\"100\" \
         fill=\"#fff\"/><use/></g></svg>"
    );
}

fn el(name: &str, attrs: Vec<(String, AttrVal)>, children: Vec<Node>) -> Node {
    Node::El { name: name.to_string(), attrs, children }
}

fn lit(k: &str, v: &str) -> (String, AttrVal) {
    (k.to_string(), AttrVal::Lit(v.to_string()))
}

#[test]
fn nodes_serialize_with_escaped_attributes() {
    let resolver = Resolver::new("alice");
    let node = el(
        "g",
        vec![lit("id", "a<b"), ("fill".to_string(), AttrVal::Color(plain_color("background", &[0x111111, 0x222222, 0x333333])))],
        vec![
            el("path", vec![lit("d", "M0 0")], vec![]),
            Node::Text { value: "x&y".to_string() },
            el("defs", vec![], vec![el("linearGradient", vec![], vec![])]),
        ],
    );
    let mut out = String::new();
    write_node(&mut out, &resolver, &node);
    assert_eq!(out, "<g id=\"a&lt;b\" fill=\"#222222\"><path d=\"M0 0\"/>x&amp;y</g>");
    assert_eq!(node_id(&node), Some("a<b"));
    assert_eq!(node_id(&Node::Text { value: "t".to_string() }), None);
}

#[test]
fn defs_are_diverted_once_per_id() {
    let resolver = Resolver::new("alice");
    let grad = || el("linearGradient", vec![lit("id", "g1")], vec![el("stop", vec![], vec![])]);
    let elements = vec![
        el("defs", vec![], vec![grad()]),
        el("g", vec![], vec![el("defs", vec![], vec![grad(), el("clipPath", vec![], vec![])])]),
        el("circle", vec![lit("r", "1")], vec![]),
    ];
    let mut dedup = DefDedup::new();
    let mut out = String::new();
    dedup.write_def(&mut out, &resolver, "head", "variant01", &elements, 0x1234);
    assert_eq!(
        out,
        "<linearGradient id=\"g1\"><stop/></linearGradient><clipPath/><g \
         id=\"head-variant01-00001234\"><g></g><circle r=\"1\"/></g>"
    );
    assert!(dedup.seen_grad("g1"));
    assert!(!dedup.seen_grad("g2"));
}

#[test]
fn def_dedup_remembers_pairs_up_to_capacity() {
    let names: Vec<String> = (0..20).map(|i| format!("v{i}")).collect();
    let mut dedup = DefDedup::new();
    assert!(!dedup.seen_g("body", "v0"));
    for name in &names {
        dedup.mark_g("body", name);
    }
    assert!(dedup.seen_g("body", "v0"));
    assert!(dedup.seen_g("body", "v15"));
    assert!(!dedup.seen_g("body", "v16"));
    assert!(!dedup.seen_g("head", "v0"));
}

#[test]
fn variant_names_must_be_sorted() {
    assert!(variant_names_sorted(&vec!["default", "variant01", "variant02"]));
    assert!(variant_names_sorted(&vec!["a", "a", "ab"]));
    assert!(!variant_names_sorted(&vec!["variant02", "variant01"]));
    assert!(!variant_names_sorted(&vec!["ab", "a"]));
    assert!(variant_names_sorted(&vec![]));
}

#[test]
fn find_color_returns_first_match() {
    let colors = vec![plain_color("skin", &[1]), plain_color("background", &[2]), plain_color("skin", &[3])];
    let found = find_color(&colors, "skin").unwrap();
    assert_eq!(found.palette.stops()[0], Rgb8::from_u24(1));
    assert!(find_color(&colors, "eyes").is_none());
}

#[test]
fn palette_and_canvas_keep_their_contents() {
    let p = Palette::new(vec![Rgb8::from_u24(7), Rgb8::from_u24(8)]);
    assert_eq!(p.stops(), &[Rgb8::from_u24(7), Rgb8::from_u24(8)]);
    let c = Canvas::new(vec![Node::Text { value: "t".to_string() }]);
    assert_eq!(c.nodes().len(), 1);
}

#[test]
fn render_writes_each_definition_once_and_every_reference() {
    let circle = vec![el("circle", vec![lit("r", "2")], vec![])];
    let component = |name: &str| Node::Component {
        name: name.to_string(),
        source: "eyes".to_string(),
        component: 0,
        attrs: Vec::new(),
    };
    let canvas = vec![el("rect", vec![], vec![]), component("eyes"), component("eyesAgain")];
    let placements = vec![
        None,
        Some(Placement {
            variant: "open",
            elements: &circle,
            transforms: vec!["rotate(5, 1, 1)".to_string()],
        }),
        Some(Placement { variant: "open", elements: &circle, transforms: vec![] }),
    ];
    let background = plain_color("background", &[0x111111]);
    let svg = render_svg("alice", "thumbs", "100", "100", "<!--m-->", &background, &canvas, &placements);
    let expected = [
        "<svg xmlns=\"http://www.w3.org/2000/svg\" viewBox=\"0 0 100 100\" fill=\"none\" ",
        "shape-rendering=\"auto\" aria-hidden=\"true\">",
        "<!-- Generated by DiceBear (https://www.dicebear.com) --><!--m--><defs>",
        "<g id=\"eyes-open-c35bbb96\"><circle r=\"2\"/></g>",
        "<clipPath id=\"clip-c35bbb96\"><rect width=\"100\" height=\"100\" rx=\"0\" ry=\"0\"/></clipPath></defs>",
        "<g clip-path=\"url(#clip-c35bbb96)\"><rect width=\"100\" height=\"100\" fill=\"#111111\"/>",
        "<use transform=\"rotate(5, 1, 1)\" href=\"#eyes-open-c35bbb96\"/>",
        "<use href=\"#eyes-open-c35bbb96\"/>",
        "</g></svg>",
    ]
    .concat();
    assert_eq!(svg, expected);
}

#[test]
fn render_skips_hidden_components() {
    let canvas = vec![Node::Component {
        name: "mouth".to_string(),
        source: "mouth".to_string(),
        component: 0,
        attrs: Vec::new(),
    }];
    let placements: Vec<Option<Placement>> = vec![None];
    let background = plain_color("background", &[0xabcdef]);
    let svg = render_svg("alice", "thumbs", "1", "2", "", &background, &canvas, &placements);
    assert!(svg.contains("<defs><clipPath"));
    assert!(svg.contains("fill=\"#abcdef\"/></g></svg>"));
    assert!(!svg.contains("<use"));
}

#[test]
fn color_limits_count_references_at_every_depth() {
    let leaf = plain_color("leaf", &[0x000001]);
    let mut ok = plain_color("ok", &[0x000002]);
    ok.not_equal_to = (0..8).map(|_| plain_color("leaf", &[0x000001])).collect();
    assert!(color_within_limits(&leaf));
    assert!(color_within_limits(&ok));
    let mut too_many = plain_color("many", &[0x000003]);
    too_many.not_equal_to = (0..9).map(|_| plain_color("leaf", &[0x000001])).collect();
    assert!(!color_within_limits(&too_many));
    let mut nested = plain_color("nested", &[0x000004]);
    nested.contrast_to = Some(Box::new(too_many));
    assert!(!color_within_limits(&nested));
}

#[test]
fn style_metadata_defaults_are_empty() {
    assert!(ColorDef::default().values.is_empty());
    let party = MetaParty::default();
    assert_eq!(party.name, None);
    assert_eq!(party.url, None);
    let meta = MetaDef::default();
    assert_eq!(meta.license, MetaParty::default());
    assert_eq!(meta.creator.name, None);
    assert_eq!(meta.source.url, None);
}

#[test]
fn variant_pool_follows_the_animation_option() {
    let names = vec!["fast", "medium", "slow"];
    let none = vec![false, false, false];
    let some = vec![false, true, false];
    assert_eq!(variant_pool(Animation::Off, "animation", &names, &some), VariantPool::All);
    assert_eq!(variant_pool(Animation::Random, "eyes", &names, &some), VariantPool::Animated);
    assert_eq!(variant_pool(Animation::Random, "eyes", &names, &none), VariantPool::All);
    assert_eq!(
        variant_pool(Animation::Fixed(Speed::Medium), "animation", &names, &none),
        VariantPool::Fixed(Some(1))
    );
    assert_eq!(
        variant_pool(Animation::Fixed(Speed::Fastest), "animation", &names, &none),
        VariantPool::Fixed(None)
    );
    assert_eq!(
        variant_pool(Animation::Fixed(Speed::Medium), "eyes", &names, &none),
        VariantPool::All
    );
    let twice = vec!["slow", "slow"];
    assert_eq!(
        variant_pool(Animation::Fixed(Speed::Slow), "animation", &twice, &vec![false, false]),
        VariantPool::Fixed(Some(0))
    );
}
