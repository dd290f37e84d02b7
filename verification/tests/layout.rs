use textlayout::action::Layout;
use textlayout::action::LayoutAction;
use textlayout::layouter::char_width;
use textlayout::layouter::layout_resolved;
use textlayout::layouter::layout_text;
use textlayout::layouter::select_font;
use textlayout::layouter::LayoutContext;
use textlayout::layouter::LayoutError;
use textlayout::layouter::TextContext;
use textlayout::size::Size;
use textlayout::size::Size2D;
use textlayout::source::first_match;
use textlayout::source::FontSource;
use textlayout::source::Resolved;
use textlayout::style::FontClass;
use textlayout::style::TextStyle;

/// One loaded font of the test source: a stable handle, the single class
/// tag it matches, its em-square size, and the characters it supports with
/// their advance widths in font units.
struct TestFont {
    handle: usize,
    tag: String,
    upem: u16,
    glyphs: Vec<(char, u16)>,
}

/// A table-backed font source: a font qualifies for a query when its tag
/// equals one of the query's classes and it supports the required
/// character; the first qualifying font in table order wins.
struct TableSource {
    fonts: Vec<TestFont>,
}

impl TableSource {
    fn font(&self, handle: usize) -> Option<&TestFont> {
        self.fonts.iter().find(|f| f.handle == handle)
    }
}

impl FontSource for TableSource {
    fn resolve(&mut self, c: char, base: &Vec<FontClass>, extra: Option<&FontClass>) -> Option<usize> {
        for font in &self.fonts {
            let tag_matches = base.iter().any(|cl| cl.tag == font.tag)
                || extra.map_or(false, |cl| cl.tag == font.tag);
            if tag_matches && font.glyphs.iter().any(|g| g.0 == c) {
                return Some(font.handle);
            }
        }
        None
    }

    fn units_per_em(&mut self, font: usize) -> Option<u16> {
        self.font(font).map(|f| f.upem)
    }

    fn advance_width(&mut self, font: usize, c: char) -> Option<u16> {
        self.font(font)
            .and_then(|f| f.glyphs.iter().find(|g| g.0 == c))
            .map(|g| g.1)
    }
}

fn tag(name: &str) -> FontClass {
    FontClass { tag: name.to_string() }
}

fn style(font_size: Size, classes: Vec<&str>, fallback: Vec<&str>) -> TextStyle {
    TextStyle {
        font_size,
        classes: classes.into_iter().map(tag).collect(),
        fallback: fallback.into_iter().map(tag).collect(),
    }
}

/// A source with one serif font (handle 3) that supports the lowercase
/// letters at 500 font units each under a 1000-unit em square.
fn serif_source() -> TableSource {
    TableSource {
        fonts: vec![TestFont {
            handle: 3,
            tag: "serif".to_string(),
            upem: 1000,
            glyphs: ('a'..='z').map(|c| (c, 500)).collect(),
        }],
    }
}

fn layout(text: &str, source: TableSource, style: TextStyle) -> Result<Layout, LayoutError> {
    let mut ctx = TextContext { source, style };
    layout_text(text, &mut ctx)
}

#[test]
fn empty_text_yields_empty_layout() {
    let st = style(Size::pt(12), vec!["serif"], vec![]);
    let layout = layout("", serif_source(), st).unwrap();
    assert_eq!(layout.actions, Vec::new());
    assert_eq!(layout.dimensions.x, Size::zero());
    assert_eq!(layout.dimensions.y, Size::pt(12));
    assert!(!layout.debug_render);
}

#[test]
fn primary_classes_alone_give_one_set_font_one_write() {
    let st = style(Size::pt(12), vec!["serif"], vec![]);
    let layout = layout("abc", serif_source(), st).unwrap();
    assert_eq!(
        layout.actions,
        vec![
            LayoutAction::SetFont(3, Size::pt(12)),
            LayoutAction::WriteText("abc".to_string()),
        ]
    );
}

#[test]
fn uniform_font_long_run_merges_into_one_write() {
    let st = style(Size::pt(10), vec![], vec!["serif"]);
    let layout = layout("aaaaaaaaaa", serif_source(), st).unwrap();
    assert_eq!(
        layout.actions,
        vec![
            LayoutAction::SetFont(3, Size::pt(10)),
            LayoutAction::WriteText("aaaaaaaaaa".to_string()),
        ]
    );
}

/// Two fonts behind one tag: lowercase only in font 1, uppercase only in
/// font 2.
fn case_split_source() -> TableSource {
    TableSource {
        fonts: vec![
            TestFont {
                handle: 1,
                tag: "mix".to_string(),
                upem: 1000,
                glyphs: vec![('a', 400)],
            },
            TestFont {
                handle: 2,
                tag: "mix".to_string(),
                upem: 1000,
                glyphs: vec![('A', 700)],
            },
        ],
    }
}

#[test]
fn alternating_fonts_never_merge() {
    let st = style(Size::pt(12), vec!["mix"], vec![]);
    let layout = layout("aAa", case_split_source(), st).unwrap();
    assert_eq!(
        layout.actions,
        vec![
            LayoutAction::SetFont(1, Size::pt(12)),
            LayoutAction::WriteText("a".to_string()),
            LayoutAction::SetFont(2, Size::pt(12)),
            LayoutAction::WriteText("A".to_string()),
            LayoutAction::SetFont(1, Size::pt(12)),
            LayoutAction::WriteText("a".to_string()),
        ]
    );
}

#[test]
fn runs_regroup_only_at_font_boundaries() {
    let st = style(Size::pt(12), vec!["mix"], vec![]);
    let layout = layout("aaAAa", case_split_source(), st).unwrap();
    assert_eq!(
        layout.actions,
        vec![
            LayoutAction::SetFont(1, Size::pt(12)),
            LayoutAction::WriteText("aa".to_string()),
            LayoutAction::SetFont(2, Size::pt(12)),
            LayoutAction::WriteText("AA".to_string()),
            LayoutAction::SetFont(1, Size::pt(12)),
            LayoutAction::WriteText("a".to_string()),
        ]
    );
}

#[test]
fn width_sums_each_characters_advance() {
    // 500 font units under a 1000-unit em square at 12 pt: 6,000,000
    // micropoints per character.
    let st = style(Size::pt(12), vec!["serif"], vec![]);
    let layout = layout("abcd", serif_source(), st).unwrap();
    assert_eq!(layout.dimensions.x, Size::from_micropoints(4 * 6_000_000));
    assert_eq!(layout.dimensions.y, Size::pt(12));
}

#[test]
fn width_is_independent_of_batching() {
    // Same advances and count as a uniform run, but split over two fonts.
    let st = style(Size::pt(12), vec!["mix"], vec![]);
    let layout = layout("aAaA", case_split_source(), st).unwrap();
    // 400 * 12_000_000 / 1000 + 700 * 12_000_000 / 1000, twice.
    assert_eq!(layout.dimensions.x, Size::from_micropoints(2 * (4_800_000 + 8_400_000)));
}

#[test]
fn unsupported_character_names_exactly_itself() {
    let st = style(Size::pt(12), vec!["serif"], vec![]);
    let err = layout("abQcd", serif_source(), st).unwrap_err();
    assert_eq!(err, LayoutError::NoSuitableFont('Q'));
}

#[test]
fn no_partial_layout_on_failure() {
    let st = style(Size::pt(12), vec!["serif"], vec![]);
    let result = layout("ab!", serif_source(), st);
    assert!(matches!(result, Err(LayoutError::NoSuitableFont('!'))));
}

#[test]
fn second_fallback_tag_wins_when_first_lacks_the_character() {
    let source = TableSource {
        fonts: vec![
            TestFont {
                handle: 10,
                tag: "first".to_string(),
                upem: 1000,
                glyphs: vec![('a', 500)],
            },
            TestFont {
                handle: 20,
                tag: "second".to_string(),
                upem: 2000,
                glyphs: vec![('a', 500), ('z', 900)],
            },
        ],
    };
    let st = style(Size::pt(10), vec![], vec!["first", "second"]);
    let layout = layout("z", source, st).unwrap();
    assert_eq!(
        layout.actions,
        vec![
            LayoutAction::SetFont(20, Size::pt(10)),
            LayoutAction::WriteText("z".to_string()),
        ]
    );
    // 900 * 10_000_000 / 2000 micropoints.
    assert_eq!(layout.dimensions.x, Size::from_micropoints(4_500_000));
}

#[test]
fn first_fallback_tag_wins_when_it_supports_the_character() {
    let source = TableSource {
        fonts: vec![
            TestFont {
                handle: 10,
                tag: "first".to_string(),
                upem: 1000,
                glyphs: vec![('a', 500)],
            },
            TestFont {
                handle: 20,
                tag: "second".to_string(),
                upem: 1000,
                glyphs: vec![('a', 500)],
            },
        ],
    };
    let st = style(Size::pt(10), vec![], vec!["first", "second"]);
    let layout = layout("a", source, st).unwrap();
    assert_eq!(layout.actions[0], LayoutAction::SetFont(10, Size::pt(10)));
}

#[test]
fn missing_em_square_is_a_font_fault() {
    struct NoHeader;
    impl FontSource for NoHeader {
        fn resolve(&mut self, _: char, _: &Vec<FontClass>, _: Option<&FontClass>) -> Option<usize> {
            Some(0)
        }
        fn units_per_em(&mut self, _: usize) -> Option<u16> {
            None
        }
        fn advance_width(&mut self, _: usize, _: char) -> Option<u16> {
            Some(1)
        }
    }
    let mut ctx = TextContext { source: NoHeader, style: style(Size::pt(12), vec![], vec!["x"]) };
    assert_eq!(layout_text("a", &mut ctx), Err(LayoutError::FontFault));
}

#[test]
fn empty_em_square_is_a_font_fault() {
    struct ZeroUpem;
    impl FontSource for ZeroUpem {
        fn resolve(&mut self, _: char, _: &Vec<FontClass>, _: Option<&FontClass>) -> Option<usize> {
            Some(0)
        }
        fn units_per_em(&mut self, _: usize) -> Option<u16> {
            Some(0)
        }
        fn advance_width(&mut self, _: usize, _: char) -> Option<u16> {
            Some(1)
        }
    }
    let mut ctx = TextContext { source: ZeroUpem, style: style(Size::pt(12), vec![], vec!["x"]) };
    assert_eq!(layout_text("a", &mut ctx), Err(LayoutError::FontFault));
}

#[test]
fn missing_advance_metrics_is_a_font_fault() {
    struct NoMetrics;
    impl FontSource for NoMetrics {
        fn resolve(&mut self, _: char, _: &Vec<FontClass>, _: Option<&FontClass>) -> Option<usize> {
            Some(0)
        }
        fn units_per_em(&mut self, _: usize) -> Option<u16> {
            Some(1000)
        }
        fn advance_width(&mut self, _: usize, _: char) -> Option<u16> {
            None
        }
    }
    let mut source = NoMetrics;
    let st = style(Size::pt(12), vec![], vec!["x"]);
    assert_eq!(select_font(&mut source, &st, 'a'), Err(LayoutError::FontFault));
}

#[test]
fn select_font_reports_the_character_it_cannot_set() {
    let mut source = serif_source();
    let st = style(Size::pt(12), vec!["serif"], vec![]);
    assert_eq!(select_font(&mut source, &st, '!'), Err(LayoutError::NoSuitableFont('!')));
}

#[test]
fn select_font_resolves_width_and_handle() {
    let mut source = serif_source();
    let st = style(Size::pt(12), vec!["serif"], vec![]);
    let resolved = select_font(&mut source, &st, 'a').unwrap();
    assert_eq!(resolved.font, 3);
    assert_eq!(resolved.width, Size::from_micropoints(6_000_000));
}

#[test]
fn char_width_follows_the_advance_formula() {
    // 333 font units under a 1000-unit em square at 10 pt.
    assert_eq!(char_width(333, 1000, Size::pt(10)), Size::from_micropoints(3_330_000));
}

#[test]
fn char_width_rounds_toward_zero() {
    // 333 * 10_000_000 / 1024 = 3251953.125, cut to the micropoint grid.
    assert_eq!(char_width(333, 1024, Size::pt(10)), Size::from_micropoints(3_251_953));
}

#[test]
fn layout_resolved_batches_and_sums() {
    let chars = vec!['a', 'b', 'c'];
    let resolved = vec![
        Resolved { font: 1, width: Size::from_micropoints(10) },
        Resolved { font: 1, width: Size::from_micropoints(20) },
        Resolved { font: 2, width: Size::from_micropoints(30) },
    ];
    let layout = layout_resolved(&chars, &resolved, Size::pt(9));
    assert_eq!(
        layout.actions,
        vec![
            LayoutAction::SetFont(1, Size::pt(9)),
            LayoutAction::WriteText("ab".to_string()),
            LayoutAction::SetFont(2, Size::pt(9)),
            LayoutAction::WriteText("c".to_string()),
        ]
    );
    assert_eq!(layout.dimensions.x, Size::from_micropoints(60));
    assert_eq!(layout.dimensions.y, Size::pt(9));
}

#[test]
fn first_match_takes_the_first_affirmative_answer() {
    assert_eq!(first_match(&vec![None, Some(7), Some(3)]), Some((1, 7)));
    assert_eq!(first_match(&vec![Some(5)]), Some((0, 5)));
}

#[test]
fn first_match_fails_only_when_every_attempt_failed() {
    assert_eq!(first_match(&vec![]), None);
    assert_eq!(first_match(&vec![None, None, None]), None);
}

#[test]
fn from_layout_ctx_keeps_source_and_style() {
    let ctx = LayoutContext { source: serif_source(), style: style(Size::pt(12), vec!["serif"], vec![]) };
    let mut text_ctx = TextContext::from_layout_ctx(ctx);
    let layout = layout_text("ab", &mut text_ctx).unwrap();
    assert_eq!(layout.dimensions.y, Size::pt(12));
    assert_eq!(
        layout.actions,
        vec![
            LayoutAction::SetFont(3, Size::pt(12)),
            LayoutAction::WriteText("ab".to_string()),
        ]
    );
}

#[test]
fn empty_classes_and_empty_fallback_resolve_nothing() {
    let st = style(Size::pt(12), vec![], vec![]);
    let err = layout("a", serif_source(), st).unwrap_err();
    assert_eq!(err, LayoutError::NoSuitableFont('a'));
}

#[test]
fn widest_character_at_the_largest_font_size() {
    // The largest font-unit advance under the smallest em square at the
    // largest accepted font size.
    let w = char_width(0xFFFF, 1, Size::from_micropoints(0x100_0000_0000));
    assert_eq!(w, Size::from_micropoints(0xFFFF * 0x100_0000_0000));
}

#[test]
fn sizes_add_and_scale_from_points() {
    assert_eq!(Size::zero(), Size::from_micropoints(0));
    assert_eq!(Size::pt(12), Size::from_micropoints(12_000_000));
    assert_eq!(Size::pt(3).add(Size::pt(4)), Size::pt(7));
    assert_eq!(Size2D::new(Size::pt(1), Size::pt(2)).x, Size::pt(1));
}
