//! Page layout and styles taken from a template document, and the document
//! setup made from them.
use vstd::prelude::*;
use crate::document::{
    Alignment, Block, BlockV, DocumentSetup, DocumentSetupV, DocumentSpec, DocumentV,
    PageMarginSpec, Spacing, StyleKind, StyleSpec, StyleV, blocks_view, styled,
    styled_paragraph, styles_view,
};
use crate::types::opt_string_view;

verus! {

broadcast use vstd::string::group_string_axioms;

/// The kind of a style as the template states it.
#[derive(Clone, Copy, Debug, PartialEq, Eq, Structural)]
pub enum SourceStyleKind {
    Paragraph,
    Character,
    Table,
    Numbering,
}

/// A paragraph justification as the template states it.
#[derive(Clone, Copy, Debug, PartialEq, Eq, Structural)]
pub enum SourceJustification {
    Start,
    End,
    Center,
    Both,
    Distribute,
    Right,
    Left,
}

/// Paragraph spacing as the template states it.
#[derive(Clone, Copy, Debug, PartialEq, Eq, Structural)]
pub struct SourceSpacing {
    pub before: Option<isize>,
    pub after: Option<isize>,
    pub line: Option<isize>,
}

/// The run fonts of a template style.
#[derive(Clone, Debug)]
pub struct SourceFonts {
    pub ascii_theme: Option<String>,
    pub ascii: Option<String>,
}

/// The character properties of a template style.
#[derive(Clone, Debug)]
pub struct SourceCharacter {
    /// Font size in half points.
    pub size: Option<isize>,
    pub bold: bool,
    pub italics: bool,
    pub color: Option<String>,
    pub fonts: Option<SourceFonts>,
}

/// The paragraph properties of a template style.
#[derive(Clone, Debug)]
pub struct SourceParagraph {
    pub justification: Option<SourceJustification>,
    pub spacing: Option<SourceSpacing>,
}

/// A style read from a template document.
#[derive(Clone, Debug)]
pub struct SourceStyle {
    pub kind: Option<SourceStyleKind>,
    pub style_id: String,
    pub name: Option<String>,
    pub character: Option<SourceCharacter>,
    pub paragraph: Option<SourceParagraph>,
}

/// Page layout and the styles read from a template.
///
/// `parsed_styles` holds at most one style per style id.
#[derive(Clone, Debug)]
pub struct TemplateInfo {
    pub page_width: Option<u32>,
    pub page_height: Option<u32>,
    pub margin_top: Option<i32>,
    pub margin_bottom: Option<i32>,
    pub margin_left: Option<i32>,
    pub margin_right: Option<i32>,
    pub header_margin: Option<i32>,
    pub footer_margin: Option<i32>,
    pub parsed_styles: Vec<StyleSpec>,
}

pub struct TemplateInfoV {
    pub page_width: Option<u32>,
    pub page_height: Option<u32>,
    pub margin_top: Option<i32>,
    pub margin_bottom: Option<i32>,
    pub margin_left: Option<i32>,
    pub margin_right: Option<i32>,
    pub header_margin: Option<i32>,
    pub footer_margin: Option<i32>,
    pub parsed_styles: Seq<StyleV>,
}

impl View for TemplateInfo {
    type V = TemplateInfoV;

    open spec fn view(&self) -> TemplateInfoV {
        TemplateInfoV {
            page_width: self.page_width,
            page_height: self.page_height,
            margin_top: self.margin_top,
            margin_bottom: self.margin_bottom,
            margin_left: self.margin_left,
            margin_right: self.margin_right,
            header_margin: self.header_margin,
            footer_margin: self.footer_margin,
            parsed_styles: styles_view(self.parsed_styles@),
        }
    }
}

/// No two styles share a style id.
pub open spec fn distinct_ids(s: Seq<StyleV>) -> bool {
    forall|i: int, j: int|
        0 <= i < s.len() && 0 <= j < s.len() && i != j ==> #[trigger] s[i].style_id
            != #[trigger] s[j].style_id
}

impl TemplateInfoV {
    pub open spec fn wf(self) -> bool {
        distinct_ids(self.parsed_styles)
    }
}

/// The width between the left and right margins, in twentieths of a point:
/// the page width (8.5 inches when unset) less both margins (1 inch each
/// when unset), and zero when the margins leave no room.
pub open spec fn usable_width_of(t: TemplateInfoV) -> u32 {
    let w = match t.page_width {
        Some(w) => w as int,
        None => 12240,
    };
    let l = match t.margin_left {
        Some(m) => m as int,
        None => 1440,
    };
    let r = match t.margin_right {
        Some(m) => m as int,
        None => 1440,
    };
    let u = w - l - r;
    if u < 0 {
        0
    } else if u > u32::MAX {
        u32::MAX
    } else {
        u as u32
    }
}

/// The layout of a template that gives none: US letter with one-inch
/// margins and half-inch header and footer distances, and no styles.
pub open spec fn default_template() -> TemplateInfoV {
    TemplateInfoV {
        page_width: Some(12240),
        page_height: Some(15840),
        margin_top: Some(1440),
        margin_bottom: Some(1440),
        margin_left: Some(1440),
        margin_right: Some(1440),
        header_margin: Some(720),
        footer_margin: Some(720),
        parsed_styles: Seq::empty(),
    }
}

impl TemplateInfo {
    /// The layout used when no template is given.
    pub fn default() -> (t: TemplateInfo)
        ensures
            t@ == default_template(),
            t@.wf(),
    {
        let t = TemplateInfo {
            page_width: Some(12240),
            page_height: Some(15840),
            margin_top: Some(1440),
            margin_bottom: Some(1440),
            margin_left: Some(1440),
            margin_right: Some(1440),
            header_margin: Some(720),
            footer_margin: Some(720),
            parsed_styles: Vec::new(),
        };
        assert(styles_view(t.parsed_styles@) =~= Seq::<StyleV>::empty());
        t
    }

    /// The width between the left and right margins, in twentieths of a
    /// point.
    pub fn usable_width(&self) -> (w: u32)
        ensures
            w == usable_width_of(self@),
    {
        let pw: i64 = match self.page_width {
            Some(w) => w as i64,
            None => 12240,
        };
        let l: i64 = match self.margin_left {
            Some(m) => m as i64,
            None => 1440,
        };
        let r: i64 = match self.margin_right {
            Some(m) => m as i64,
            None => 1440,
        };
        let u = pw - l - r;
        if u < 0 {
            0
        } else if u > u32::MAX as i64 {
            u32::MAX
        } else {
            u as u32
        }
    }
}

// ---------------------------------------------------------------------------
// Converting template styles
// ---------------------------------------------------------------------------

pub open spec fn kind_of(k: SourceStyleKind) -> StyleKind {
    match k {
        SourceStyleKind::Paragraph => StyleKind::Paragraph,
        SourceStyleKind::Character => StyleKind::Character,
        SourceStyleKind::Table => StyleKind::Table,
        SourceStyleKind::Numbering => StyleKind::Numbering,
    }
}

/// Centre, right and left keep their meaning, both-sides becomes justified,
/// and every other justification becomes left.
pub open spec fn alignment_of(j: SourceJustification) -> Alignment {
    match j {
        SourceJustification::Center => Alignment::Center,
        SourceJustification::Right => Alignment::Right,
        SourceJustification::Left => Alignment::Left,
        SourceJustification::Both => Alignment::Justified,
        _ => Alignment::Left,
    }
}

pub open spec fn abs_size(z: isize) -> usize {
    (if z < 0 { -(z as int) } else { z as int }) as usize
}

/// The ASCII font of a run-fonts element: the theme font if set, else the
/// named font.
pub open spec fn ascii_font(f: SourceFonts) -> Option<Seq<char>> {
    match f.ascii_theme {
        Some(t) => Some(t@),
        None => opt_string_view(f.ascii),
    }
}

/// The paragraph spacing of a template style: set only when one of before,
/// after and line is given; the values are cast to the document's widths.
pub open spec fn spacing_of(p: Option<SourceParagraph>) -> Option<Spacing> {
    match p {
        Some(pp) => match pp.spacing {
            Some(sp) => if sp.before is Some || sp.after is Some || sp.line is Some {
                Some(
                    Spacing {
                        line: match sp.line {
                            Some(l) => Some(l as i32),
                            None => None,
                        },
                        before: match sp.before {
                            Some(b) => Some(b as u32),
                            None => None,
                        },
                        after: match sp.after {
                            Some(a) => Some(a as u32),
                            None => None,
                        },
                    },
                )
            } else {
                None
            },
            None => None,
        },
        None => None,
    }
}

/// The document style that a template style converts to; none when the
/// template gives no style kind.
pub open spec fn converted(s: SourceStyle) -> Option<StyleV> {
    match s.kind {
        None => None,
        Some(k) => Some(
            StyleV {
                style_id: s.style_id@,
                kind: kind_of(k),
                name: opt_string_view(s.name),
                size: match s.character {
                    Some(c) => match c.size {
                        Some(z) => Some(abs_size(z)),
                        None => None,
                    },
                    None => None,
                },
                bold: match s.character {
                    Some(c) => c.bold,
                    None => false,
                },
                italic: match s.character {
                    Some(c) => c.italics,
                    None => false,
                },
                color: match s.character {
                    Some(c) => opt_string_view(c.color),
                    None => None,
                },
                fonts: match s.character {
                    Some(c) => match c.fonts {
                        Some(f) => Some(ascii_font(f)),
                        None => None,
                    },
                    None => None,
                },
                align: match s.paragraph {
                    Some(p) => match p.justification {
                        Some(j) => Some(alignment_of(j)),
                        None => None,
                    },
                    None => None,
                },
                spacing: spacing_of(s.paragraph),
            },
        ),
    }
}

/// A template style's font size can be made non-negative.
pub open spec fn size_in_range(s: SourceStyle) -> bool {
    match s.character {
        Some(c) => match c.size {
            Some(z) => z != isize::MIN,
            None => true,
        },
        None => true,
    }
}

fn copy_opt_string(s: &Option<String>) -> (r: Option<String>)
    ensures
        opt_string_view(r) == opt_string_view(*s),
{
    match s {
        Some(x) => Some(x.clone()),
        None => None,
    }
}

/// Converts a template style to a document style.
pub fn convert_style(s: &SourceStyle) -> (r: Option<StyleSpec>)
    requires
        size_in_range(*s),
    ensures
        match r {
            Some(x) => converted(*s) == Some(x@),
            None => converted(*s) is None,
        },
{
    let kind = match s.kind {
        Some(SourceStyleKind::Paragraph) => StyleKind::Paragraph,
        Some(SourceStyleKind::Character) => StyleKind::Character,
        Some(SourceStyleKind::Table) => StyleKind::Table,
        Some(SourceStyleKind::Numbering) => StyleKind::Numbering,
        None => {
            return None;
        },
    };
    let mut out = StyleSpec {
        style_id: s.style_id.clone(),
        kind,
        name: copy_opt_string(&s.name),
        size: None,
        bold: false,
        italic: false,
        color: None,
        fonts: None,
        align: None,
        spacing: None,
    };
    match &s.character {
        Some(c) => {
            match c.size {
                Some(z) => {
                    let a = if z < 0 { -z } else { z };
                    out.size = Some(a as usize);
                },
                None => {},
            }
            out.bold = c.bold;
            out.italic = c.italics;
            out.color = copy_opt_string(&c.color);
            match &c.fonts {
                Some(f) => {
                    let ascii = match &f.ascii_theme {
                        Some(t) => Some(t.clone()),
                        None => copy_opt_string(&f.ascii),
                    };
                    out.fonts = Some(ascii);
                },
                None => {},
            }
        },
        None => {},
    }
    match &s.paragraph {
        Some(p) => {
            match p.justification {
                Some(j) => {
                    out.align = Some(
                        match j {
                            SourceJustification::Center => Alignment::Center,
                            SourceJustification::Right => Alignment::Right,
                            SourceJustification::Left => Alignment::Left,
                            SourceJustification::Both => Alignment::Justified,
                            _ => Alignment::Left,
                        },
                    );
                },
                None => {},
            }
            match p.spacing {
                Some(sp) => {
                    if sp.before.is_some() || sp.after.is_some() || sp.line.is_some() {
                        out.spacing = Some(
                            Spacing {
                                line: match sp.line {
                                    Some(l) => Some(l as i32),
                                    None => None,
                                },
                                before: match sp.before {
                                    Some(b) => Some(b as u32),
                                    None => None,
                                },
                                after: match sp.after {
                                    Some(a) => Some(a as u32),
                                    None => None,
                                },
                            },
                        );
                    }
                },
                None => {},
            }
        },
        None => {},
    }
    Some(out)
}

// ---------------------------------------------------------------------------
// The template's style table
// ---------------------------------------------------------------------------

/// `styles` with `s` stored under its id: it replaces the style of the same
/// id, or is added at the end when there is none.
pub open spec fn insert_style(styles: Seq<StyleV>, s: StyleV) -> Seq<StyleV> {
    if exists|i: int| 0 <= i < styles.len() && styles[i].style_id == s.style_id {
        let i = choose|i: int| 0 <= i < styles.len() && styles[i].style_id == s.style_id;
        styles.update(i, s)
    } else {
        styles.push(s)
    }
}

/// Some style of `styles` has the id `id`.
pub open spec fn has_style(styles: Seq<StyleV>, id: Seq<char>) -> bool {
    exists|i: int| 0 <= i < styles.len() && #[trigger] styles[i].style_id == id
}

/// Stores a style in a table of distinct ids.
pub fn insert_style_exec(styles: &mut Vec<StyleSpec>, s: StyleSpec)
    requires
        distinct_ids(styles_view(old(styles)@)),
    ensures
        styles_view(final(styles)@) == insert_style(styles_view(old(styles)@), s@),
        distinct_ids(styles_view(final(styles)@)),
{
    let ghost before = styles_view(styles@);
    let mut i: usize = 0;
    while i < styles.len()
        invariant
            i <= styles.len(),
            styles_view(styles@) == before,
            before == styles_view(old(styles)@),
            distinct_ids(before),
            forall|j: int| 0 <= j < i ==> before[j].style_id != s@.style_id,
        decreases styles.len() - i,
    {
        if styles[i].style_id == s.style_id {
            let ghost sv = s@;
            assert(before[i as int].style_id == sv.style_id);
            assert forall|j: int|
                0 <= j < before.len() && before[j].style_id == sv.style_id implies j == i by {
                if j != i {
                    assert(before[j].style_id != before[i as int].style_id);
                }
            }
            styles.set(i, s);
            assert(styles_view(styles@) =~= before.update(i as int, sv));
            let ghost k = choose|k: int| 0 <= k < before.len() && before[k].style_id == sv.style_id;
            assert(k == i);
            assert forall|a: int, b: int|
                0 <= a < before.len() && 0 <= b < before.len() && a != b implies #[trigger] styles_view(
                    styles@,
                )[a].style_id != #[trigger] styles_view(styles@)[b].style_id by {
                if a != i && b != i {
                    assert(before[a].style_id != before[b].style_id);
                }
            }
            return;
        }
        i = i + 1;
    }
    let ghost sv = s@;
    styles.push(s);
    assert(styles_view(styles@) =~= before.push(sv));
    assert forall|a: int, b: int|
        0 <= a < styles_view(styles@).len() && 0 <= b < styles_view(styles@).len() && a != b
            implies #[trigger] styles_view(styles@)[a].style_id != #[trigger] styles_view(
            styles@,
        )[b].style_id by {
        if a < before.len() && b < before.len() {
            assert(before[a].style_id != before[b].style_id);
        }
    }
}

/// The style table made of the convertible styles of a template, in order.
pub open spec fn template_styles(src: Seq<SourceStyle>) -> Seq<StyleV>
    decreases src.len(),
{
    if src.len() == 0 {
        Seq::empty()
    } else {
        let rest = template_styles(src.drop_last());
        match converted(src.last()) {
            Some(s) => insert_style(rest, s),
            None => rest,
        }
    }
}

/// The layout and styles of a template: the default layout with the
/// template's convertible styles, or only the default when the template
/// could not be read.
pub open spec fn template_info_of(src: Option<Seq<SourceStyle>>) -> TemplateInfoV {
    match src {
        Some(s) => TemplateInfoV { parsed_styles: template_styles(s), ..default_template() },
        None => default_template(),
    }
}

/// Makes the template layout from the styles that a template document
/// holds, or from nothing when it could not be read.
pub fn parse_template(src: Option<&Vec<SourceStyle>>) -> (t: TemplateInfo)
    requires
        src matches Some(v) ==> forall|i: int| 0 <= i < v.len() ==> size_in_range(#[trigger] v@[i]),
    ensures
        t@ == template_info_of(
            match src {
                Some(v) => Some(v@),
                None => None,
            },
        ),
        t@.wf(),
{
    let mut t = TemplateInfo::default();
    match src {
        Some(v) => {
            let mut i: usize = 0;
            while i < v.len()
                invariant
                    i <= v.len(),
                    forall|j: int| 0 <= j < v.len() ==> size_in_range(#[trigger] v@[j]),
                    t@ == (TemplateInfoV { parsed_styles: template_styles(v@.take(i as int)), ..default_template() }),
                    t@.wf(),
                decreases v.len() - i,
            {
                assert(v@.take(i + 1).drop_last() =~= v@.take(i as int));
                assert(v@.take(i + 1).last() == v@[i as int]);
                match convert_style(&v[i]) {
                    Some(s) => {
                        insert_style_exec(&mut t.parsed_styles, s);
                    },
                    None => {},
                }
                i = i + 1;
            }
            assert(v@.take(v.len() as int) =~= v@);
        },
        None => {},
    }
    t
}

// ---------------------------------------------------------------------------
// Document setup
// ---------------------------------------------------------------------------

/// A paragraph style with the given name, size in half points, weight,
/// slant, colour, alignment and spacing, and no fonts of its own.
pub open spec fn default_style(
    id: Seq<char>,
    name: Seq<char>,
    size: usize,
    bold: bool,
    italic: bool,
    color: Option<Seq<char>>,
    align: Option<Alignment>,
    spacing: Option<Spacing>,
) -> StyleV {
    StyleV {
        style_id: id,
        kind: StyleKind::Paragraph,
        name: Some(name),
        size: Some(size),
        bold,
        italic,
        color,
        fonts: None,
        align,
        spacing,
    }
}

pub open spec fn title_style() -> StyleV {
    default_style("Title"@, "Title"@, 48, true, false, Some("2F5496"@), Some(Alignment::Center),
        Some(Spacing { line: Some(276), before: Some(240), after: Some(60) }))
}

pub open spec fn subtitle_style() -> StyleV {
    default_style("Subtitle"@, "Subtitle"@, 28, false, true, Some("595959"@), Some(Alignment::Center),
        Some(Spacing { line: Some(276), before: Some(180), after: Some(60) }))
}

pub open spec fn heading1_style() -> StyleV {
    default_style("Heading1"@, "Heading 1"@, 32, true, false, Some("2F5496"@), None,
        Some(Spacing { line: Some(276), before: Some(240), after: Some(60) }))
}

pub open spec fn heading2_style() -> StyleV {
    default_style("Heading2"@, "Heading 2"@, 26, true, false, Some("2F5496"@), None,
        Some(Spacing { line: Some(276), before: Some(200), after: Some(40) }))
}

pub open spec fn list_number_style() -> StyleV {
    default_style("ListNumber"@, "List Number"@, 24, false, false, None, None,
        Some(Spacing { line: Some(276), before: Some(0), after: Some(20) }))
}

/// The default styles for the essential styles that `styles` lacks, in the
/// order title, subtitle, heading 1, heading 2, list number; a heading or
/// list number style counts as present under either of its two ids.
pub open spec fn essential_styles(styles: Seq<StyleV>) -> Seq<StyleV> {
    (if has_style(styles, "Title"@) { Seq::empty() } else { seq![title_style()] })
    + (if has_style(styles, "Subtitle"@) { Seq::empty() } else { seq![subtitle_style()] })
    + (if has_style(styles, "Heading1"@) || has_style(styles, "Heading 1"@) { Seq::empty() } else { seq![heading1_style()] })
    + (if has_style(styles, "Heading2"@) || has_style(styles, "Heading 2"@) { Seq::empty() } else { seq![heading2_style()] })
    + (if has_style(styles, "ListNumber"@) || has_style(styles, "List Number"@) { Seq::empty() } else { seq![list_number_style()] })
}

/// The page margins of a template, one inch (header and footer half an
/// inch) where it sets none.
pub open spec fn margins_of(t: TemplateInfoV) -> PageMarginSpec {
    PageMarginSpec {
        top: match t.margin_top { Some(m) => m, None => 1440 },
        bottom: match t.margin_bottom { Some(m) => m, None => 1440 },
        left: match t.margin_left { Some(m) => m, None => 1440 },
        right: match t.margin_right { Some(m) => m, None => 1440 },
        header: Some(match t.header_margin { Some(m) => m, None => 720 }),
        footer: Some(match t.footer_margin { Some(m) => m, None => 720 }),
    }
}

/// The setup of a document made with a template: its page size when both
/// dimensions are set, its margins, its styles and then the default
/// essential styles it lacks.
pub open spec fn setup_of(t: TemplateInfoV) -> DocumentSetupV {
    DocumentSetupV {
        page_size: match (t.page_width, t.page_height) {
            (Some(w), Some(h)) => Some((w, h)),
            _ => None,
        },
        margin: Some(margins_of(t)),
        styles: t.parsed_styles + essential_styles(t.parsed_styles),
    }
}

fn make_default_style(
    id: &str,
    name: &str,
    size: usize,
    bold: bool,
    italic: bool,
    color: Option<&str>,
    align: Option<Alignment>,
    spacing: Option<Spacing>,
) -> (s: StyleSpec)
    ensures
        s@ == default_style(id@, name@, size, bold, italic, match color {
            Some(c) => Some(c@),
            None => None,
        }, align, spacing),
{
    StyleSpec {
        style_id: String::from_str(id),
        kind: StyleKind::Paragraph,
        name: Some(String::from_str(name)),
        size: Some(size),
        bold,
        italic,
        color: match color {
            Some(c) => Some(String::from_str(c)),
            None => None,
        },
        fonts: None,
        align,
        spacing,
    }
}

/// Whether some style of `styles` has the id `id`.
pub fn has_style_exec(styles: &Vec<StyleSpec>, id: &str) -> (b: bool)
    ensures
        b == has_style(styles_view(styles@), id@),
{
    let key = String::from_str(id);
    let mut i: usize = 0;
    while i < styles.len()
        invariant
            i <= styles.len(),
            key@ == id@,
            forall|j: int| 0 <= j < i ==> styles_view(styles@)[j].style_id != id@,
        decreases styles.len() - i,
    {
        if styles[i].style_id == key {
            assert(styles_view(styles@)[i as int].style_id == id@);
            return true;
        }
        i = i + 1;
    }
    false
}

/// Appends `s` unless a style it stands for is `present` already.
fn push_unless_present(styles: &mut Vec<StyleSpec>, present: bool, s: StyleSpec)
    ensures
        styles_view(final(styles)@) == styles_view(old(styles)@) + (if present {
            Seq::<StyleV>::empty()
        } else {
            seq![s@]
        }),
{
    let ghost before = styles_view(styles@);
    let ghost sv = s@;
    if !present {
        styles.push(s);
        assert(styles_view(styles@) =~= before + seq![sv]);
    } else {
        assert(before + Seq::<StyleV>::empty() =~= before);
    }
}

/// Appends the default essential styles that `template` lacks.
fn add_essential_styles(styles: &mut Vec<StyleSpec>, template: &Vec<StyleSpec>)
    ensures
        styles_view(final(styles)@) == styles_view(old(styles)@) + essential_styles(
            styles_view(template@),
        ),
{
    let ghost t = styles_view(template@);
    let ghost start = styles_view(styles@);
    let has_title = has_style_exec(template, "Title");
    let has_subtitle = has_style_exec(template, "Subtitle");
    let has_heading1 = has_style_exec(template, "Heading1") || has_style_exec(template, "Heading 1");
    let has_heading2 = has_style_exec(template, "Heading2") || has_style_exec(template, "Heading 2");
    let has_list_number = has_style_exec(template, "ListNumber") || has_style_exec(
        template,
        "List Number",
    );
    let ghost e1 = if has_title { Seq::<StyleV>::empty() } else { seq![title_style()] };
    let ghost e2 = if has_subtitle { Seq::<StyleV>::empty() } else { seq![subtitle_style()] };
    let ghost e3 = if has_heading1 { Seq::<StyleV>::empty() } else { seq![heading1_style()] };
    let ghost e4 = if has_heading2 { Seq::<StyleV>::empty() } else { seq![heading2_style()] };
    let ghost e5 = if has_list_number { Seq::<StyleV>::empty() } else { seq![list_number_style()] };
    push_unless_present(styles, has_title, make_default_style("Title", "Title", 48, true, false,
        Some("2F5496"), Some(Alignment::Center), Some(Spacing { line: Some(276), before: Some(240), after: Some(60) })));
    let ghost s1 = styles_view(styles@);
    push_unless_present(styles, has_subtitle, make_default_style("Subtitle", "Subtitle", 28, false, true,
        Some("595959"), Some(Alignment::Center), Some(Spacing { line: Some(276), before: Some(180), after: Some(60) })));
    let ghost s2 = styles_view(styles@);
    push_unless_present(styles, has_heading1, make_default_style("Heading1", "Heading 1", 32, true, false,
        Some("2F5496"), None, Some(Spacing { line: Some(276), before: Some(240), after: Some(60) })));
    let ghost s3 = styles_view(styles@);
    push_unless_present(styles, has_heading2, make_default_style("Heading2", "Heading 2", 26, true, false,
        Some("2F5496"), None, Some(Spacing { line: Some(276), before: Some(200), after: Some(40) })));
    let ghost s4 = styles_view(styles@);
    push_unless_present(styles, has_list_number, make_default_style("ListNumber", "List Number", 24, false,
        false, None, None, Some(Spacing { line: Some(276), before: Some(0), after: Some(20) })));
    proof {
        assert(s1 == start + e1);
        assert(s2 == s1 + e2);
        assert(s3 == s2 + e3);
        assert(s4 == s3 + e4);
        assert(styles_view(styles@) == s4 + e5);
        assert(essential_styles(t) =~= e1 + e2 + e3 + e4 + e5);
        assert(styles_view(styles@) =~= start + (e1 + e2 + e3 + e4 + e5));
    }
}

fn copy_style(s: &StyleSpec) -> (r: StyleSpec)
    ensures
        r@ == s@,
{
    StyleSpec {
        style_id: s.style_id.clone(),
        kind: s.kind,
        name: copy_opt_string(&s.name),
        size: s.size,
        bold: s.bold,
        italic: s.italic,
        color: copy_opt_string(&s.color),
        fonts: match &s.fonts {
            Some(f) => Some(copy_opt_string(f)),
            None => None,
        },
        align: s.align,
        spacing: s.spacing,
    }
}

/// The document setup that a template gives.
pub fn apply_template_info(template_info: &TemplateInfo) -> (d: DocumentSetup)
    ensures
        d@ == setup_of(template_info@),
{
    let page_size = match (template_info.page_width, template_info.page_height) {
        (Some(w), Some(h)) => Some((w, h)),
        _ => None,
    };
    let margin = PageMarginSpec {
        top: match template_info.margin_top { Some(m) => m, None => 1440 },
        bottom: match template_info.margin_bottom { Some(m) => m, None => 1440 },
        left: match template_info.margin_left { Some(m) => m, None => 1440 },
        right: match template_info.margin_right { Some(m) => m, None => 1440 },
        header: Some(match template_info.header_margin { Some(m) => m, None => 720 }),
        footer: Some(match template_info.footer_margin { Some(m) => m, None => 720 }),
    };
    let mut styles: Vec<StyleSpec> = Vec::new();
    let mut i: usize = 0;
    while i < template_info.parsed_styles.len()
        invariant
            i <= template_info.parsed_styles.len(),
            styles_view(styles@) == styles_view(template_info.parsed_styles@).take(i as int),
        decreases template_info.parsed_styles.len() - i,
    {
        let ghost before = styles_view(styles@);
        let c = copy_style(&template_info.parsed_styles[i]);
        let ghost cv = c@;
        styles.push(c);
        assert(styles_view(styles@) =~= before.push(cv));
        assert(styles_view(styles@) =~= styles_view(template_info.parsed_styles@).take(i + 1));
        i = i + 1;
    }
    assert(styles_view(template_info.parsed_styles@).take(i as int) =~= styles_view(template_info.parsed_styles@));
    add_essential_styles(&mut styles, &template_info.parsed_styles);
    DocumentSetup { page_size, margin: Some(margin), styles }
}

// ---------------------------------------------------------------------------
// Starter templates
// ---------------------------------------------------------------------------

/// The styles of the simple starter template: the five styles a test uses,
/// with their default look and no spacing of their own.
pub open spec fn simple_template_styles() -> Seq<StyleV> {
    seq![
        default_style("Title"@, "Title"@, 48, true, false, Some("2F5496"@), Some(Alignment::Center), None),
        default_style("Subtitle"@, "Subtitle"@, 28, false, true, Some("595959"@), Some(Alignment::Center), None),
        default_style("Heading1"@, "Heading 1"@, 32, true, false, Some("2F5496"@), None, None),
        default_style("Heading2"@, "Heading 2"@, 26, true, false, Some("2F5496"@), None, None),
        default_style("ListNumber"@, "List Number"@, 24, false, false, None, None, None),
    ]
}

/// The simple starter template: a letter-size page with one-inch margins
/// and the five styles of a test; no header and an empty body.
pub open spec fn simple_template_doc() -> DocumentV {
    DocumentV {
        setup: DocumentSetupV {
            page_size: Some((12240, 15840)),
            margin: Some(PageMarginSpec { top: 1440, bottom: 1440, left: 1440, right: 1440, header: None, footer: None }),
            styles: simple_template_styles(),
        },
        first_header: None,
        body: Seq::empty(),
    }
}

/// The minimal starter template: only a title and a subtitle style, and a
/// sample paragraph in each.
pub open spec fn minimal_template_doc() -> DocumentV {
    DocumentV {
        setup: DocumentSetupV {
            page_size: None,
            margin: None,
            styles: seq![
                default_style("Title"@, "Title"@, 48, true, false, Some("2F5496"@), None, None),
                default_style("Subtitle"@, "Subtitle"@, 28, false, true, Some("595959"@), None, None),
            ],
        },
        first_header: None,
        body: seq![
            BlockV::Paragraph(styled_paragraph("Sample Title"@, "Title"@)),
            BlockV::Paragraph(styled_paragraph("Sample Subtitle"@, "Subtitle"@)),
        ],
    }
}

/// The simple starter template document.
pub fn simple_template() -> (d: DocumentSpec)
    ensures
        d@ == simple_template_doc(),
{
    let mut styles: Vec<StyleSpec> = Vec::new();
    styles.push(make_default_style("Title", "Title", 48, true, false, Some("2F5496"), Some(Alignment::Center), None));
    styles.push(make_default_style("Subtitle", "Subtitle", 28, false, true, Some("595959"), Some(Alignment::Center), None));
    styles.push(make_default_style("Heading1", "Heading 1", 32, true, false, Some("2F5496"), None, None));
    styles.push(make_default_style("Heading2", "Heading 2", 26, true, false, Some("2F5496"), None, None));
    styles.push(make_default_style("ListNumber", "List Number", 24, false, false, None, None, None));
    let margin = PageMarginSpec { top: 1440, bottom: 1440, left: 1440, right: 1440, header: None, footer: None };
    let d = DocumentSpec {
        setup: DocumentSetup { page_size: Some((12240, 15840)), margin: Some(margin), styles },
        first_header: None,
        body: Vec::new(),
    };
    assert(d@.setup.styles =~= simple_template_styles());
    assert(d@.body =~= Seq::<BlockV>::empty());
    d
}

/// The minimal starter template document.
pub fn minimal_template() -> (d: DocumentSpec)
    ensures
        d@ == minimal_template_doc(),
{
    let mut styles: Vec<StyleSpec> = Vec::new();
    styles.push(make_default_style("Title", "Title", 48, true, false, Some("2F5496"), None, None));
    styles.push(make_default_style("Subtitle", "Subtitle", 28, false, true, Some("595959"), None, None));
    let mut body: Vec<Block> = Vec::new();
    body.push(Block::Paragraph(styled(String::from_str("Sample Title"), "Title")));
    body.push(Block::Paragraph(styled(String::from_str("Sample Subtitle"), "Subtitle")));
    let d = DocumentSpec {
        setup: DocumentSetup { page_size: None, margin: None, styles },
        first_header: None,
        body,
    };
    assert(d@.setup.styles =~= minimal_template_doc().setup.styles);
    assert(d@.body =~= minimal_template_doc().body);
    d
}

// ---------------------------------------------------------------------------
// Laws
// ---------------------------------------------------------------------------

proof fn lemma_has_style_left(a: Seq<StyleV>, b: Seq<StyleV>, id: Seq<char>)
    requires
        has_style(a, id),
    ensures
        has_style(a + b, id),
{
    let i = choose|i: int| 0 <= i < a.len() && #[trigger] a[i].style_id == id;
    assert((a + b)[i] == a[i]);
}

proof fn lemma_has_style_right(a: Seq<StyleV>, b: Seq<StyleV>, id: Seq<char>)
    requires
        has_style(b, id),
    ensures
        has_style(a + b, id),
{
    let i = choose|i: int| 0 <= i < b.len() && #[trigger] b[i].style_id == id;
    assert((a + b)[a.len() + i] == b[i]);
}

proof fn lemma_has_single(s: StyleV)
    ensures
        has_style(seq![s], s.style_id),
{
    assert(seq![s][0].style_id == s.style_id);
}

/// A document made with any template has every style that the test uses:
/// the title, subtitle, heading and list-number styles come from the
/// template (under either of their ids) or from the defaults; and the
/// template's own styles come first, unchanged.
pub proof fn law_setup_has_essential_styles(t: TemplateInfoV)
    ensures
        setup_of(t).styles.take(t.parsed_styles.len() as int) == t.parsed_styles,
        has_style(setup_of(t).styles, "Title"@),
        has_style(setup_of(t).styles, "Subtitle"@),
        has_style(setup_of(t).styles, "Heading1"@) || has_style(setup_of(t).styles, "Heading 1"@),
        has_style(setup_of(t).styles, "Heading2"@) || has_style(setup_of(t).styles, "Heading 2"@),
        has_style(setup_of(t).styles, "ListNumber"@) || has_style(setup_of(t).styles, "List Number"@),
{
    let p = t.parsed_styles;
    let s = setup_of(t).styles;
    assert(s.take(p.len() as int) =~= p);
    let e1 = if has_style(p, "Title"@) { Seq::<StyleV>::empty() } else { seq![title_style()] };
    let e2 = if has_style(p, "Subtitle"@) { Seq::<StyleV>::empty() } else { seq![subtitle_style()] };
    let e3 = if has_style(p, "Heading1"@) || has_style(p, "Heading 1"@) { Seq::<StyleV>::empty() } else { seq![heading1_style()] };
    let e4 = if has_style(p, "Heading2"@) || has_style(p, "Heading 2"@) { Seq::<StyleV>::empty() } else { seq![heading2_style()] };
    let e5 = if has_style(p, "ListNumber"@) || has_style(p, "List Number"@) { Seq::<StyleV>::empty() } else { seq![list_number_style()] };
    assert(s =~= p + (e1 + (e2 + (e3 + (e4 + e5)))));
    let r5 = e4 + e5;
    let r4 = e3 + r5;
    let r3 = e2 + r4;
    let r2 = e1 + r3;
    lemma_has_single(title_style());
    lemma_has_single(subtitle_style());
    lemma_has_single(heading1_style());
    lemma_has_single(heading2_style());
    lemma_has_single(list_number_style());
    // Title
    if has_style(p, "Title"@) {
        lemma_has_style_left(p, r2, "Title"@);
    } else {
        lemma_has_style_left(e1, r3, "Title"@);
        lemma_has_style_right(p, r2, "Title"@);
    }
    // Subtitle
    if has_style(p, "Subtitle"@) {
        lemma_has_style_left(p, r2, "Subtitle"@);
    } else {
        lemma_has_style_left(e2, r4, "Subtitle"@);
        lemma_has_style_right(e1, r3, "Subtitle"@);
        lemma_has_style_right(p, r2, "Subtitle"@);
    }
    // Heading 1
    if has_style(p, "Heading1"@) {
        lemma_has_style_left(p, r2, "Heading1"@);
    } else if has_style(p, "Heading 1"@) {
        lemma_has_style_left(p, r2, "Heading 1"@);
    } else {
        lemma_has_style_left(e3, r5, "Heading1"@);
        lemma_has_style_right(e2, r4, "Heading1"@);
        lemma_has_style_right(e1, r3, "Heading1"@);
        lemma_has_style_right(p, r2, "Heading1"@);
    }
    // Heading 2
    if has_style(p, "Heading2"@) {
        lemma_has_style_left(p, r2, "Heading2"@);
    } else if has_style(p, "Heading 2"@) {
        lemma_has_style_left(p, r2, "Heading 2"@);
    } else {
        lemma_has_style_left(e4, e5, "Heading2"@);
        lemma_has_style_right(e3, r5, "Heading2"@);
        lemma_has_style_right(e2, r4, "Heading2"@);
        lemma_has_style_right(e1, r3, "Heading2"@);
        lemma_has_style_right(p, r2, "Heading2"@);
    }
    // List number
    if has_style(p, "ListNumber"@) {
        lemma_has_style_left(p, r2, "ListNumber"@);
    } else if has_style(p, "List Number"@) {
        lemma_has_style_left(p, r2, "List Number"@);
    } else {
        lemma_has_style_right(e4, e5, "ListNumber"@);
        lemma_has_style_right(e3, r5, "ListNumber"@);
        lemma_has_style_right(e2, r4, "ListNumber"@);
        lemma_has_style_right(e1, r3, "ListNumber"@);
        lemma_has_style_right(p, r2, "ListNumber"@);
    }
}

proof fn lemma_insert_style_distinct(s: Seq<StyleV>, x: StyleV)
    requires
        distinct_ids(s),
    ensures
        distinct_ids(insert_style(s, x)),
{
    if exists|i: int| 0 <= i < s.len() && s[i].style_id == x.style_id {
        let i = choose|i: int| 0 <= i < s.len() && s[i].style_id == x.style_id;
        let r = s.update(i, x);
        assert forall|a: int, b: int| 0 <= a < r.len() && 0 <= b < r.len() && a != b implies #[trigger] r[a].style_id != #[trigger] r[b].style_id by {
            assert(s[a].style_id != s[b].style_id);
        }
    } else {
        let r = s.push(x);
        assert forall|a: int, b: int| 0 <= a < r.len() && 0 <= b < r.len() && a != b implies #[trigger] r[a].style_id != #[trigger] r[b].style_id by {
            if a < s.len() && b < s.len() {
                assert(s[a].style_id != s[b].style_id);
            }
        }
    }
}

/// A template's style table never holds two styles of one id: a later style
/// of a repeated id replaces the earlier one.
pub proof fn law_template_styles_distinct(src: Seq<SourceStyle>)
    ensures
        distinct_ids(template_styles(src)),
    decreases src.len(),
{
    if src.len() > 0 {
        law_template_styles_distinct(src.drop_last());
        match converted(src.last()) {
            Some(s) => lemma_insert_style_distinct(template_styles(src.drop_last()), s),
            None => {},
        }
    }
}

/// No style of `a` shares its id with a style of `b`.
pub open spec fn ids_disjoint(a: Seq<StyleV>, b: Seq<StyleV>) -> bool {
    forall|i: int, j: int| 0 <= i < a.len() && 0 <= j < b.len() ==> #[trigger] a[i].style_id != #[trigger] b[j].style_id
}

proof fn lemma_distinct_concat(a: Seq<StyleV>, b: Seq<StyleV>)
    requires
        distinct_ids(a),
        distinct_ids(b),
        ids_disjoint(a, b),
    ensures
        distinct_ids(a + b),
{
    let s = a + b;
    assert forall|i: int, j: int| 0 <= i < s.len() && 0 <= j < s.len() && i != j implies #[trigger] s[i].style_id != #[trigger] s[j].style_id by {
        if i < a.len() && j < a.len() {
            assert(a[i].style_id != a[j].style_id);
        } else if i >= a.len() && j >= a.len() {
            assert(b[i - a.len()].style_id != b[j - a.len()].style_id);
        } else if i < a.len() {
            assert(a[i].style_id != b[j - a.len()].style_id);
        } else {
            assert(a[j].style_id != b[i - a.len()].style_id);
        }
    }
}

/// An optional default style: none, or one style of id `id`.
spec fn opt_is(e: Seq<StyleV>, id: Seq<char>) -> bool {
    e.len() == 0 || (e.len() == 1 && e[0].style_id == id)
}

proof fn lemma_opt_disjoint(a: Seq<StyleV>, x: Seq<char>, b: Seq<StyleV>, y: Seq<char>)
    requires
        opt_is(a, x),
        opt_is(b, y),
        x != y,
    ensures
        ids_disjoint(a, b),
{
}

proof fn lemma_opt_distinct(a: Seq<StyleV>, x: Seq<char>)
    requires
        opt_is(a, x),
    ensures
        distinct_ids(a),
{
}

proof fn lemma_opt_not_in(p: Seq<StyleV>, e: Seq<StyleV>, x: Seq<char>)
    requires
        opt_is(e, x),
        e.len() > 0 ==> !has_style(p, x),
    ensures
        ids_disjoint(p, e),
{
    assert forall|i: int, j: int| 0 <= i < p.len() && 0 <= j < e.len() implies #[trigger] p[i].style_id != #[trigger] e[j].style_id by {
        if p[i].style_id == e[j].style_id {
            assert(has_style(p, x));
        }
    }
}

proof fn lemma_disjoint_concat_right(a: Seq<StyleV>, b: Seq<StyleV>, c: Seq<StyleV>)
    requires
        ids_disjoint(a, b),
        ids_disjoint(a, c),
    ensures
        ids_disjoint(a, b + c),
{
    assert forall|i: int, j: int| 0 <= i < a.len() && 0 <= j < (b + c).len() implies #[trigger] a[i].style_id != #[trigger] (b + c)[j].style_id by {
        if j < b.len() {
            assert(a[i].style_id != b[j].style_id);
        } else {
            assert(a[i].style_id != c[j - b.len()].style_id);
        }
    }
}

/// A document made with a template whose style ids are distinct never
/// defines a style id twice: a default essential style is added only when
/// the template has none of its ids.
pub proof fn law_setup_ids_distinct(t: TemplateInfoV)
    requires
        t.wf(),
    ensures
        distinct_ids(setup_of(t).styles),
{
    reveal_strlit("Title");
    reveal_strlit("Subtitle");
    reveal_strlit("Heading1");
    reveal_strlit("Heading2");
    reveal_strlit("ListNumber");
    let p = t.parsed_styles;
    let e1 = if has_style(p, "Title"@) { Seq::<StyleV>::empty() } else { seq![title_style()] };
    let e2 = if has_style(p, "Subtitle"@) { Seq::<StyleV>::empty() } else { seq![subtitle_style()] };
    let e3 = if has_style(p, "Heading1"@) || has_style(p, "Heading 1"@) { Seq::<StyleV>::empty() } else { seq![heading1_style()] };
    let e4 = if has_style(p, "Heading2"@) || has_style(p, "Heading 2"@) { Seq::<StyleV>::empty() } else { seq![heading2_style()] };
    let e5 = if has_style(p, "ListNumber"@) || has_style(p, "List Number"@) { Seq::<StyleV>::empty() } else { seq![list_number_style()] };
    assert("Title"@ != "Subtitle"@) by { assert("Title"@.len() != "Subtitle"@.len()); }
    assert("Title"@ != "Heading1"@) by { assert("Title"@.len() != "Heading1"@.len()); }
    assert("Title"@ != "Heading2"@) by { assert("Title"@.len() != "Heading2"@.len()); }
    assert("Title"@ != "ListNumber"@) by { assert("Title"@.len() != "ListNumber"@.len()); }
    assert("Subtitle"@ != "Heading1"@) by { assert("Subtitle"@[0] != "Heading1"@[0]); }
    assert("Subtitle"@ != "Heading2"@) by { assert("Subtitle"@[0] != "Heading2"@[0]); }
    assert("Subtitle"@ != "ListNumber"@) by { assert("Subtitle"@.len() != "ListNumber"@.len()); }
    assert("Heading1"@ != "Heading2"@) by { assert("Heading1"@[7] != "Heading2"@[7]); }
    assert("Heading1"@ != "ListNumber"@) by { assert("Heading1"@.len() != "ListNumber"@.len()); }
    assert("Heading2"@ != "ListNumber"@) by { assert("Heading2"@.len() != "ListNumber"@.len()); }
    assert(opt_is(e1, "Title"@));
    assert(opt_is(e2, "Subtitle"@));
    assert(opt_is(e3, "Heading1"@));
    assert(opt_is(e4, "Heading2"@));
    assert(opt_is(e5, "ListNumber"@));
    lemma_opt_distinct(e1, "Title"@);
    lemma_opt_distinct(e2, "Subtitle"@);
    lemma_opt_distinct(e3, "Heading1"@);
    lemma_opt_distinct(e4, "Heading2"@);
    lemma_opt_distinct(e5, "ListNumber"@);
    // e4 + e5
    lemma_opt_disjoint(e4, "Heading2"@, e5, "ListNumber"@);
    lemma_distinct_concat(e4, e5);
    // e3 + (e4 + e5)
    lemma_opt_disjoint(e3, "Heading1"@, e4, "Heading2"@);
    lemma_opt_disjoint(e3, "Heading1"@, e5, "ListNumber"@);
    lemma_disjoint_concat_right(e3, e4, e5);
    lemma_distinct_concat(e3, e4 + e5);
    // e2 + ...
    lemma_opt_disjoint(e2, "Subtitle"@, e3, "Heading1"@);
    lemma_opt_disjoint(e2, "Subtitle"@, e4, "Heading2"@);
    lemma_opt_disjoint(e2, "Subtitle"@, e5, "ListNumber"@);
    lemma_disjoint_concat_right(e2, e4, e5);
    lemma_disjoint_concat_right(e2, e3, e4 + e5);
    lemma_distinct_concat(e2, e3 + (e4 + e5));
    // e1 + ...
    lemma_opt_disjoint(e1, "Title"@, e2, "Subtitle"@);
    lemma_opt_disjoint(e1, "Title"@, e3, "Heading1"@);
    lemma_opt_disjoint(e1, "Title"@, e4, "Heading2"@);
    lemma_opt_disjoint(e1, "Title"@, e5, "ListNumber"@);
    lemma_disjoint_concat_right(e1, e4, e5);
    lemma_disjoint_concat_right(e1, e3, e4 + e5);
    lemma_disjoint_concat_right(e1, e2, e3 + (e4 + e5));
    let e = e1 + (e2 + (e3 + (e4 + e5)));
    lemma_distinct_concat(e1, e2 + (e3 + (e4 + e5)));
    // the template and the defaults
    lemma_opt_not_in(p, e1, "Title"@);
    lemma_opt_not_in(p, e2, "Subtitle"@);
    lemma_opt_not_in(p, e3, "Heading1"@);
    lemma_opt_not_in(p, e4, "Heading2"@);
    lemma_opt_not_in(p, e5, "ListNumber"@);
    lemma_disjoint_concat_right(p, e4, e5);
    lemma_disjoint_concat_right(p, e3, e4 + e5);
    lemma_disjoint_concat_right(p, e2, e3 + (e4 + e5));
    lemma_disjoint_concat_right(p, e1, e2 + (e3 + (e4 + e5)));
    lemma_distinct_concat(p, e);
    assert(essential_styles(p) =~= e);
}

} // verus!
