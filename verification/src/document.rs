//! A model of the word-processing document that the generator lays out:
//! paragraphs of formatted runs, tables of cells, styles and page setup.
use vstd::prelude::*;
use crate::types::opt_string_view;

verus! {

broadcast use vstd::string::group_string_axioms;

#[derive(Clone, Copy, Debug, PartialEq, Eq, Structural)]
pub enum Alignment {
    Left,
    Center,
    Right,
    Justified,
}

/// Paragraph spacing in twentieths of a point; `line` is in 240ths of a line.
#[derive(Clone, Copy, Debug, PartialEq, Eq, Structural)]
pub struct Spacing {
    pub line: Option<i32>,
    pub before: Option<u32>,
    pub after: Option<u32>,
}

/// A run of text with one formatting.
#[derive(Clone, Debug)]
pub struct RunSpec {
    pub text: String,
    pub bold: bool,
    pub italic: bool,
    pub underline: bool,
    /// Font size in half points.
    pub size: Option<usize>,
    /// The run is a page break (and holds no text).
    pub page_break: bool,
}

#[derive(Clone, Debug)]
pub struct ParagraphSpec {
    pub runs: Vec<RunSpec>,
    pub style: Option<String>,
    pub align: Option<Alignment>,
    pub spacing: Option<Spacing>,
}

#[derive(Clone, Copy, Debug, PartialEq, Eq, Structural)]
pub enum BorderSide {
    Top,
    Bottom,
    Left,
    Right,
}

#[derive(Clone, Debug)]
pub struct CellSpec {
    pub paragraphs: Vec<ParagraphSpec>,
    /// Width in twentieths of a point.
    pub width: Option<usize>,
    /// Sides drawn with a thin light-grey border.
    pub grey_borders: Vec<BorderSide>,
    /// The cell has the small uniform inner margins of the assessment sheet.
    pub margins: bool,
}

#[derive(Clone, Debug)]
pub struct TableSpec {
    pub rows: Vec<Vec<CellSpec>>,
    pub borderless: bool,
    /// Width in twentieths of a point.
    pub width: Option<usize>,
}

#[derive(Clone, Debug)]
pub enum Block {
    Paragraph(ParagraphSpec),
    Table(TableSpec),
}

#[derive(Clone, Copy, Debug, PartialEq, Eq, Structural)]
pub enum StyleKind {
    Paragraph,
    Character,
    Table,
    Numbering,
}

/// A named style of the document.
#[derive(Clone, Debug)]
pub struct StyleSpec {
    pub style_id: String,
    pub kind: StyleKind,
    pub name: Option<String>,
    pub size: Option<usize>,
    pub bold: bool,
    pub italic: bool,
    pub color: Option<String>,
    /// Run fonts, when set: the ASCII font, if any.
    pub fonts: Option<Option<String>>,
    pub align: Option<Alignment>,
    pub spacing: Option<Spacing>,
}

/// Page margins in twentieths of a point; a header or footer distance that
/// is not set keeps the renderer's default.
#[derive(Clone, Copy, Debug, PartialEq, Eq, Structural)]
pub struct PageMarginSpec {
    pub top: i32,
    pub bottom: i32,
    pub left: i32,
    pub right: i32,
    pub header: Option<i32>,
    pub footer: Option<i32>,
}

/// Page size, margins and styles of a document; what is not set keeps the
/// renderer's default.
#[derive(Clone, Debug)]
pub struct DocumentSetup {
    pub page_size: Option<(u32, u32)>,
    pub margin: Option<PageMarginSpec>,
    pub styles: Vec<StyleSpec>,
}

/// A whole document: its setup, the header of its first page if it has
/// one, and its body.
#[derive(Clone, Debug)]
pub struct DocumentSpec {
    pub setup: DocumentSetup,
    pub first_header: Option<ParagraphSpec>,
    pub body: Vec<Block>,
}

// ---------------------------------------------------------------------------
// Mathematical values
// ---------------------------------------------------------------------------

pub struct RunV {
    pub text: Seq<char>,
    pub bold: bool,
    pub italic: bool,
    pub underline: bool,
    pub size: Option<usize>,
    pub page_break: bool,
}

pub struct ParagraphV {
    pub runs: Seq<RunV>,
    pub style: Option<Seq<char>>,
    pub align: Option<Alignment>,
    pub spacing: Option<Spacing>,
}

pub struct CellV {
    pub paragraphs: Seq<ParagraphV>,
    pub width: Option<usize>,
    pub grey_borders: Seq<BorderSide>,
    pub margins: bool,
}

pub struct TableV {
    pub rows: Seq<Seq<CellV>>,
    pub borderless: bool,
    pub width: Option<usize>,
}

pub enum BlockV {
    Paragraph(ParagraphV),
    Table(TableV),
}

pub struct StyleV {
    pub style_id: Seq<char>,
    pub kind: StyleKind,
    pub name: Option<Seq<char>>,
    pub size: Option<usize>,
    pub bold: bool,
    pub italic: bool,
    pub color: Option<Seq<char>>,
    pub fonts: Option<Option<Seq<char>>>,
    pub align: Option<Alignment>,
    pub spacing: Option<Spacing>,
}

pub struct DocumentSetupV {
    pub page_size: Option<(u32, u32)>,
    pub margin: Option<PageMarginSpec>,
    pub styles: Seq<StyleV>,
}

pub struct DocumentV {
    pub setup: DocumentSetupV,
    pub first_header: Option<ParagraphV>,
    pub body: Seq<BlockV>,
}

impl View for RunSpec {
    type V = RunV;

    open spec fn view(&self) -> RunV {
        RunV {
            text: self.text@,
            bold: self.bold,
            italic: self.italic,
            underline: self.underline,
            size: self.size,
            page_break: self.page_break,
        }
    }
}

pub open spec fn runs_view(v: Seq<RunSpec>) -> Seq<RunV> {
    v.map_values(|r: RunSpec| r@)
}

impl View for ParagraphSpec {
    type V = ParagraphV;

    open spec fn view(&self) -> ParagraphV {
        ParagraphV {
            runs: runs_view(self.runs@),
            style: opt_string_view(self.style),
            align: self.align,
            spacing: self.spacing,
        }
    }
}

pub open spec fn paragraphs_view(v: Seq<ParagraphSpec>) -> Seq<ParagraphV> {
    v.map_values(|p: ParagraphSpec| p@)
}

impl View for CellSpec {
    type V = CellV;

    open spec fn view(&self) -> CellV {
        CellV {
            paragraphs: paragraphs_view(self.paragraphs@),
            width: self.width,
            grey_borders: self.grey_borders@,
            margins: self.margins,
        }
    }
}

pub open spec fn cells_view(v: Seq<CellSpec>) -> Seq<CellV> {
    v.map_values(|c: CellSpec| c@)
}

pub open spec fn rows_view(v: Seq<Vec<CellSpec>>) -> Seq<Seq<CellV>> {
    v.map_values(|r: Vec<CellSpec>| cells_view(r@))
}

impl View for TableSpec {
    type V = TableV;

    open spec fn view(&self) -> TableV {
        TableV { rows: rows_view(self.rows@), borderless: self.borderless, width: self.width }
    }
}

impl View for Block {
    type V = BlockV;

    open spec fn view(&self) -> BlockV {
        match self {
            Block::Paragraph(p) => BlockV::Paragraph(p@),
            Block::Table(t) => BlockV::Table(t@),
        }
    }
}

pub open spec fn blocks_view(v: Seq<Block>) -> Seq<BlockV> {
    v.map_values(|b: Block| b@)
}

pub open spec fn opt_fonts_view(f: Option<Option<String>>) -> Option<Option<Seq<char>>> {
    match f {
        Some(a) => Some(opt_string_view(a)),
        None => None,
    }
}

impl View for StyleSpec {
    type V = StyleV;

    open spec fn view(&self) -> StyleV {
        StyleV {
            style_id: self.style_id@,
            kind: self.kind,
            name: opt_string_view(self.name),
            size: self.size,
            bold: self.bold,
            italic: self.italic,
            color: opt_string_view(self.color),
            fonts: opt_fonts_view(self.fonts),
            align: self.align,
            spacing: self.spacing,
        }
    }
}

pub open spec fn styles_view(v: Seq<StyleSpec>) -> Seq<StyleV> {
    v.map_values(|s: StyleSpec| s@)
}

impl View for DocumentSetup {
    type V = DocumentSetupV;

    open spec fn view(&self) -> DocumentSetupV {
        DocumentSetupV {
            page_size: self.page_size,
            margin: self.margin,
            styles: styles_view(self.styles@),
        }
    }
}

impl View for DocumentSpec {
    type V = DocumentV;

    open spec fn view(&self) -> DocumentV {
        DocumentV {
            setup: self.setup@,
            first_header: match self.first_header {
                Some(p) => Some(p@),
                None => None,
            },
            body: blocks_view(self.body@),
        }
    }
}

// ---------------------------------------------------------------------------
// Builders
// ---------------------------------------------------------------------------

/// A plain run: no bold, italic, underline, size or break.
pub open spec fn plain_run(text: Seq<char>) -> RunV {
    RunV { text, bold: false, italic: false, underline: false, size: None, page_break: false }
}

/// A plain run of `text`.
pub fn run(text: String) -> (r: RunSpec)
    ensures
        r@ == plain_run(text@),
{
    RunSpec { text, bold: false, italic: false, underline: false, size: None, page_break: false }
}

/// A paragraph with the given runs and nothing else set.
pub open spec fn plain_paragraph(runs: Seq<RunV>) -> ParagraphV {
    ParagraphV { runs, style: None, align: None, spacing: None }
}

/// A paragraph of `runs` with nothing else set.
pub fn paragraph(runs: Vec<RunSpec>) -> (p: ParagraphSpec)
    ensures
        p@ == plain_paragraph(runs_view(runs@)),
{
    ParagraphSpec { runs, style: None, align: None, spacing: None }
}

/// A paragraph of one plain run in the named style.
pub open spec fn styled_paragraph(text: Seq<char>, style: Seq<char>) -> ParagraphV {
    ParagraphV { runs: seq![plain_run(text)], style: Some(style), align: None, spacing: None }
}

/// A paragraph of one plain run of `text` in the style `style`.
pub fn styled(text: String, style: &str) -> (p: ParagraphSpec)
    ensures
        p@ == styled_paragraph(text@, style@),
{
    let mut runs: Vec<RunSpec> = Vec::new();
    runs.push(run(text));
    let p = ParagraphSpec { runs, style: Some(String::from_str(style)), align: None, spacing: None };
    assert(p@.runs =~= seq![plain_run(text@)]);
    p
}

/// Spacing with only the space after set.
pub open spec fn space_after(after: u32) -> Spacing {
    Spacing { line: None, before: None, after: Some(after) }
}

/// Spacing of `after` twentieths of a point after a paragraph, and nothing
/// else.
pub fn spacing_after(after: u32) -> (s: Spacing)
    ensures
        s == space_after(after),
{
    Spacing { line: None, before: None, after: Some(after) }
}

/// Sets the line spacing of a paragraph to `line` 240ths of a line, and
/// nothing else.
pub fn with_line_spacing(p: ParagraphSpec, line: i32) -> (r: ParagraphSpec)
    ensures
        r@ == (ParagraphV { spacing: Some(Spacing { line: Some(line), before: None, after: None }), ..p@ }),
{
    ParagraphSpec { spacing: Some(Spacing { line: Some(line), before: None, after: None }), ..p }
}

/// Sets the space before and after a paragraph, keeping its line spacing
/// (240ths of a line, single spacing when none is set).
pub fn with_paragraph_spacing(p: ParagraphSpec, before: u32, after: u32) -> (r: ParagraphSpec)
    ensures
        r@ == (ParagraphV {
            spacing: Some(Spacing {
                line: match p@.spacing {
                    Some(s) => s.line,
                    None => Some(240),
                },
                before: Some(before),
                after: Some(after),
            }),
            ..p@
        }),
{
    let line = match p.spacing {
        Some(s) => s.line,
        None => Some(240),
    };
    ParagraphSpec { spacing: Some(Spacing { line, before: Some(before), after: Some(after) }), ..p }
}

/// Sets line spacing and the space before and after a paragraph at once.
pub fn with_combined_spacing(p: ParagraphSpec, line: i32, before: u32, after: u32) -> (r: ParagraphSpec)
    ensures
        r@ == (ParagraphV {
            spacing: Some(Spacing { line: Some(line), before: Some(before), after: Some(after) }),
            ..p@
        }),
{
    ParagraphSpec {
        spacing: Some(Spacing { line: Some(line), before: Some(before), after: Some(after) }),
        ..p
    }
}

} // verus!
