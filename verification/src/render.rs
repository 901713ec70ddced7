//! Renders a document model as a `docx_rs` document, ready to be packed
//! into a DOCX archive.
//!
//! The `docx_rs` values are opaque here. Each kind of value has a model
//! (`run_model`, `paragraph_model`, ..., `docx_model`): what of it this
//! library sets. Each wrapper below makes one builder call and states what
//! that call does to the model, as the `docx_rs` source shows it.
use vstd::prelude::*;
use crate::document::{
    Alignment, Block, BlockV, BorderSide, CellSpec, CellV, DocumentSpec, DocumentV,
    PageMarginSpec, ParagraphSpec, ParagraphV, RunSpec, RunV, Spacing, StyleKind, StyleSpec,
    StyleV, TableSpec, TableV,
};

verus! {

#[verifier::external_type_specification]
#[verifier::external_body]
pub struct ExDocx(docx_rs::Docx);

#[verifier::external_type_specification]
#[verifier::external_body]
pub struct ExHeader(docx_rs::Header);

#[verifier::external_type_specification]
#[verifier::external_body]
pub struct ExParagraph(docx_rs::Paragraph);

#[verifier::external_type_specification]
#[verifier::external_body]
pub struct ExRun(docx_rs::Run);

#[verifier::external_type_specification]
#[verifier::external_body]
pub struct ExLineSpacing(docx_rs::LineSpacing);

#[verifier::external_type_specification]
#[verifier::external_body]
pub struct ExTable(docx_rs::Table);

#[verifier::external_type_specification]
#[verifier::external_body]
pub struct ExTableRow(docx_rs::TableRow);

#[verifier::external_type_specification]
#[verifier::external_body]
pub struct ExTableCell(docx_rs::TableCell);

#[verifier::external_type_specification]
#[verifier::external_body]
pub struct ExTableCellBorder(docx_rs::TableCellBorder);

#[verifier::external_type_specification]
#[verifier::external_body]
pub struct ExCellMargins(docx_rs::CellMargins);

#[verifier::external_type_specification]
#[verifier::external_body]
pub struct ExStyle(docx_rs::Style);

#[verifier::external_type_specification]
#[verifier::external_body]
pub struct ExRunFonts(docx_rs::RunFonts);

#[verifier::external_type_specification]
#[verifier::external_body]
pub struct ExPageMargin(docx_rs::PageMargin);

#[verifier::external_type_specification]
#[verifier::external_body]
pub struct ExAlignmentType(docx_rs::AlignmentType);

// ---------------------------------------------------------------------------
// Models of the docx_rs values
// ---------------------------------------------------------------------------

/// A cell border as it is drawn: width in eighths of a point, RGB colour,
/// and whether the line is single.
pub struct BorderV {
    pub size: usize,
    pub color: Seq<char>,
    pub single: bool,
}

/// Inner cell margins, each when set.
pub struct MarginsV {
    pub top: Option<usize>,
    pub bottom: Option<usize>,
    pub left: Option<usize>,
    pub right: Option<usize>,
}

/// A table cell as `docx_rs` holds it: its paragraphs, its width (in
/// twentieths of a point), its borders once any has been set (the four
/// sides), and its inner margins.
pub struct CellModel {
    pub paragraphs: Seq<ParagraphV>,
    pub width: Option<usize>,
    pub borders: Option<Map<BorderSide, BorderV>>,
    pub margins: Option<MarginsV>,
}

/// A table: rows of cells, whether its borders were cleared, and its width
/// in twentieths of a point when given as such.
pub struct TableModel {
    pub rows: Seq<Seq<CellModel>>,
    pub borderless: bool,
    pub width: Option<usize>,
}

/// A style; its name is empty until one is given.
pub struct StyleModel {
    pub style_id: Seq<char>,
    pub kind: StyleKind,
    pub name: Seq<char>,
    pub size: Option<usize>,
    pub bold: bool,
    pub italic: bool,
    pub color: Option<Seq<char>>,
    pub fonts: Option<Option<Seq<char>>>,
    pub align: Option<Alignment>,
    pub spacing: Option<Spacing>,
}

/// Page margins, header and footer distances.
pub struct PageMarginV {
    pub top: i32,
    pub bottom: i32,
    pub left: i32,
    pub right: i32,
    pub header: i32,
    pub footer: i32,
}

pub enum BlockModel {
    Paragraph(ParagraphV),
    Table(TableModel),
}

/// A document: page size and margins, the styles added to it, the header
/// of its first page, and its body.
pub struct DocxModel {
    pub page_size: (u32, u32),
    pub margin: PageMarginV,
    pub styles: Seq<StyleModel>,
    pub first_header: Option<Seq<ParagraphV>>,
    pub body: Seq<BlockModel>,
}

/// A run: the concatenation of its texts, its formatting, and whether it
/// holds a page break.
pub uninterp spec fn run_model(r: docx_rs::Run) -> RunV;

/// Line spacing: line, before and after, each when set.
pub uninterp spec fn spacing_model(s: docx_rs::LineSpacing) -> Spacing;

/// The alignment an alignment type stands for.
pub uninterp spec fn alignment_model(a: docx_rs::AlignmentType) -> Alignment;

/// A paragraph: its runs, style id, alignment and spacing.
pub uninterp spec fn paragraph_model(p: docx_rs::Paragraph) -> ParagraphV;

pub uninterp spec fn border_model(b: docx_rs::TableCellBorder) -> BorderV;

/// The side of a cell border, when it is one of the four sides.
pub uninterp spec fn border_side(b: docx_rs::TableCellBorder) -> Option<BorderSide>;

pub uninterp spec fn margins_model(m: docx_rs::CellMargins) -> MarginsV;

pub uninterp spec fn cell_model(c: docx_rs::TableCell) -> CellModel;

/// The cells of a row.
pub uninterp spec fn row_model(r: docx_rs::TableRow) -> Seq<CellModel>;

pub uninterp spec fn table_model(t: docx_rs::Table) -> TableModel;

/// The ASCII font of a run-fonts element, when set.
pub uninterp spec fn fonts_model(f: docx_rs::RunFonts) -> Option<Seq<char>>;

pub uninterp spec fn style_model(s: docx_rs::Style) -> StyleModel;

pub uninterp spec fn page_margin_model(m: docx_rs::PageMargin) -> PageMarginV;

/// The paragraphs of a header.
pub uninterp spec fn header_model(h: docx_rs::Header) -> Seq<ParagraphV>;

pub uninterp spec fn docx_model(d: docx_rs::Docx) -> DocxModel;

/// `s` without its line feeds, which `Run::add_text` drops.
pub open spec fn without_line_feeds(s: Seq<char>) -> Seq<char> {
    s.filter(|c: char| c != '\n')
}

/// The border that `TableCellBorder::new` makes: single, a quarter point
/// wide, black.
pub open spec fn plain_border() -> BorderV {
    BorderV { size: 2, color: "000000"@, single: true }
}

/// The borders that setting one border gives a cell that had none: the
/// plain border on every side.
pub open spec fn plain_borders() -> Map<BorderSide, BorderV> {
    Map::new(|s: BorderSide| true, |s: BorderSide| plain_border())
}

/// The page margins of a new document: `PageMargin::default`.
pub open spec fn default_page_margin() -> PageMarginV {
    PageMarginV { top: 1985, bottom: 1701, left: 1701, right: 1701, header: 851, footer: 992 }
}

// ---------------------------------------------------------------------------
// Runs
// ---------------------------------------------------------------------------

/// `Run::new`: an empty run with no formatting.
#[verifier::external_body]
fn run_new() -> (out: docx_rs::Run)
    ensures
        run_model(out) == (RunV {
            text: Seq::empty(),
            bold: false,
            italic: false,
            underline: false,
            size: None,
            page_break: false,
        }),
{
    docx_rs::Run::new()
}

/// `Run::add_text`: appends a text element, without its line feeds.
#[verifier::external_body]
fn run_add_text(r: docx_rs::Run, text: &str) -> (out: docx_rs::Run)
    ensures
        run_model(out) == (RunV { text: run_model(r).text + without_line_feeds(text@), ..run_model(r) }),
{
    r.add_text(text)
}

/// `Run::add_break` with `BreakType::Page`: appends a page break.
#[verifier::external_body]
fn run_add_page_break(r: docx_rs::Run) -> (out: docx_rs::Run)
    ensures
        run_model(out) == (RunV { page_break: true, ..run_model(r) }),
{
    r.add_break(docx_rs::BreakType::Page)
}

/// `Run::bold`.
#[verifier::external_body]
fn run_bold(r: docx_rs::Run) -> (out: docx_rs::Run)
    ensures
        run_model(out) == (RunV { bold: true, ..run_model(r) }),
{
    r.bold()
}

/// `Run::italic`.
#[verifier::external_body]
fn run_italic(r: docx_rs::Run) -> (out: docx_rs::Run)
    ensures
        run_model(out) == (RunV { italic: true, ..run_model(r) }),
{
    r.italic()
}

/// `Run::underline` with a single line.
#[verifier::external_body]
fn run_underline(r: docx_rs::Run) -> (out: docx_rs::Run)
    ensures
        run_model(out) == (RunV { underline: true, ..run_model(r) }),
{
    r.underline("single")
}

/// `Run::size`, in half points.
#[verifier::external_body]
fn run_size(r: docx_rs::Run, size: usize) -> (out: docx_rs::Run)
    ensures
        run_model(out) == (RunV { size: Some(size), ..run_model(r) }),
{
    r.size(size)
}

// ---------------------------------------------------------------------------
// Paragraphs
// ---------------------------------------------------------------------------

/// `Paragraph::new`: an empty paragraph with no properties set.
#[verifier::external_body]
fn paragraph_new() -> (out: docx_rs::Paragraph)
    ensures
        paragraph_model(out) == (ParagraphV { runs: Seq::empty(), style: None, align: None, spacing: None }),
{
    docx_rs::Paragraph::new()
}

/// `Paragraph::add_run`: appends a run.
#[verifier::external_body]
fn paragraph_add_run(p: docx_rs::Paragraph, r: docx_rs::Run) -> (out: docx_rs::Paragraph)
    ensures
        paragraph_model(out) == (ParagraphV { runs: paragraph_model(p).runs.push(run_model(r)), ..paragraph_model(p) }),
{
    p.add_run(r)
}

/// `Paragraph::style`: sets the paragraph style id.
#[verifier::external_body]
fn paragraph_style(p: docx_rs::Paragraph, style_id: &str) -> (out: docx_rs::Paragraph)
    ensures
        paragraph_model(out) == (ParagraphV { style: Some(style_id@), ..paragraph_model(p) }),
{
    p.style(style_id)
}

/// `AlignmentType::Left`.
#[verifier::external_body]
fn alignment_left() -> (out: docx_rs::AlignmentType)
    ensures
        alignment_model(out) == Alignment::Left,
{
    docx_rs::AlignmentType::Left
}

/// `AlignmentType::Center`.
#[verifier::external_body]
fn alignment_center() -> (out: docx_rs::AlignmentType)
    ensures
        alignment_model(out) == Alignment::Center,
{
    docx_rs::AlignmentType::Center
}

/// `AlignmentType::Right`.
#[verifier::external_body]
fn alignment_right() -> (out: docx_rs::AlignmentType)
    ensures
        alignment_model(out) == Alignment::Right,
{
    docx_rs::AlignmentType::Right
}

/// `AlignmentType::Justified`.
#[verifier::external_body]
fn alignment_justified() -> (out: docx_rs::AlignmentType)
    ensures
        alignment_model(out) == Alignment::Justified,
{
    docx_rs::AlignmentType::Justified
}

/// `Paragraph::align`: sets the alignment.
#[verifier::external_body]
fn paragraph_align(p: docx_rs::Paragraph, a: docx_rs::AlignmentType) -> (out: docx_rs::Paragraph)
    ensures
        paragraph_model(out) == (ParagraphV { align: Some(alignment_model(a)), ..paragraph_model(p) }),
{
    p.align(a)
}

/// `Paragraph::line_spacing`: replaces the paragraph's spacing.
#[verifier::external_body]
fn paragraph_line_spacing(p: docx_rs::Paragraph, s: docx_rs::LineSpacing) -> (out: docx_rs::Paragraph)
    ensures
        paragraph_model(out) == (ParagraphV { spacing: Some(spacing_model(s)), ..paragraph_model(p) }),
{
    p.line_spacing(s)
}

/// `LineSpacing::new`: no spacing set.
#[verifier::external_body]
fn line_spacing_new() -> (out: docx_rs::LineSpacing)
    ensures
        spacing_model(out) == (Spacing { line: None, before: None, after: None }),
{
    docx_rs::LineSpacing::new()
}

/// `LineSpacing::before`, in twentieths of a point.
#[verifier::external_body]
fn line_spacing_before(s: docx_rs::LineSpacing, v: u32) -> (out: docx_rs::LineSpacing)
    ensures
        spacing_model(out) == (Spacing { before: Some(v), ..spacing_model(s) }),
{
    s.before(v)
}

/// `LineSpacing::after`, in twentieths of a point.
#[verifier::external_body]
fn line_spacing_after(s: docx_rs::LineSpacing, v: u32) -> (out: docx_rs::LineSpacing)
    ensures
        spacing_model(out) == (Spacing { after: Some(v), ..spacing_model(s) }),
{
    s.after(v)
}

/// `LineSpacing::line`, in 240ths of a line.
#[verifier::external_body]
fn line_spacing_line(s: docx_rs::LineSpacing, v: i32) -> (out: docx_rs::LineSpacing)
    ensures
        spacing_model(out) == (Spacing { line: Some(v), ..spacing_model(s) }),
{
    s.line(v)
}

// ---------------------------------------------------------------------------
// Tables
// ---------------------------------------------------------------------------

/// `Table::new`: a table of the given rows, with its default borders and
/// automatic width.
#[verifier::external_body]
fn table_new(rows: Vec<docx_rs::TableRow>) -> (out: docx_rs::Table)
    ensures
        table_model(out) == (TableModel {
            rows: rows@.map_values(|r: docx_rs::TableRow| row_model(r)),
            borderless: false,
            width: None,
        }),
{
    docx_rs::Table::new(rows)
}

/// `Table::clear_all_border`: no borders.
#[verifier::external_body]
fn table_clear_all_border(t: docx_rs::Table) -> (out: docx_rs::Table)
    ensures
        table_model(out) == (TableModel { borderless: true, ..table_model(t) }),
{
    t.clear_all_border()
}

/// `Table::width` in twentieths of a point (`WidthType::Dxa`).
#[verifier::external_body]
fn table_width(t: docx_rs::Table, w: usize) -> (out: docx_rs::Table)
    ensures
        table_model(out) == (TableModel { width: Some(w), ..table_model(t) }),
{
    t.width(w, docx_rs::WidthType::Dxa)
}

/// `TableRow::new`: a row of the given cells.
#[verifier::external_body]
fn table_row_new(cells: Vec<docx_rs::TableCell>) -> (out: docx_rs::TableRow)
    ensures
        row_model(out) == cells@.map_values(|c: docx_rs::TableCell| cell_model(c)),
{
    docx_rs::TableRow::new(cells)
}

/// `TableCell::new`: an empty cell with no properties set.
#[verifier::external_body]
fn table_cell_new() -> (out: docx_rs::TableCell)
    ensures
        cell_model(out) == (CellModel { paragraphs: Seq::empty(), width: None, borders: None, margins: None }),
{
    docx_rs::TableCell::new()
}

/// `TableCell::add_paragraph`: appends a paragraph.
#[verifier::external_body]
fn table_cell_add_paragraph(c: docx_rs::TableCell, p: docx_rs::Paragraph) -> (out: docx_rs::TableCell)
    ensures
        cell_model(out) == (CellModel {
            paragraphs: cell_model(c).paragraphs.push(paragraph_model(p)),
            ..cell_model(c)
        }),
{
    c.add_paragraph(p)
}

/// `TableCell::width` in twentieths of a point (`WidthType::Dxa`).
#[verifier::external_body]
fn table_cell_width(c: docx_rs::TableCell, w: usize) -> (out: docx_rs::TableCell)
    ensures
        cell_model(out) == (CellModel { width: Some(w), ..cell_model(c) }),
{
    c.width(w, docx_rs::WidthType::Dxa)
}

/// `TableCell::set_border`: the cell's borders, the plain ones on every side
/// when it had none, with the border of `b`'s side replaced by `b`.
#[verifier::external_body]
fn table_cell_set_border(c: docx_rs::TableCell, b: docx_rs::TableCellBorder) -> (out: docx_rs::TableCell)
    requires
        border_side(b) is Some,
    ensures
        cell_model(out) == (CellModel {
            borders: Some(
                match cell_model(c).borders {
                    Some(m) => m,
                    None => plain_borders(),
                }.insert(border_side(b)->0, border_model(b)),
            ),
            ..cell_model(c)
        }),
{
    c.set_border(b)
}

/// `TableCellProperty::margins` on the cell's properties: sets the inner
/// margins.
#[verifier::external_body]
fn table_cell_margins(c: docx_rs::TableCell, m: docx_rs::CellMargins) -> (out: docx_rs::TableCell)
    ensures
        cell_model(out) == (CellModel { margins: Some(margins_model(m)), ..cell_model(c) }),
{
    let mut c = c;
    c.property = c.property.clone().margins(m);
    c
}

/// `TableCellBorder::new` on the given side: a plain border.
#[verifier::external_body]
fn border_new(side: BorderSide) -> (out: docx_rs::TableCellBorder)
    ensures
        border_side(out) == Some(side),
        border_model(out) == plain_border(),
{
    docx_rs::TableCellBorder::new(
        match side {
            BorderSide::Top => docx_rs::TableCellBorderPosition::Top,
            BorderSide::Bottom => docx_rs::TableCellBorderPosition::Bottom,
            BorderSide::Left => docx_rs::TableCellBorderPosition::Left,
            BorderSide::Right => docx_rs::TableCellBorderPosition::Right,
        },
    )
}

/// `TableCellBorder::size`, in eighths of a point.
#[verifier::external_body]
fn border_size(b: docx_rs::TableCellBorder, size: usize) -> (out: docx_rs::TableCellBorder)
    ensures
        border_side(out) == border_side(b),
        border_model(out) == (BorderV { size, ..border_model(b) }),
{
    b.size(size)
}

/// `TableCellBorder::color`, as a hexadecimal RGB value.
#[verifier::external_body]
fn border_color(b: docx_rs::TableCellBorder, color: &str) -> (out: docx_rs::TableCellBorder)
    ensures
        border_side(out) == border_side(b),
        border_model(out) == (BorderV { color: color@, ..border_model(b) }),
{
    b.color(color)
}

/// `TableCellBorder::border_type` with `BorderType::Single`.
#[verifier::external_body]
fn border_single(b: docx_rs::TableCellBorder) -> (out: docx_rs::TableCellBorder)
    ensures
        border_side(out) == border_side(b),
        border_model(out) == (BorderV { single: true, ..border_model(b) }),
{
    b.border_type(docx_rs::BorderType::Single)
}

/// `CellMargins::new`: no margin set.
#[verifier::external_body]
fn cell_margins_new() -> (out: docx_rs::CellMargins)
    ensures
        margins_model(out) == (MarginsV { top: None, bottom: None, left: None, right: None }),
{
    docx_rs::CellMargins::new()
}

/// `CellMargins::margin_top` (`WidthType::Auto`).
#[verifier::external_body]
fn cell_margins_top(m: docx_rs::CellMargins, v: usize) -> (out: docx_rs::CellMargins)
    ensures
        margins_model(out) == (MarginsV { top: Some(v), ..margins_model(m) }),
{
    m.margin_top(v, docx_rs::WidthType::Auto)
}

/// `CellMargins::margin_bottom` (`WidthType::Auto`).
#[verifier::external_body]
fn cell_margins_bottom(m: docx_rs::CellMargins, v: usize) -> (out: docx_rs::CellMargins)
    ensures
        margins_model(out) == (MarginsV { bottom: Some(v), ..margins_model(m) }),
{
    m.margin_bottom(v, docx_rs::WidthType::Auto)
}

/// `CellMargins::margin_left` (`WidthType::Auto`).
#[verifier::external_body]
fn cell_margins_left(m: docx_rs::CellMargins, v: usize) -> (out: docx_rs::CellMargins)
    ensures
        margins_model(out) == (MarginsV { left: Some(v), ..margins_model(m) }),
{
    m.margin_left(v, docx_rs::WidthType::Auto)
}

/// `CellMargins::margin_right` (`WidthType::Auto`).
#[verifier::external_body]
fn cell_margins_right(m: docx_rs::CellMargins, v: usize) -> (out: docx_rs::CellMargins)
    ensures
        margins_model(out) == (MarginsV { right: Some(v), ..margins_model(m) }),
{
    m.margin_right(v, docx_rs::WidthType::Auto)
}

// ---------------------------------------------------------------------------
// Styles
// ---------------------------------------------------------------------------

/// `Style::new` with the given id and kind: no name (an empty one) and no
/// properties.
#[verifier::external_body]
fn style_new(style_id: &str, kind: StyleKind) -> (out: docx_rs::Style)
    ensures
        style_model(out) == (StyleModel {
            style_id: style_id@,
            kind,
            name: Seq::empty(),
            size: None,
            bold: false,
            italic: false,
            color: None,
            fonts: None,
            align: None,
            spacing: None,
        }),
{
    docx_rs::Style::new(
        style_id,
        match kind {
            StyleKind::Paragraph => docx_rs::StyleType::Paragraph,
            StyleKind::Character => docx_rs::StyleType::Character,
            StyleKind::Table => docx_rs::StyleType::Table,
            StyleKind::Numbering => docx_rs::StyleType::Numbering,
        },
    )
}

/// `Style::name`.
#[verifier::external_body]
fn style_name(s: docx_rs::Style, name: &str) -> (out: docx_rs::Style)
    ensures
        style_model(out) == (StyleModel { name: name@, ..style_model(s) }),
{
    s.name(name)
}

/// `Style::size`, in half points.
#[verifier::external_body]
fn style_size(s: docx_rs::Style, size: usize) -> (out: docx_rs::Style)
    ensures
        style_model(out) == (StyleModel { size: Some(size), ..style_model(s) }),
{
    s.size(size)
}

/// `Style::bold`.
#[verifier::external_body]
fn style_bold(s: docx_rs::Style) -> (out: docx_rs::Style)
    ensures
        style_model(out) == (StyleModel { bold: true, ..style_model(s) }),
{
    s.bold()
}

/// `Style::italic`.
#[verifier::external_body]
fn style_italic(s: docx_rs::Style) -> (out: docx_rs::Style)
    ensures
        style_model(out) == (StyleModel { italic: true, ..style_model(s) }),
{
    s.italic()
}

/// `Style::color`, as a hexadecimal RGB value.
#[verifier::external_body]
fn style_color(s: docx_rs::Style, color: &str) -> (out: docx_rs::Style)
    ensures
        style_model(out) == (StyleModel { color: Some(color@), ..style_model(s) }),
{
    s.color(color)
}

/// `Style::fonts`: sets the run fonts.
#[verifier::external_body]
fn style_fonts(s: docx_rs::Style, f: docx_rs::RunFonts) -> (out: docx_rs::Style)
    ensures
        style_model(out) == (StyleModel { fonts: Some(fonts_model(f)), ..style_model(s) }),
{
    s.fonts(f)
}

/// `Style::align`: sets the paragraph alignment.
#[verifier::external_body]
fn style_align(s: docx_rs::Style, a: docx_rs::AlignmentType) -> (out: docx_rs::Style)
    ensures
        style_model(out) == (StyleModel { align: Some(alignment_model(a)), ..style_model(s) }),
{
    s.align(a)
}

/// `Style::line_spacing`: sets the paragraph spacing.
#[verifier::external_body]
fn style_line_spacing(s: docx_rs::Style, sp: docx_rs::LineSpacing) -> (out: docx_rs::Style)
    ensures
        style_model(out) == (StyleModel { spacing: Some(spacing_model(sp)), ..style_model(s) }),
{
    s.line_spacing(sp)
}

/// `RunFonts::new`: no fonts set.
#[verifier::external_body]
fn run_fonts_new() -> (out: docx_rs::RunFonts)
    ensures
        fonts_model(out) == None::<Seq<char>>,
{
    docx_rs::RunFonts::new()
}

/// `RunFonts::ascii`.
#[verifier::external_body]
fn run_fonts_ascii(f: docx_rs::RunFonts, name: &str) -> (out: docx_rs::RunFonts)
    ensures
        fonts_model(out) == Some(name@),
{
    f.ascii(name)
}

// ---------------------------------------------------------------------------
// Documents
// ---------------------------------------------------------------------------

/// `PageMargin::new`: `docx_rs`'s default margins.
#[verifier::external_body]
fn page_margin_new() -> (out: docx_rs::PageMargin)
    ensures
        page_margin_model(out) == default_page_margin(),
{
    docx_rs::PageMargin::new()
}

/// `PageMargin::top`.
#[verifier::external_body]
fn page_margin_top(m: docx_rs::PageMargin, v: i32) -> (out: docx_rs::PageMargin)
    ensures
        page_margin_model(out) == (PageMarginV { top: v, ..page_margin_model(m) }),
{
    m.top(v)
}

/// `PageMargin::bottom`.
#[verifier::external_body]
fn page_margin_bottom(m: docx_rs::PageMargin, v: i32) -> (out: docx_rs::PageMargin)
    ensures
        page_margin_model(out) == (PageMarginV { bottom: v, ..page_margin_model(m) }),
{
    m.bottom(v)
}

/// `PageMargin::left`.
#[verifier::external_body]
fn page_margin_left(m: docx_rs::PageMargin, v: i32) -> (out: docx_rs::PageMargin)
    ensures
        page_margin_model(out) == (PageMarginV { left: v, ..page_margin_model(m) }),
{
    m.left(v)
}

/// `PageMargin::right`.
#[verifier::external_body]
fn page_margin_right(m: docx_rs::PageMargin, v: i32) -> (out: docx_rs::PageMargin)
    ensures
        page_margin_model(out) == (PageMarginV { right: v, ..page_margin_model(m) }),
{
    m.right(v)
}

/// `PageMargin::header`.
#[verifier::external_body]
fn page_margin_header(m: docx_rs::PageMargin, v: i32) -> (out: docx_rs::PageMargin)
    ensures
        page_margin_model(out) == (PageMarginV { header: v, ..page_margin_model(m) }),
{
    m.header(v)
}

/// `PageMargin::footer`.
#[verifier::external_body]
fn page_margin_footer(m: docx_rs::PageMargin, v: i32) -> (out: docx_rs::PageMargin)
    ensures
        page_margin_model(out) == (PageMarginV { footer: v, ..page_margin_model(m) }),
{
    m.footer(v)
}

/// `Header::new`: an empty header.
#[verifier::external_body]
fn header_new() -> (out: docx_rs::Header)
    ensures
        header_model(out) == Seq::<ParagraphV>::empty(),
{
    docx_rs::Header::new()
}

/// `Header::add_paragraph`: appends a paragraph.
#[verifier::external_body]
fn header_add_paragraph(h: docx_rs::Header, p: docx_rs::Paragraph) -> (out: docx_rs::Header)
    ensures
        header_model(out) == header_model(h).push(paragraph_model(p)),
{
    h.add_paragraph(p)
}

/// `Docx::new`: an A4 document with `docx_rs`'s default margins, no added
/// style, no header and an empty body.
#[verifier::external_body]
fn docx_new() -> (out: docx_rs::Docx)
    ensures
        docx_model(out) == (DocxModel {
            page_size: (11906, 16838),
            margin: default_page_margin(),
            styles: Seq::empty(),
            first_header: None,
            body: Seq::empty(),
        }),
{
    docx_rs::Docx::new()
}

/// `Docx::page_size`, in twentieths of a point.
#[verifier::external_body]
fn docx_page_size(d: docx_rs::Docx, w: u32, h: u32) -> (out: docx_rs::Docx)
    ensures
        docx_model(out) == (DocxModel { page_size: (w, h), ..docx_model(d) }),
{
    d.page_size(w, h)
}

/// `Docx::page_margin`.
#[verifier::external_body]
fn docx_page_margin(d: docx_rs::Docx, m: docx_rs::PageMargin) -> (out: docx_rs::Docx)
    ensures
        docx_model(out) == (DocxModel { margin: page_margin_model(m), ..docx_model(d) }),
{
    d.page_margin(m)
}

/// `Docx::add_style`: appends a style.
#[verifier::external_body]
fn docx_add_style(d: docx_rs::Docx, s: docx_rs::Style) -> (out: docx_rs::Docx)
    ensures
        docx_model(out) == (DocxModel { styles: docx_model(d).styles.push(style_model(s)), ..docx_model(d) }),
{
    d.add_style(s)
}

/// `Docx::first_header`: the header of the first page.
#[verifier::external_body]
fn docx_first_header(d: docx_rs::Docx, h: docx_rs::Header) -> (out: docx_rs::Docx)
    ensures
        docx_model(out) == (DocxModel { first_header: Some(header_model(h)), ..docx_model(d) }),
{
    d.first_header(h)
}

/// `Docx::add_paragraph`: appends a paragraph to the body.
#[verifier::external_body]
fn docx_add_paragraph(d: docx_rs::Docx, p: docx_rs::Paragraph) -> (out: docx_rs::Docx)
    ensures
        docx_model(out) == (DocxModel {
            body: docx_model(d).body.push(BlockModel::Paragraph(paragraph_model(p))),
            ..docx_model(d)
        }),
{
    d.add_paragraph(p)
}

/// `Docx::add_table`: appends a table to the body.
#[verifier::external_body]
fn docx_add_table(d: docx_rs::Docx, t: docx_rs::Table) -> (out: docx_rs::Docx)
    ensures
        docx_model(out) == (DocxModel {
            body: docx_model(d).body.push(BlockModel::Table(table_model(t))),
            ..docx_model(d)
        }),
{
    d.add_table(t)
}

// ---------------------------------------------------------------------------
// What rendering makes of the document model
// ---------------------------------------------------------------------------

/// The model of a rendered run: a page break holds no text, and text loses
/// its line feeds.
pub open spec fn rendered_run(r: RunV) -> RunV {
    RunV { text: if r.page_break { Seq::empty() } else { without_line_feeds(r.text) }, ..r }
}

pub open spec fn rendered_paragraph(p: ParagraphV) -> ParagraphV {
    ParagraphV { runs: p.runs.map_values(|r: RunV| rendered_run(r)), ..p }
}

/// The thin light-grey border of the assessment sheet's sub-point cells.
pub open spec fn grey_line() -> BorderV {
    BorderV { size: 4, color: "D8D8D8"@, single: true }
}

/// The borders of a cell given grey borders on `sides`, in order.
pub open spec fn grey_borders_map(sides: Seq<BorderSide>) -> Map<BorderSide, BorderV>
    decreases sides.len(),
{
    if sides.len() == 0 {
        plain_borders()
    } else {
        grey_borders_map(sides.drop_last()).insert(sides.last(), grey_line())
    }
}

/// The uniform inner margins of the assessment sheet's cells.
pub open spec fn sheet_margins_v() -> MarginsV {
    MarginsV { top: Some(40), bottom: Some(40), left: Some(40), right: Some(40) }
}

pub open spec fn rendered_cell(c: CellV) -> CellModel {
    CellModel {
        paragraphs: c.paragraphs.map_values(|p: ParagraphV| rendered_paragraph(p)),
        width: c.width,
        borders: if c.grey_borders.len() == 0 {
            None
        } else {
            Some(grey_borders_map(c.grey_borders))
        },
        margins: if c.margins { Some(sheet_margins_v()) } else { None },
    }
}

pub open spec fn rendered_row(row: Seq<CellV>) -> Seq<CellModel> {
    row.map_values(|c: CellV| rendered_cell(c))
}

pub open spec fn rendered_table(t: TableV) -> TableModel {
    TableModel {
        rows: t.rows.map_values(|row: Seq<CellV>| rendered_row(row)),
        borderless: t.borderless,
        width: t.width,
    }
}

/// The model of a rendered style: a style without a name gets the empty one.
pub open spec fn rendered_style(s: StyleV) -> StyleModel {
    StyleModel {
        style_id: s.style_id,
        kind: s.kind,
        name: match s.name {
            Some(n) => n,
            None => Seq::empty(),
        },
        size: s.size,
        bold: s.bold,
        italic: s.italic,
        color: s.color,
        fonts: s.fonts,
        align: s.align,
        spacing: s.spacing,
    }
}

/// Rendered page margins: a header or footer distance left unset keeps
/// `docx_rs`'s default.
pub open spec fn rendered_margin(m: PageMarginSpec) -> PageMarginV {
    PageMarginV {
        top: m.top,
        bottom: m.bottom,
        left: m.left,
        right: m.right,
        header: match m.header {
            Some(h) => h,
            None => default_page_margin().header,
        },
        footer: match m.footer {
            Some(f) => f,
            None => default_page_margin().footer,
        },
    }
}

pub open spec fn rendered_block(b: BlockV) -> BlockModel {
    match b {
        BlockV::Paragraph(p) => BlockModel::Paragraph(rendered_paragraph(p)),
        BlockV::Table(t) => BlockModel::Table(rendered_table(t)),
    }
}

/// The model of a rendered document: what the document model does not set
/// keeps `docx_rs`'s defaults.
pub open spec fn rendered_document(d: DocumentV) -> DocxModel {
    DocxModel {
        page_size: match d.setup.page_size {
            Some(p) => p,
            None => (11906, 16838),
        },
        margin: match d.setup.margin {
            Some(m) => rendered_margin(m),
            None => default_page_margin(),
        },
        styles: d.setup.styles.map_values(|s: StyleV| rendered_style(s)),
        first_header: match d.first_header {
            Some(h) => Some(seq![rendered_paragraph(h)]),
            None => None,
        },
        body: d.body.map_values(|b: BlockV| rendered_block(b)),
    }
}

// ---------------------------------------------------------------------------
// Rendering
// ---------------------------------------------------------------------------

fn alignment_type_of(a: Alignment) -> (out: docx_rs::AlignmentType)
    ensures
        alignment_model(out) == a,
{
    match a {
        Alignment::Left => alignment_left(),
        Alignment::Center => alignment_center(),
        Alignment::Right => alignment_right(),
        Alignment::Justified => alignment_justified(),
    }
}

/// The `docx_rs` run of a run model.
pub fn render_run(r: &RunSpec) -> (out: docx_rs::Run)
    ensures
        run_model(out) == rendered_run(r@),
{
    let mut out = run_new();
    if r.page_break {
        out = run_add_page_break(out);
    } else {
        out = run_add_text(out, r.text.as_str());
        assert(Seq::<char>::empty() + without_line_feeds(r.text@) =~= without_line_feeds(r.text@));
    }
    if r.bold {
        out = run_bold(out);
    }
    if r.italic {
        out = run_italic(out);
    }
    if r.underline {
        out = run_underline(out);
    }
    match r.size {
        Some(s) => {
            out = run_size(out, s);
        },
        None => {},
    }
    out
}

/// The `docx_rs` line spacing of a spacing model; unset values are left out.
pub fn render_spacing(s: &Spacing) -> (out: docx_rs::LineSpacing)
    ensures
        spacing_model(out) == *s,
{
    let mut out = line_spacing_new();
    match s.line {
        Some(v) => {
            out = line_spacing_line(out, v);
        },
        None => {},
    }
    match s.before {
        Some(v) => {
            out = line_spacing_before(out, v);
        },
        None => {},
    }
    match s.after {
        Some(v) => {
            out = line_spacing_after(out, v);
        },
        None => {},
    }
    out
}

/// The `docx_rs` paragraph of a paragraph model.
pub fn render_paragraph(p: &ParagraphSpec) -> (out: docx_rs::Paragraph)
    ensures
        paragraph_model(out) == rendered_paragraph(p@),
{
    let ghost runs = p@.runs;
    let mut out = paragraph_new();
    let mut i: usize = 0;
    assert(runs.take(0).map_values(|r: RunV| rendered_run(r)) =~= Seq::<RunV>::empty());
    while i < p.runs.len()
        invariant
            i <= p.runs.len(),
            runs == p@.runs,
            paragraph_model(out) == (ParagraphV {
                runs: runs.take(i as int).map_values(|r: RunV| rendered_run(r)),
                style: None,
                align: None,
                spacing: None,
            }),
        decreases p.runs.len() - i,
    {
        let ro = render_run(&p.runs[i]);
        assert(runs[i as int] == p.runs@[i as int]@);
        out = paragraph_add_run(out, ro);
        assert(runs.take(i + 1).map_values(|r: RunV| rendered_run(r)) =~= runs.take(i as int).map_values(
            |r: RunV| rendered_run(r),
        ).push(rendered_run(runs[i as int])));
        i = i + 1;
    }
    assert(runs.take(i as int) =~= runs);
    match &p.style {
        Some(s) => {
            out = paragraph_style(out, s.as_str());
        },
        None => {},
    }
    match p.align {
        Some(a) => {
            out = paragraph_align(out, alignment_type_of(a));
        },
        None => {},
    }
    match &p.spacing {
        Some(s) => {
            out = paragraph_line_spacing(out, render_spacing(s));
        },
        None => {},
    }
    out
}

/// The border of the assessment sheet's sub-point cells: thin, light grey.
fn grey_border(side: BorderSide) -> (out: docx_rs::TableCellBorder)
    ensures
        border_side(out) == Some(side),
        border_model(out) == grey_line(),
{
    border_single(border_color(border_size(border_new(side), 4), "D8D8D8"))
}

/// The uniform inner margins of the assessment sheet's cells.
fn sheet_margins() -> (out: docx_rs::CellMargins)
    ensures
        margins_model(out) == sheet_margins_v(),
{
    cell_margins_right(cell_margins_left(cell_margins_bottom(cell_margins_top(cell_margins_new(), 40), 40), 40), 40)
}

/// The `docx_rs` table cell of a cell model.
pub fn render_cell(c: &CellSpec) -> (out: docx_rs::TableCell)
    ensures
        cell_model(out) == rendered_cell(c@),
{
    let ghost ps = c@.paragraphs;
    let ghost sides = c@.grey_borders;
    let mut out = table_cell_new();
    match c.width {
        Some(w) => {
            out = table_cell_width(out, w);
        },
        None => {},
    }
    let mut i: usize = 0;
    assert(ps.take(0).map_values(|p: ParagraphV| rendered_paragraph(p)) =~= Seq::<ParagraphV>::empty());
    while i < c.paragraphs.len()
        invariant
            i <= c.paragraphs.len(),
            ps == c@.paragraphs,
            cell_model(out) == (CellModel {
                paragraphs: ps.take(i as int).map_values(|p: ParagraphV| rendered_paragraph(p)),
                width: c.width,
                borders: None,
                margins: None,
            }),
        decreases c.paragraphs.len() - i,
    {
        let po = render_paragraph(&c.paragraphs[i]);
        assert(ps[i as int] == c.paragraphs@[i as int]@);
        out = table_cell_add_paragraph(out, po);
        assert(ps.take(i + 1).map_values(|p: ParagraphV| rendered_paragraph(p)) =~= ps.take(i as int).map_values(
            |p: ParagraphV| rendered_paragraph(p),
        ).push(rendered_paragraph(ps[i as int])));
        i = i + 1;
    }
    assert(ps.take(i as int) =~= ps);
    let mut j: usize = 0;
    while j < c.grey_borders.len()
        invariant
            j <= c.grey_borders.len(),
            sides == c@.grey_borders,
            cell_model(out) == (CellModel {
                paragraphs: ps.map_values(|p: ParagraphV| rendered_paragraph(p)),
                width: c.width,
                borders: if j == 0 { None } else { Some(grey_borders_map(sides.take(j as int))) },
                margins: None,
            }),
        decreases c.grey_borders.len() - j,
    {
        let b = grey_border(c.grey_borders[j]);
        out = table_cell_set_border(out, b);
        proof {
            let t = sides.take(j + 1);
            assert(t.drop_last() =~= sides.take(j as int));
            assert(t.last() == sides[j as int]);
            if j == 0 {
                assert(sides.take(0) =~= Seq::<BorderSide>::empty());
                assert(grey_borders_map(sides.take(0)) == plain_borders());
            }
            assert(grey_borders_map(t) == grey_borders_map(sides.take(j as int)).insert(sides[j as int], grey_line()));
        }
        j = j + 1;
    }
    assert(sides.take(j as int) =~= sides);
    if c.margins {
        out = table_cell_margins(out, sheet_margins());
    }
    out
}

/// The `docx_rs` table of a table model.
pub fn render_table(t: &TableSpec) -> (out: docx_rs::Table)
    ensures
        table_model(out) == rendered_table(t@),
{
    let ghost tv = t@;
    let mut rows: Vec<docx_rs::TableRow> = Vec::new();
    let mut i: usize = 0;
    while i < t.rows.len()
        invariant
            i <= t.rows.len(),
            tv == t@,
            rows@.len() == i,
            forall|k: int| 0 <= k < i ==> #[trigger] row_model(rows@[k]) == rendered_row(tv.rows[k]),
        decreases t.rows.len() - i,
    {
        let row = &t.rows[i];
        let ghost rv = tv.rows[i as int];
        assert(rv == crate::document::cells_view(row@));
        let mut cells: Vec<docx_rs::TableCell> = Vec::new();
        let mut j: usize = 0;
        while j < row.len()
            invariant
                j <= row.len(),
                rv == crate::document::cells_view(row@),
                cells@.len() == j,
                forall|k: int| 0 <= k < j ==> #[trigger] cell_model(cells@[k]) == rendered_cell(rv[k]),
            decreases row.len() - j,
        {
            let co = render_cell(&row[j]);
            cells.push(co);
            j = j + 1;
        }
        let ro = table_row_new(cells);
        assert(row_model(ro) =~= rendered_row(rv));
        rows.push(ro);
        i = i + 1;
    }
    let mut out = table_new(rows);
    assert(table_model(out).rows =~= rendered_table(tv).rows);
    if t.borderless {
        out = table_clear_all_border(out);
    }
    match t.width {
        Some(w) => {
            out = table_width(out, w);
        },
        None => {},
    }
    out
}

/// The `docx_rs` style of a style model.
pub fn render_style(s: &StyleSpec) -> (out: docx_rs::Style)
    ensures
        style_model(out) == rendered_style(s@),
{
    let mut out = style_new(s.style_id.as_str(), s.kind);
    match &s.name {
        Some(n) => {
            out = style_name(out, n.as_str());
        },
        None => {},
    }
    match s.size {
        Some(z) => {
            out = style_size(out, z);
        },
        None => {},
    }
    if s.bold {
        out = style_bold(out);
    }
    if s.italic {
        out = style_italic(out);
    }
    match &s.color {
        Some(c) => {
            out = style_color(out, c.as_str());
        },
        None => {},
    }
    match &s.fonts {
        Some(f) => {
            let mut fonts = run_fonts_new();
            match f {
                Some(a) => {
                    fonts = run_fonts_ascii(fonts, a.as_str());
                },
                None => {},
            }
            out = style_fonts(out, fonts);
        },
        None => {},
    }
    match s.align {
        Some(a) => {
            out = style_align(out, alignment_type_of(a));
        },
        None => {},
    }
    match &s.spacing {
        Some(sp) => {
            out = style_line_spacing(out, render_spacing(sp));
        },
        None => {},
    }
    out
}

/// The `docx_rs` document of a document model.
pub fn render_document(d: &DocumentSpec) -> (out: docx_rs::Docx)
    ensures
        docx_model(out) == rendered_document(d@),
{
    let ghost dv = d@;
    let mut out = docx_new();
    match d.setup.page_size {
        Some((w, h)) => {
            out = docx_page_size(out, w, h);
        },
        None => {},
    }
    match d.setup.margin {
        Some(m) => {
            let mut margin = page_margin_right(
                page_margin_left(page_margin_bottom(page_margin_top(page_margin_new(), m.top), m.bottom), m.left),
                m.right,
            );
            match m.header {
                Some(h) => {
                    margin = page_margin_header(margin, h);
                },
                None => {},
            }
            match m.footer {
                Some(f) => {
                    margin = page_margin_footer(margin, f);
                },
                None => {},
            }
            out = docx_page_margin(out, margin);
        },
        None => {},
    }
    let ghost styles = dv.setup.styles;
    let mut i: usize = 0;
    assert(styles.take(0).map_values(|s: StyleV| rendered_style(s)) =~= Seq::<StyleModel>::empty());
    while i < d.setup.styles.len()
        invariant
            i <= d.setup.styles.len(),
            dv == d@,
            styles == dv.setup.styles,
            docx_model(out) == (DocxModel {
                page_size: rendered_document(dv).page_size,
                margin: rendered_document(dv).margin,
                styles: styles.take(i as int).map_values(|s: StyleV| rendered_style(s)),
                first_header: None,
                body: Seq::empty(),
            }),
        decreases d.setup.styles.len() - i,
    {
        let so = render_style(&d.setup.styles[i]);
        assert(styles[i as int] == d.setup.styles@[i as int]@);
        out = docx_add_style(out, so);
        assert(styles.take(i + 1).map_values(|s: StyleV| rendered_style(s)) =~= styles.take(i as int).map_values(
            |s: StyleV| rendered_style(s),
        ).push(rendered_style(styles[i as int])));
        i = i + 1;
    }
    assert(styles.take(i as int) =~= styles);
    match &d.first_header {
        Some(h) => {
            let hp = render_paragraph(h);
            let hd = header_add_paragraph(header_new(), hp);
            assert(header_model(hd) =~= seq![rendered_paragraph(h@)]);
            out = docx_first_header(out, hd);
        },
        None => {},
    }
    let ghost body = dv.body;
    let mut k: usize = 0;
    assert(body.take(0).map_values(|b: BlockV| rendered_block(b)) =~= Seq::<BlockModel>::empty());
    while k < d.body.len()
        invariant
            k <= d.body.len(),
            dv == d@,
            body == dv.body,
            docx_model(out) == (DocxModel {
                body: body.take(k as int).map_values(|b: BlockV| rendered_block(b)),
                ..rendered_document(dv)
            }),
        decreases d.body.len() - k,
    {
        assert(body[k as int] == d.body@[k as int]@);
        match &d.body[k] {
            Block::Paragraph(p) => {
                out = docx_add_paragraph(out, render_paragraph(p));
            },
            Block::Table(t) => {
                out = docx_add_table(out, render_table(t));
            },
        }
        assert(body.take(k + 1).map_values(|b: BlockV| rendered_block(b)) =~= body.take(k as int).map_values(
            |b: BlockV| rendered_block(b),
        ).push(rendered_block(body[k as int])));
        k = k + 1;
    }
    assert(body.take(k as int) =~= body);
    out
}


// ---------------------------------------------------------------------------
// Laws
// ---------------------------------------------------------------------------

proof fn lemma_text_without_line_feeds_kept(s: Seq<char>)
    requires
        !s.contains('\n'),
    ensures
        without_line_feeds(s) == s,
    decreases s.len(),
{
    reveal(Seq::filter);
    if s.len() > 0 {
        let init = s.drop_last();
        assert forall|i: int| 0 <= i < init.len() implies init[i] != '\n' by {
            assert(s[i] == init[i]);
        }
        lemma_text_without_line_feeds_kept(init);
        assert(s[s.len() - 1] != '\n');
        assert(init.push(s.last()) =~= s);
    }
}

/// Rendering a run keeps its formatting: bold, italics, underline, size and
/// page break come out as they went in; a page break carries no text, and
/// any other run keeps its text, line feeds aside.
pub proof fn law_rendering_keeps_run_formatting(r: RunV)
    ensures
        rendered_run(r).bold == r.bold,
        rendered_run(r).italic == r.italic,
        rendered_run(r).underline == r.underline,
        rendered_run(r).size == r.size,
        rendered_run(r).page_break == r.page_break,
        r.page_break ==> rendered_run(r).text.len() == 0,
        !r.page_break && !r.text.contains('\n') ==> rendered_run(r).text == r.text,
{
    if !r.page_break && !r.text.contains('\n') {
        lemma_text_without_line_feeds_kept(r.text);
    }
}

/// Rendering a paragraph keeps its style, alignment and spacing, and its
/// runs one for one, each with its own bold, italics, underline, size and
/// page break.
pub proof fn law_rendering_keeps_paragraph_formatting(p: ParagraphV)
    ensures
        rendered_paragraph(p).style == p.style,
        rendered_paragraph(p).align == p.align,
        rendered_paragraph(p).spacing == p.spacing,
        rendered_paragraph(p).runs.len() == p.runs.len(),
        forall|i: int| 0 <= i < p.runs.len() ==> {
            &&& (#[trigger] rendered_paragraph(p).runs[i]).underline == p.runs[i].underline
            &&& rendered_paragraph(p).runs[i].bold == p.runs[i].bold
            &&& rendered_paragraph(p).runs[i].italic == p.runs[i].italic
            &&& rendered_paragraph(p).runs[i].size == p.runs[i].size
            &&& rendered_paragraph(p).runs[i].page_break == p.runs[i].page_break
        },
{
}

/// Rendering a document keeps its body block for block: a paragraph stays a
/// paragraph with the same runs' formatting, a table stays a table with
/// the same number of rows.
pub proof fn law_rendering_keeps_body(d: DocumentV)
    ensures
        rendered_document(d).body.len() == d.body.len(),
        forall|k: int| 0 <= k < d.body.len() ==> match d.body[k] {
            BlockV::Paragraph(p) => (#[trigger] rendered_document(d).body[k]) == BlockModel::Paragraph(rendered_paragraph(p))
                && rendered_paragraph(p).runs.len() == p.runs.len()
                && forall|i: int| 0 <= i < p.runs.len() ==> (#[trigger] rendered_paragraph(p).runs[i]).underline == p.runs[i].underline,
            BlockV::Table(t) => rendered_document(d).body[k] matches BlockModel::Table(m) && m.rows.len() == t.rows.len(),
        },
{
}

} // verus!
