//! Reading the styles of a DOCX template from the file's bytes, with
//! `docx_rust`, and making the template layout from them.
use vstd::prelude::*;
use crate::template::{
    SourceCharacter, SourceFonts, SourceJustification, SourceParagraph, SourceSpacing,
    SourceStyle, SourceStyleKind, TemplateInfo, converted, parse_template, size_in_range,
    template_info_of, template_styles,
};
use crate::types::opt_string_view;

verus! {

#[verifier::external_type_specification]
#[verifier::external_body]
pub struct ExDocxFile(docx_rust::DocxFile);

#[verifier::external_type_specification]
#[verifier::external_body]
pub struct ExTemplateDocx<'a>(docx_rust::Docx<'a>);

/// What `DocxFile::from_reader` makes of the bytes of a file: the unpacked
/// archive, or nothing when the bytes are no DOCX archive.
pub uninterp spec fn unpacked(bytes: Seq<u8>) -> Option<docx_rust::DocxFile>;

/// The styles that `DocxFile::parse` finds in an unpacked archive, in the
/// file's order, or nothing when its XML does not parse.
pub uninterp spec fn parsed_styles(f: docx_rust::DocxFile) -> Option<Seq<SourceStyle>>;

/// The styles of a parsed document, in order.
pub uninterp spec fn style_table(d: &docx_rust::Docx) -> Seq<SourceStyle>;

/// What the template debug listing reports of a parsed document, beside its
/// styles: the number of elements of its body, whether it has core
/// properties and settings, and the font names of its font table, if it has
/// one.
pub struct DocumentFacts {
    pub body_elements: nat,
    pub has_core: bool,
    pub has_settings: bool,
    pub fonts: Option<Seq<Seq<char>>>,
}

/// The facts of an unpacked archive that `DocxFile::parse` finds, or nothing
/// when its XML does not parse.
pub uninterp spec fn parsed_facts(f: docx_rust::DocxFile) -> Option<DocumentFacts>;

/// The facts of a parsed document.
pub uninterp spec fn document_facts(d: &docx_rust::Docx) -> DocumentFacts;

/// The styles that `docx_rust` reads from the bytes of a template file.
pub open spec fn styles_read(bytes: Seq<u8>) -> Option<Seq<SourceStyle>> {
    match unpacked(bytes) {
        Some(f) => parsed_styles(f),
        None => None,
    }
}

/// `DocxFile::from_reader` over the bytes: unpacks the archive.
#[verifier::external_body]
fn unpack(bytes: &[u8]) -> (r: Option<docx_rust::DocxFile>)
    ensures
        r == unpacked(bytes@),
{
    docx_rust::DocxFile::from_reader(std::io::Cursor::new(bytes)).ok()
}

/// `DocxFile::parse`: parses the archive's XML.
#[verifier::external_body]
fn parse_docx(f: &docx_rust::DocxFile) -> (r: Option<docx_rust::Docx<'_>>)
    ensures
        match r {
            Some(d) => parsed_styles(*f) == Some(style_table(&d)) && parsed_facts(*f) == Some(document_facts(&d)),
            None => parsed_styles(*f) is None && parsed_facts(*f) is None,
        },
{
    f.parse().ok()
}

/// The number of styles of a parsed document.
#[verifier::external_body]
fn style_count(d: &docx_rust::Docx) -> (n: usize)
    ensures
        n == style_table(d).len(),
{
    d.styles.styles.len()
}

/// The kind (`w:type`) of the `i`-th style.
#[verifier::external_body]
fn style_kind(d: &docx_rust::Docx, i: usize) -> (k: Option<SourceStyleKind>)
    requires
        i < style_table(d).len(),
    ensures
        k == style_table(d)[i as int].kind,
{
    d.styles.styles[i].ty.as_ref().map(|t| match t {
        docx_rust::styles::StyleType::Paragraph => SourceStyleKind::Paragraph,
        docx_rust::styles::StyleType::Character => SourceStyleKind::Character,
        docx_rust::styles::StyleType::Table => SourceStyleKind::Table,
        docx_rust::styles::StyleType::Numbering => SourceStyleKind::Numbering,
    })
}

/// The id (`w:styleId`) of the `i`-th style.
#[verifier::external_body]
fn style_id(d: &docx_rust::Docx, i: usize) -> (s: String)
    requires
        i < style_table(d).len(),
    ensures
        s@ == style_table(d)[i as int].style_id@,
{
    d.styles.styles[i].style_id.to_string()
}

/// The name (`w:name`) of the `i`-th style.
#[verifier::external_body]
fn style_name(d: &docx_rust::Docx, i: usize) -> (s: Option<String>)
    requires
        i < style_table(d).len(),
    ensures
        opt_string_view(s) == opt_string_view(style_table(d)[i as int].name),
{
    d.styles.styles[i].name.as_ref().map(|n| n.value.to_string())
}

/// Two character properties say the same.
pub open spec fn same_character(a: Option<SourceCharacter>, b: Option<SourceCharacter>) -> bool {
    match (a, b) {
        (Some(x), Some(y)) => {
            &&& x.size == y.size
            &&& x.bold == y.bold
            &&& x.italics == y.italics
            &&& opt_string_view(x.color) == opt_string_view(y.color)
            &&& match (x.fonts, y.fonts) {
                (Some(f), Some(g)) => opt_string_view(f.ascii_theme) == opt_string_view(g.ascii_theme)
                    && opt_string_view(f.ascii) == opt_string_view(g.ascii),
                (None, None) => true,
                _ => false,
            }
        },
        (None, None) => true,
        _ => false,
    }
}

/// The character properties (`w:rPr`) of the `i`-th style: size, bold,
/// italics, colour and fonts (the theme font by its name).
#[verifier::external_body]
fn style_character(d: &docx_rust::Docx, i: usize) -> (c: Option<SourceCharacter>)
    requires
        i < style_table(d).len(),
    ensures
        same_character(c, style_table(d)[i as int].character),
{
    d.styles.styles[i].character.as_ref().map(|c| SourceCharacter {
        size: c.size.as_ref().map(|z| z.value),
        bold: c.bold.is_some(),
        italics: c.italics.is_some(),
        color: c.color.as_ref().map(|x| x.value.to_string()),
        fonts: c.fonts.as_ref().map(|f| SourceFonts {
            ascii_theme: f.ascii_theme.as_ref().map(|t| t.to_string()),
            ascii: f.ascii.clone(),
        }),
    })
}

/// The justification (`w:jc`) of the `i`-th style's paragraph properties,
/// when it has paragraph properties.
#[verifier::external_body]
fn style_justification(d: &docx_rust::Docx, i: usize) -> (j: Option<Option<SourceJustification>>)
    requires
        i < style_table(d).len(),
    ensures
        j == match style_table(d)[i as int].paragraph {
            Some(p) => Some(p.justification),
            None => None,
        },
{
    d.styles.styles[i].paragraph.as_ref().map(|p| p.justification.as_ref().map(|j| match j.value {
        docx_rust::formatting::JustificationVal::Start => SourceJustification::Start,
        docx_rust::formatting::JustificationVal::End => SourceJustification::End,
        docx_rust::formatting::JustificationVal::Center => SourceJustification::Center,
        docx_rust::formatting::JustificationVal::Both => SourceJustification::Both,
        docx_rust::formatting::JustificationVal::Distribute => SourceJustification::Distribute,
        docx_rust::formatting::JustificationVal::Right => SourceJustification::Right,
        docx_rust::formatting::JustificationVal::Left => SourceJustification::Left,
    }))
}

/// The spacing (`w:spacing`) of the `i`-th style's paragraph properties,
/// when it has paragraph properties.
#[verifier::external_body]
fn style_spacing(d: &docx_rust::Docx, i: usize) -> (s: Option<Option<SourceSpacing>>)
    requires
        i < style_table(d).len(),
    ensures
        s == match style_table(d)[i as int].paragraph {
            Some(p) => Some(p.spacing),
            None => None,
        },
{
    d.styles.styles[i].paragraph.as_ref().map(|p| p.spacing.as_ref().map(|s| SourceSpacing {
        before: s.before,
        after: s.after,
        line: s.line,
    }))
}

/// Two template styles say the same.
pub open spec fn same_style(a: SourceStyle, b: SourceStyle) -> bool {
    &&& a.kind == b.kind
    &&& a.style_id@ == b.style_id@
    &&& opt_string_view(a.name) == opt_string_view(b.name)
    &&& same_character(a.character, b.character)
    &&& match (a.paragraph, b.paragraph) {
        (Some(p), Some(q)) => p.justification == q.justification && p.spacing == q.spacing,
        (None, None) => true,
        _ => false,
    }
}

proof fn lemma_same_style_converts_alike(a: SourceStyle, b: SourceStyle)
    requires
        same_style(a, b),
    ensures
        converted(a) == converted(b),
        size_in_range(a) == size_in_range(b),
{
}

proof fn lemma_same_styles_alike(a: Seq<SourceStyle>, b: Seq<SourceStyle>)
    requires
        a.len() == b.len(),
        forall|i: int| 0 <= i < a.len() ==> same_style(#[trigger] a[i], b[i]),
    ensures
        template_styles(a) == template_styles(b),
    decreases a.len(),
{
    if a.len() > 0 {
        lemma_same_styles_alike(a.drop_last(), b.drop_last());
        lemma_same_style_converts_alike(a.last(), b.last());
    }
}

/// The `i`-th style of a parsed document, as a template style.
fn read_style(d: &docx_rust::Docx, i: usize) -> (s: SourceStyle)
    requires
        i < style_table(d).len(),
    ensures
        same_style(s, style_table(d)[i as int]),
{
    let justification = style_justification(d, i);
    let spacing = style_spacing(d, i);
    let paragraph = match (justification, spacing) {
        (Some(j), Some(sp)) => Some(SourceParagraph { justification: j, spacing: sp }),
        _ => None,
    };
    SourceStyle {
        kind: style_kind(d, i),
        style_id: style_id(d, i),
        name: style_name(d, i),
        character: style_character(d, i),
        paragraph,
    }
}

/// Every template style's font size can be made non-negative.
pub open spec fn sizes_in_range(src: Seq<SourceStyle>) -> bool {
    forall|i: int| 0 <= i < src.len() ==> size_in_range(#[trigger] src[i])
}

/// The template layout of the bytes of a template file, if there is one.
///
/// Without a file, or when its bytes do not unpack or parse as a DOCX
/// document, the default layout is used. A style whose font size is
/// `isize::MIN` cannot be made non-negative; then there is no layout.
pub fn load_template(bytes: Option<&[u8]>) -> (r: Option<TemplateInfo>)
    ensures
        match bytes {
            None => r matches Some(t) && t@ == template_info_of(None),
            Some(b) => match styles_read(b@) {
                None => r matches Some(t) && t@ == template_info_of(None),
                Some(src) => if sizes_in_range(src) {
                    r matches Some(t) && t@ == template_info_of(Some(src)) && t@.wf()
                } else {
                    r is None
                },
            },
        },
{
    let b = match bytes {
        None => {
            return Some(parse_template(None));
        },
        Some(b) => b,
    };
    let f = match unpack(b) {
        None => {
            return Some(parse_template(None));
        },
        Some(f) => f,
    };
    let d = match parse_docx(&f) {
        None => {
            return Some(parse_template(None));
        },
        Some(d) => d,
    };
    let ghost table = style_table(&d);
    assert(styles_read(b@) == Some(table));
    let n = style_count(&d);
    let mut styles: Vec<SourceStyle> = Vec::new();
    let mut i: usize = 0;
    while i < n
        invariant
            i <= n,
            n == table.len(),
            table == style_table(&d),
            styles@.len() == i,
            forall|k: int| 0 <= k < i ==> same_style(#[trigger] styles@[k], table[k]),
        decreases n - i,
    {
        let s = read_style(&d, i);
        styles.push(s);
        i = i + 1;
    }
    proof {
        lemma_same_styles_alike(styles@, table);
    }
    let mut j: usize = 0;
    while j < styles.len()
        invariant
            j <= styles.len() == table.len(),
            styles_read(b@) == Some(table),
            bytes == Some(b),
            forall|k: int| 0 <= k < styles.len() ==> same_style(#[trigger] styles@[k], table[k]),
            forall|k: int| 0 <= k < j ==> size_in_range(#[trigger] table[k]),
        decreases styles.len() - j,
    {
        let big = match &styles[j].character {
            Some(c) => match c.size {
                Some(z) => z == isize::MIN,
                None => false,
            },
            None => false,
        };
        proof {
            lemma_same_style_converts_alike(styles@[j as int], table[j as int]);
        }
        if big {
            assert(!size_in_range(table[j as int]));
            assert(!sizes_in_range(table));
            return None;
        }
        j = j + 1;
    }
    assert(forall|k: int| 0 <= k < styles.len() ==> size_in_range(#[trigger] styles@[k])) by {
        assert forall|k: int| 0 <= k < styles.len() implies size_in_range(#[trigger] styles@[k]) by {
            lemma_same_style_converts_alike(styles@[k], table[k]);
            assert(size_in_range(table[k]));
        }
    }
    let t = parse_template(Some(&styles));
    Some(t)
}

// ---------------------------------------------------------------------------
// The template debug listing
// ---------------------------------------------------------------------------

/// The number of elements (paragraphs, tables, sections, content controls)
/// of the document's body.
#[verifier::external_body]
fn body_element_count(d: &docx_rust::Docx) -> (n: usize)
    ensures
        n == document_facts(d).body_elements,
{
    d.document.body.content.len()
}

/// Whether the document has a core properties part.
#[verifier::external_body]
fn has_core_properties(d: &docx_rust::Docx) -> (b: bool)
    ensures
        b == document_facts(d).has_core,
{
    d.core.is_some()
}

/// Whether the document has a settings part.
#[verifier::external_body]
fn has_settings_part(d: &docx_rust::Docx) -> (b: bool)
    ensures
        b == document_facts(d).has_settings,
{
    d.settings.is_some()
}

/// The number of fonts of the document's font table, if it has one.
#[verifier::external_body]
fn font_count(d: &docx_rust::Docx) -> (n: Option<usize>)
    ensures
        match n {
            Some(k) => document_facts(d).fonts matches Some(f) && f.len() == k,
            None => document_facts(d).fonts is None,
        },
{
    d.font_table.as_ref().map(|t| t.fonts.len())
}

/// The name (`w:name`) of the `i`-th font of the font table.
#[verifier::external_body]
fn font_name(d: &docx_rust::Docx, i: usize) -> (s: String)
    requires
        document_facts(d).fonts matches Some(f) && i < f.len(),
    ensures
        s@ == document_facts(d).fonts->0[i as int],
{
    d.font_table.as_ref().unwrap().fonts[i].name.to_string()
}

/// Why a template document could not be listed.
#[derive(Clone, Copy, Debug, PartialEq, Eq, Structural)]
pub enum TemplateReadError {
    /// The bytes are no DOCX archive.
    Unreadable,
    /// The archive's XML does not parse.
    Unparsable,
}

/// What the template debug listing shows of a template document: the
/// number of body elements, each style's id, name and kind, whether core
/// properties and settings are present, and the names in the font table.
#[derive(Clone, Debug)]
pub struct TemplateReport {
    pub body_elements: usize,
    pub styles: Vec<(String, Option<String>, Option<SourceStyleKind>)>,
    pub has_core: bool,
    pub has_settings: bool,
    pub fonts: Option<Vec<String>>,
}

pub open spec fn opt_strings_view(o: Option<Vec<String>>) -> Option<Seq<Seq<char>>> {
    match o {
        Some(v) => Some(v@.map_values(|s: String| s@)),
        None => None,
    }
}

/// The listed styles are the styles of `table`: id, name and kind of each,
/// in order.
pub open spec fn lists_styles(styles: Seq<(String, Option<String>, Option<SourceStyleKind>)>, table: Seq<SourceStyle>) -> bool {
    &&& styles.len() == table.len()
    &&& forall|i: int| 0 <= i < styles.len() ==> {
        &&& (#[trigger] styles[i]).0@ == table[i].style_id@
        &&& opt_string_view(styles[i].1) == opt_string_view(table[i].name)
        &&& styles[i].2 == table[i].kind
    }
}

/// The debug listing of a template document from its bytes: an error when
/// they do not unpack, or unpack but do not parse; otherwise what
/// `docx_rust` reads of the document.
pub fn template_report(bytes: &[u8]) -> (r: Result<TemplateReport, TemplateReadError>)
    ensures
        match unpacked(bytes@) {
            None => r == Err::<TemplateReport, TemplateReadError>(TemplateReadError::Unreadable),
            Some(f) => match (parsed_styles(f), parsed_facts(f)) {
                (Some(table), Some(facts)) => r matches Ok(rep) && {
                    &&& rep.body_elements == facts.body_elements
                    &&& rep.has_core == facts.has_core
                    &&& rep.has_settings == facts.has_settings
                    &&& opt_strings_view(rep.fonts) == facts.fonts
                    &&& lists_styles(rep.styles@, table)
                },
                _ => r == Err::<TemplateReport, TemplateReadError>(TemplateReadError::Unparsable),
            },
        },
{
    let f = match unpack(bytes) {
        None => {
            return Err(TemplateReadError::Unreadable);
        },
        Some(f) => f,
    };
    let d = match parse_docx(&f) {
        None => {
            return Err(TemplateReadError::Unparsable);
        },
        Some(d) => d,
    };
    let ghost table = style_table(&d);
    let ghost facts = document_facts(&d);
    let n = style_count(&d);
    let mut styles: Vec<(String, Option<String>, Option<SourceStyleKind>)> = Vec::new();
    let mut i: usize = 0;
    while i < n
        invariant
            i <= n,
            n == table.len(),
            table == style_table(&d),
            styles@.len() == i,
            forall|k: int| 0 <= k < i ==> {
                &&& (#[trigger] styles@[k]).0@ == table[k].style_id@
                &&& opt_string_view(styles@[k].1) == opt_string_view(table[k].name)
                &&& styles@[k].2 == table[k].kind
            },
        decreases n - i,
    {
        let entry = (style_id(&d, i), style_name(&d, i), style_kind(&d, i));
        styles.push(entry);
        i = i + 1;
    }
    let fonts = match font_count(&d) {
        None => None,
        Some(k) => {
            let mut names: Vec<String> = Vec::new();
            let mut j: usize = 0;
            while j < k
                invariant
                    j <= k,
                    facts == document_facts(&d),
                    facts.fonts matches Some(fs) && fs.len() == k,
                    names@.map_values(|s: String| s@) == facts.fonts->0.take(j as int),
                decreases k - j,
            {
                let ghost before = names@.map_values(|s: String| s@);
                let name = font_name(&d, j);
                names.push(name);
                assert(names@.map_values(|s: String| s@) =~= before.push(name@));
                assert(facts.fonts->0.take(j + 1) =~= facts.fonts->0.take(j as int).push(facts.fonts->0[j as int]));
                j = j + 1;
            }
            assert(facts.fonts->0.take(k as int) =~= facts.fonts->0);
            Some(names)
        },
    };
    let rep = TemplateReport {
        body_elements: body_element_count(&d),
        styles,
        has_core: has_core_properties(&d),
        has_settings: has_settings_part(&d),
        fonts,
    };
    Ok(rep)
}

} // verus!
