use declaratest::template_file::{load_template, template_report, TemplateReadError};
use declaratest::document::{
    paragraph, run, with_combined_spacing, with_line_spacing, with_paragraph_spacing, Alignment,
    Block, PageMarginSpec, Spacing, StyleKind, StyleSpec,
};
use declaratest::render::render_document;
use declaratest::template::{
    apply_template_info, convert_style, has_style_exec, minimal_template, parse_template,
    simple_template, SourceCharacter, SourceFonts, SourceJustification, SourceParagraph,
    SourceSpacing, SourceStyle, SourceStyleKind, TemplateInfo,
};

fn source(kind: Option<SourceStyleKind>, id: &str) -> SourceStyle {
    SourceStyle { kind, style_id: id.to_string(), name: None, character: None, paragraph: None }
}

fn sized(id: &str, size: isize) -> SourceStyle {
    SourceStyle {
        kind: Some(SourceStyleKind::Paragraph),
        style_id: id.to_string(),
        name: None,
        character: Some(SourceCharacter { size: Some(size), bold: false, italics: false, color: None, fonts: None }),
        paragraph: None,
    }
}

fn ids(styles: &[StyleSpec]) -> Vec<String> {
    styles.iter().map(|s| s.style_id.clone()).collect()
}

fn packs(d: &declaratest::document::DocumentSpec) -> bool {
    let mut buf = std::io::Cursor::new(Vec::new());
    render_document(d).build().pack(&mut buf).is_ok() && buf.into_inner().starts_with(b"PK")
}

#[test]
fn converts_a_full_style() {
    let s = SourceStyle {
        kind: Some(SourceStyleKind::Paragraph),
        style_id: "Custom".to_string(),
        name: Some("My Style".to_string()),
        character: Some(SourceCharacter {
            size: Some(-28),
            bold: true,
            italics: false,
            color: Some("FF0000".to_string()),
            fonts: Some(SourceFonts { ascii_theme: Some("minorHAnsi".to_string()), ascii: Some("Arial".to_string()) }),
        }),
        paragraph: Some(SourceParagraph {
            justification: Some(SourceJustification::Both),
            spacing: Some(SourceSpacing { before: Some(120), after: None, line: Some(360) }),
        }),
    };
    let c = convert_style(&s).expect("a style with a kind converts");
    assert_eq!(c.style_id, "Custom");
    assert_eq!(c.kind, StyleKind::Paragraph);
    assert_eq!(c.name, Some("My Style".to_string()));
    assert_eq!(c.size, Some(28));
    assert!(c.bold);
    assert!(!c.italic);
    assert_eq!(c.color, Some("FF0000".to_string()));
    assert_eq!(c.fonts, Some(Some("minorHAnsi".to_string())));
    assert_eq!(c.align, Some(Alignment::Justified));
    assert_eq!(c.spacing, Some(Spacing { line: Some(360), before: Some(120), after: None }));
}

#[test]
fn converts_kinds_alignments_and_spacing() {
    assert!(convert_style(&source(None, "X")).is_none());
    for (k, want) in [
        (SourceStyleKind::Paragraph, StyleKind::Paragraph),
        (SourceStyleKind::Character, StyleKind::Character),
        (SourceStyleKind::Table, StyleKind::Table),
        (SourceStyleKind::Numbering, StyleKind::Numbering),
    ] {
        assert_eq!(convert_style(&source(Some(k), "X")).unwrap().kind, want);
    }
    for (j, want) in [
        (SourceJustification::Center, Alignment::Center),
        (SourceJustification::Right, Alignment::Right),
        (SourceJustification::Left, Alignment::Left),
        (SourceJustification::Both, Alignment::Justified),
        (SourceJustification::Start, Alignment::Left),
        (SourceJustification::End, Alignment::Left),
        (SourceJustification::Distribute, Alignment::Left),
    ] {
        let mut s = source(Some(SourceStyleKind::Paragraph), "X");
        s.paragraph = Some(SourceParagraph { justification: Some(j), spacing: None });
        assert_eq!(convert_style(&s).unwrap().align, Some(want));
    }
    let mut s = source(Some(SourceStyleKind::Paragraph), "X");
    s.paragraph = Some(SourceParagraph {
        justification: None,
        spacing: Some(SourceSpacing { before: None, after: None, line: None }),
    });
    let c = convert_style(&s).unwrap();
    assert_eq!(c.spacing, None);
    assert_eq!(c.align, None);
    s.paragraph = Some(SourceParagraph {
        justification: None,
        spacing: Some(SourceSpacing { before: Some(-1), after: Some(240), line: None }),
    });
    assert_eq!(
        convert_style(&s).unwrap().spacing,
        Some(Spacing { line: None, before: Some(u32::MAX), after: Some(240) })
    );
}

#[test]
fn fonts_fall_back_to_the_named_font() {
    let mut s = source(Some(SourceStyleKind::Character), "F");
    s.character = Some(SourceCharacter {
        size: None,
        bold: false,
        italics: true,
        color: None,
        fonts: Some(SourceFonts { ascii_theme: None, ascii: Some("Arial".to_string()) }),
    });
    let c = convert_style(&s).unwrap();
    assert_eq!(c.fonts, Some(Some("Arial".to_string())));
    assert!(c.italic);
    assert_eq!(c.size, None);
    s.character.as_mut().unwrap().fonts = Some(SourceFonts { ascii_theme: None, ascii: None });
    assert_eq!(convert_style(&s).unwrap().fonts, Some(None));
}

#[test]
fn default_template_layout() {
    let t = TemplateInfo::default();
    assert_eq!(t.page_width, Some(12240));
    assert_eq!(t.page_height, Some(15840));
    assert_eq!(t.margin_left, Some(1440));
    assert_eq!(t.header_margin, Some(720));
    assert!(t.parsed_styles.is_empty());
    assert_eq!(t.usable_width(), 9360);
}

#[test]
fn usable_width_of_other_layouts() {
    let mut t = TemplateInfo::default();
    t.page_width = Some(10000);
    t.margin_left = Some(2000);
    t.margin_right = None;
    assert_eq!(t.usable_width(), 6560);
    t.margin_right = Some(9000);
    assert_eq!(t.usable_width(), 0);
    t.page_width = None;
    t.margin_left = Some(-1000);
    t.margin_right = Some(0);
    assert_eq!(t.usable_width(), 13240);
}

#[test]
fn parse_template_without_a_readable_template_gives_the_default() {
    let t = parse_template(None);
    assert_eq!(t.page_width, Some(12240));
    assert!(t.parsed_styles.is_empty());
    let t = parse_template(Some(&Vec::new()));
    assert!(t.parsed_styles.is_empty());
}

#[test]
fn parse_template_keeps_one_style_per_id() {
    let styles = vec![sized("A", 10), source(None, "B"), sized("C", 12), sized("A", -20)];
    let t = parse_template(Some(&styles));
    assert_eq!(ids(&t.parsed_styles), vec!["A".to_string(), "C".to_string()]);
    assert_eq!(t.parsed_styles[0].size, Some(20));
    assert_eq!(t.margin_top, Some(1440));
}

#[test]
fn default_setup_adds_the_essential_styles() {
    let setup = apply_template_info(&TemplateInfo::default());
    assert_eq!(setup.page_size, Some((12240, 15840)));
    assert_eq!(
        setup.margin,
        Some(PageMarginSpec { top: 1440, bottom: 1440, left: 1440, right: 1440, header: Some(720), footer: Some(720) })
    );
    assert_eq!(
        ids(&setup.styles),
        vec!["Title", "Subtitle", "Heading1", "Heading2", "ListNumber"]
            .into_iter()
            .map(String::from)
            .collect::<Vec<_>>()
    );
    let title = &setup.styles[0];
    assert_eq!(title.name, Some("Title".to_string()));
    assert_eq!(title.size, Some(48));
    assert!(title.bold);
    assert_eq!(title.color, Some("2F5496".to_string()));
    assert_eq!(title.align, Some(Alignment::Center));
    assert_eq!(title.spacing, Some(Spacing { line: Some(276), before: Some(240), after: Some(60) }));
    let list = &setup.styles[4];
    assert_eq!(list.name, Some("List Number".to_string()));
    assert_eq!(list.size, Some(24));
    assert_eq!(list.color, None);
    assert_eq!(list.spacing, Some(Spacing { line: Some(276), before: Some(0), after: Some(20) }));
    assert_eq!(setup.styles[3].spacing, Some(Spacing { line: Some(276), before: Some(200), after: Some(40) }));
}

#[test]
fn law_setup_has_essential_styles_example() {
    let styles = vec![sized("Heading 1", 30), sized("List Number", 22), sized("Title", 50), sized("Body", 20)];
    let info = parse_template(Some(&styles));
    let setup = apply_template_info(&info);
    assert_eq!(
        ids(&setup.styles),
        vec!["Heading 1", "List Number", "Title", "Body", "Subtitle", "Heading2"]
            .into_iter()
            .map(String::from)
            .collect::<Vec<_>>()
    );
    assert_eq!(setup.styles[2].size, Some(50));
    for id in ["Title", "Subtitle", "Heading2"] {
        assert!(has_style_exec(&setup.styles, id));
    }
    assert!(has_style_exec(&setup.styles, "Heading 1"));
    assert!(!has_style_exec(&setup.styles, "Heading1"));
}

#[test]
fn law_setup_ids_distinct_example() {
    let styles = vec![sized("Title", 1), sized("Title", 2), sized("X", 3), sized("Subtitle", 4), sized("X", 5)];
    let setup = apply_template_info(&parse_template(Some(&styles)));
    let mut seen = ids(&setup.styles);
    let n = seen.len();
    seen.sort();
    seen.dedup();
    assert_eq!(seen.len(), n);
}

#[test]
fn simple_starter_template() {
    let d = simple_template();
    assert!(d.first_header.is_none());
    assert!(d.body.is_empty());
    assert_eq!(d.setup.page_size, Some((12240, 15840)));
    assert_eq!(
        d.setup.margin,
        Some(PageMarginSpec { top: 1440, bottom: 1440, left: 1440, right: 1440, header: None, footer: None })
    );
    assert_eq!(
        ids(&d.setup.styles),
        vec!["Title", "Subtitle", "Heading1", "Heading2", "ListNumber"]
            .into_iter()
            .map(String::from)
            .collect::<Vec<_>>()
    );
    assert!(d.setup.styles.iter().all(|s| s.spacing.is_none()));
    assert_eq!(d.setup.styles[1].color, Some("595959".to_string()));
    assert!(d.setup.styles[1].italic);
    assert_eq!(d.setup.styles[2].name, Some("Heading 1".to_string()));
    assert_eq!(d.setup.styles[2].align, None);
    assert!(packs(&d));
}

#[test]
fn minimal_starter_template() {
    let d = minimal_template();
    assert!(d.first_header.is_none());
    assert_eq!(d.setup.page_size, None);
    assert_eq!(d.setup.margin, None);
    assert_eq!(ids(&d.setup.styles), vec!["Title".to_string(), "Subtitle".to_string()]);
    assert_eq!(d.setup.styles[0].align, None);
    assert_eq!(d.body.len(), 2);
    match &d.body[1] {
        Block::Paragraph(p) => {
            assert_eq!(p.runs[0].text, "Sample Subtitle");
            assert_eq!(p.style, Some("Subtitle".to_string()));
        }
        Block::Table(_) => panic!("expected a paragraph"),
    }
    assert!(packs(&d));
}

#[test]
fn paragraph_spacing_builders() {
    let p = with_line_spacing(paragraph(vec![run("x".to_string())]), 360);
    assert_eq!(p.spacing, Some(Spacing { line: Some(360), before: None, after: None }));
    let p = with_paragraph_spacing(p, 120, 240);
    assert_eq!(p.spacing, Some(Spacing { line: Some(360), before: Some(120), after: Some(240) }));
    let p = with_paragraph_spacing(paragraph(Vec::new()), 0, 20);
    assert_eq!(p.spacing, Some(Spacing { line: Some(240), before: Some(0), after: Some(20) }));
    let p = with_combined_spacing(p, 276, 1, 2);
    assert_eq!(p.spacing, Some(Spacing { line: Some(276), before: Some(1), after: Some(2) }));
    assert_eq!(p.runs.len(), 0);
}

fn packed_bytes(d: &declaratest::document::DocumentSpec) -> Vec<u8> {
    let mut buf = std::io::Cursor::new(Vec::new());
    render_document(d).build().pack(&mut buf).expect("packing succeeds");
    buf.into_inner()
}

#[test]
fn load_template_without_a_usable_file_gives_the_default() {
    let t = load_template(None).expect("a layout");
    assert_eq!(t.page_width, Some(12240));
    assert!(t.parsed_styles.is_empty());
    let t = load_template(Some(b"not a docx archive".as_slice())).expect("a layout");
    assert!(t.parsed_styles.is_empty());
    assert_eq!(t.usable_width(), 9360);
}

#[test]
fn load_template_reads_the_styles_of_a_docx_file() {
    let bytes = packed_bytes(&simple_template());
    let t = load_template(Some(bytes.as_slice())).expect("a layout");
    let ids = ids(&t.parsed_styles);
    assert!(ids.contains(&"Heading1".to_string()), "styles read: {:?}", ids);
    let h1 = t.parsed_styles.iter().find(|s| s.style_id == "Heading1").unwrap();
    assert_eq!(h1.name, Some("Heading 1".to_string()));
    assert_eq!(h1.size, Some(32));
    assert!(h1.bold);
    assert_eq!(h1.color, Some("2F5496".to_string()));
}

fn crc32(data: &[u8]) -> u32 {
    let mut crc: u32 = 0xFFFF_FFFF;
    for &b in data {
        crc ^= b as u32;
        for _ in 0..8 {
            let mask = (crc & 1).wrapping_neg();
            crc = (crc >> 1) ^ (0xEDB8_8320 & mask);
        }
    }
    !crc
}

/// A ZIP archive whose entries are stored uncompressed.
fn stored_zip(entries: &[(&str, &str)]) -> Vec<u8> {
    let mut out: Vec<u8> = Vec::new();
    let mut central: Vec<u8> = Vec::new();
    for (name, body) in entries {
        let offset = out.len() as u32;
        let crc = crc32(body.as_bytes());
        let size = body.len() as u32;
        out.extend_from_slice(&0x0403_4b50u32.to_le_bytes());
        out.extend_from_slice(&[20, 0, 0, 0, 0, 0, 0, 0, 0, 0]);
        out.extend_from_slice(&crc.to_le_bytes());
        out.extend_from_slice(&size.to_le_bytes());
        out.extend_from_slice(&size.to_le_bytes());
        out.extend_from_slice(&(name.len() as u16).to_le_bytes());
        out.extend_from_slice(&0u16.to_le_bytes());
        out.extend_from_slice(name.as_bytes());
        out.extend_from_slice(body.as_bytes());

        central.extend_from_slice(&0x0201_4b50u32.to_le_bytes());
        central.extend_from_slice(&[20, 0, 20, 0, 0, 0, 0, 0, 0, 0, 0, 0]);
        central.extend_from_slice(&crc.to_le_bytes());
        central.extend_from_slice(&size.to_le_bytes());
        central.extend_from_slice(&size.to_le_bytes());
        central.extend_from_slice(&(name.len() as u16).to_le_bytes());
        central.extend_from_slice(&[0, 0, 0, 0, 0, 0, 0, 0, 0, 0, 0, 0]);
        central.extend_from_slice(&offset.to_le_bytes());
        central.extend_from_slice(name.as_bytes());
    }
    let cd_offset = out.len() as u32;
    let cd_size = central.len() as u32;
    out.extend_from_slice(&central);
    out.extend_from_slice(&0x0605_4b50u32.to_le_bytes());
    out.extend_from_slice(&[0, 0, 0, 0]);
    out.extend_from_slice(&(entries.len() as u16).to_le_bytes());
    out.extend_from_slice(&(entries.len() as u16).to_le_bytes());
    out.extend_from_slice(&cd_size.to_le_bytes());
    out.extend_from_slice(&cd_offset.to_le_bytes());
    out.extend_from_slice(&0u16.to_le_bytes());
    out
}

#[test]
fn template_report_of_bytes_that_are_no_archive() {
    assert_eq!(template_report(b"not a docx archive").err(), Some(TemplateReadError::Unreadable));
    assert_eq!(template_report(&[]).err(), Some(TemplateReadError::Unreadable));
}

#[test]
fn template_report_of_an_archive_whose_xml_does_not_parse() {
    let bytes = stored_zip(&[
        ("[Content_Types].xml", "<Types"),
        ("_rels/.rels", "<Relationships"),
        ("word/document.xml", "this is no xml"),
    ]);
    assert_eq!(template_report(&bytes).err(), Some(TemplateReadError::Unparsable));
}

#[test]
fn template_report_lists_the_styles_of_the_simple_template() {
    let bytes = packed_bytes(&simple_template());
    let report = template_report(&bytes).expect("a readable template");
    let h1 = report.styles.iter().find(|s| s.0 == "Heading1").expect("a Heading1 style");
    assert_eq!(h1.1, Some("Heading 1".to_string()));
    assert_eq!(h1.2, Some(SourceStyleKind::Paragraph));
    assert!(report.styles.iter().any(|s| s.0 == "Title"));
    assert!(report.body_elements >= 1);
}

#[test]
fn template_report_of_the_minimal_template() {
    let bytes = packed_bytes(&minimal_template());
    let report = template_report(&bytes).expect("a readable template");
    assert!(report.body_elements >= 2, "body elements: {}", report.body_elements);
    let ids: Vec<&str> = report.styles.iter().map(|s| s.0.as_str()).collect();
    assert!(ids.contains(&"Title"), "styles: {:?}", ids);
    assert!(ids.contains(&"Subtitle"), "styles: {:?}", ids);
    if let Some(fonts) = &report.fonts {
        assert!(fonts.iter().all(|f| !f.is_empty()));
    }
}
