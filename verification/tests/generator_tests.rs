use declaratest::document::{Alignment, Block, BorderSide, CellSpec, ParagraphSpec, RunSpec, Spacing, TableSpec};
use declaratest::generator::{
    add_blanks_questions, add_long_questions, add_matching_h, add_matching_v,
    add_oral_assessment_sheet, add_section, add_short_questions, add_subject_and_title,
    bank_table_exec, build_document, create_header_paragraph, definitions_table_exec,
    generate_document, generate_docx, layout_rows, matching_v_table_exec, push_decimal,
    LayoutMetrics,
};
use declaratest::markdown::add_markdown_runs;
use declaratest::parser::parse_template;
use declaratest::template::TemplateInfo;
use declaratest::types::{
    BlankQuestion, MatchingQuestion, OralQuestion, Question, Section, SectionType, TestData,
    TextQuestion,
};

const EM: char = '\u{2003}';
const EN: char = '\u{2000}';

fn em(n: usize) -> String {
    std::iter::repeat(EM).take(n).collect()
}

fn text_q(text: &str, lines: Option<usize>) -> Question {
    Question::Text(TextQuestion { text: text.to_string(), lines })
}

fn pair_q(left: &str, right: &str) -> Question {
    Question::Matching(MatchingQuestion { left: left.to_string(), right: right.to_string() })
}

fn blank_q(text: &str) -> Question {
    Question::Blank(BlankQuestion { text: text.to_string() })
}

fn oral_q(text: &str, subs: &[&str]) -> Question {
    Question::Oral(OralQuestion {
        text: text.to_string(),
        sub_points: subs.iter().map(|s| s.to_string()).collect(),
    })
}

fn section(kind: Option<SectionType>, separate: bool, questions: Vec<Question>) -> Section {
    Section {
        name: "Part".to_string(),
        questions,
        section_type: kind,
        separate_sheet: separate,
        subtitle: None,
    }
}

fn metrics() -> LayoutMetrics {
    LayoutMetrics {
        chars_per_line: 66,
        short_em_spaces: 37,
        blank_column_width: 1330,
        score_column_width: 1104,
    }
}

/// A run as (text, bold, italic, underline).
fn run_of(r: &RunSpec) -> (String, bool, bool, bool) {
    (r.text.clone(), r.bold, r.italic, r.underline)
}

fn plain(t: &str) -> (String, bool, bool, bool) {
    (t.to_string(), false, false, false)
}

fn under(t: &str) -> (String, bool, bool, bool) {
    (t.to_string(), false, false, true)
}

fn italic(t: &str) -> (String, bool, bool, bool) {
    (t.to_string(), false, true, false)
}

fn bold(t: &str) -> (String, bool, bool, bool) {
    (t.to_string(), true, false, false)
}

fn runs_of(p: &ParagraphSpec) -> Vec<(String, bool, bool, bool)> {
    p.runs.iter().map(run_of).collect()
}

fn para(b: &Block) -> &ParagraphSpec {
    match b {
        Block::Paragraph(p) => p,
        Block::Table(_) => panic!("expected a paragraph"),
    }
}

fn table(b: &Block) -> &TableSpec {
    match b {
        Block::Table(t) => t,
        Block::Paragraph(_) => panic!("expected a table"),
    }
}

fn cell_text(c: &CellSpec) -> String {
    c.paragraphs
        .iter()
        .flat_map(|p| p.runs.iter().map(|r| r.text.clone()))
        .collect::<Vec<String>>()
        .join("")
}

fn spacing(line: Option<i32>, before: Option<u32>, after: Option<u32>) -> Option<Spacing> {
    Some(Spacing { line, before, after })
}

#[test]
fn decimal_numbers() {
    let mut s = String::from("n=");
    push_decimal(&mut s, 0);
    push_decimal(&mut s, 7);
    s.push(',');
    push_decimal(&mut s, 10);
    s.push(',');
    push_decimal(&mut s, 4096);
    assert_eq!(s, "n=07,10,4096");
}

#[test]
fn header_paragraph_has_name_and_date_fields() {
    let p = create_header_paragraph();
    let e18: String = std::iter::repeat(EN).take(18).collect();
    let e12: String = std::iter::repeat(EN).take(12).collect();
    assert_eq!(
        runs_of(&p),
        vec![
            plain(&format!("{}Name:{}", EN, EN)),
            under(&e18),
            plain(&format!("{}Date:{}", EN, EN)),
            under(&e12),
        ]
    );
    assert_eq!(p.align, Some(Alignment::Right));
    assert_eq!(p.style, None);
}

#[test]
fn subject_and_title_paragraphs() {
    let t = TestData { subject: "Biology".to_string(), title: "Cells".to_string(), sections: Vec::new() };
    let mut body = Vec::new();
    add_subject_and_title(&mut body, &t);
    assert_eq!(body.len(), 2);
    assert_eq!(runs_of(para(&body[0])), vec![plain("Biology Test")]);
    assert_eq!(para(&body[0]).style, Some("Subtitle".to_string()));
    assert_eq!(runs_of(para(&body[1])), vec![plain("Cells")]);
    assert_eq!(para(&body[1]).style, Some("Title".to_string()));
}

#[test]
fn markdown_emphasis() {
    let mut runs = Vec::new();
    add_markdown_runs(&mut runs, "a **b** *c* _d_ e");
    let got: Vec<_> = runs.iter().map(run_of).collect();
    assert_eq!(
        got,
        vec![plain("a "), bold("b"), plain(" "), italic("c"), plain(" "), italic("d"), plain(" e")]
    );
}

#[test]
fn markdown_unclosed_and_nested_marks() {
    let mut runs = Vec::new();
    add_markdown_runs(&mut runs, "2 * 3 = **6");
    let got: Vec<_> = runs.iter().map(run_of).collect();
    assert_eq!(got, vec![plain("2 "), italic(" 3 = "), plain("*6")]);

    let mut runs = Vec::new();
    add_markdown_runs(&mut runs, "*_x_* and _*y*_ and ****");
    let got: Vec<_> = runs.iter().map(run_of).collect();
    assert_eq!(got, vec![italic("x"), plain(" and "), italic("y"), plain(" and ****")]);
}

#[test]
fn law_plain_text_is_one_run_example() {
    let mut runs = Vec::new();
    add_markdown_runs(&mut runs, "no marks here: 3 + 4 = 7");
    let got: Vec<_> = runs.iter().map(run_of).collect();
    assert_eq!(got, vec![plain("no marks here: 3 + 4 = 7")]);
    let mut runs = Vec::new();
    add_markdown_runs(&mut runs, "");
    assert!(runs.is_empty());
}

#[test]
fn short_questions_with_answer_lines() {
    let s = section(
        Some(SectionType::Short),
        false,
        vec![text_q("What is *this*?", None), pair_q("x", "y"), text_q("Name two", Some(2))],
    );
    let mut body = Vec::new();
    add_short_questions(&mut body, &s, 3);
    assert_eq!(body.len(), 5);
    let q1 = para(&body[0]);
    assert_eq!(runs_of(q1), vec![plain("1. "), plain("What is "), italic("this"), plain("?")]);
    assert_eq!(q1.style, Some("ListNumber".to_string()));
    assert_eq!(q1.spacing, None);
    let line = para(&body[1]);
    assert_eq!(runs_of(line), vec![under(&em(3))]);
    assert_eq!(line.spacing, spacing(Some(360), None, None));
    assert_eq!(runs_of(para(&body[2])), vec![plain("3. "), plain("Name two")]);
    assert_eq!(runs_of(para(&body[3])), vec![under(&em(3))]);
    assert_eq!(runs_of(para(&body[4])), vec![under(&em(3))]);
}

#[test]
fn short_questions_on_a_separate_sheet_get_space_after() {
    let s = section(Some(SectionType::Short), true, vec![text_q("Q", Some(0))]);
    let mut body = Vec::new();
    add_short_questions(&mut body, &s, 5);
    assert_eq!(body.len(), 1);
    assert_eq!(para(&body[0]).spacing, spacing(None, None, Some(280)));
}

#[test]
fn long_questions() {
    let s = section(Some(SectionType::Long), false, vec![text_q("Essay", None), text_q("Short essay", Some(2))]);
    let mut body = Vec::new();
    add_long_questions(&mut body, &s, 66);
    assert_eq!(body.len(), 1 + 10 + 1 + 2);
    assert_eq!(runs_of(para(&body[1])), vec![under(&em(33))]);
    assert_eq!(runs_of(para(&body[11])), vec![plain("2. "), plain("Short essay")]);

    let s = section(Some(SectionType::Long), true, vec![text_q("Essay", Some(4))]);
    let mut body = Vec::new();
    add_long_questions(&mut body, &s, 66);
    assert_eq!(body.len(), 1);
    assert_eq!(para(&body[0]).spacing, spacing(Some(280), None, Some(0)));
}

#[test]
fn blanks_become_underlined_em_spaces() {
    let s = section(
        Some(SectionType::Blanks),
        false,
        vec![blank_q("The _ is *big*"), blank_q("__x"), blank_q("none")],
    );
    let mut body = Vec::new();
    add_blanks_questions(&mut body, &s);
    assert_eq!(body.len(), 3);
    let e = em(1);
    assert_eq!(
        runs_of(para(&body[0])),
        vec![plain("1. "), plain("The "), under(&e), plain(" is "), italic("big")]
    );
    assert_eq!(runs_of(para(&body[1])), vec![plain("2. "), under(&e), under(&e), plain("x")]);
    assert_eq!(runs_of(para(&body[2])), vec![plain("3. "), plain("none")]);
    assert_eq!(para(&body[0]).spacing, spacing(Some(480), None, Some(0)));
    assert_eq!(para(&body[0]).style, Some("ListNumber".to_string()));
}

#[test]
fn law_blanks_one_per_underscore_example() {
    let text = "a_b__c_ *d_e* _";
    let s = section(Some(SectionType::Blanks), false, vec![blank_q(text)]);
    let mut body = Vec::new();
    add_blanks_questions(&mut body, &s);
    let underlined = para(&body[0]).runs.iter().filter(|r| r.underline).count();
    assert_eq!(underlined, text.chars().filter(|c| *c == '_').count());
}

#[test]
fn vertical_matching_table() {
    let s = section(
        Some(SectionType::MatchingV),
        false,
        vec![pair_q("Nucleus", "Control center"), text_q("skip", None), pair_q("Ribosome", "Protein synthesis"), pair_q("Chloroplast", "Photosynthesis")],
    );
    let mut body = Vec::new();
    add_matching_v(&mut body, &s, &vec![0, 1, 2], &vec![0, 1, 2]);
    assert_eq!(body.len(), 1);
    let t = table(&body[0]);
    assert!(t.borderless);
    assert_eq!(t.rows.len(), 3);
    assert_eq!(runs_of(&t.rows[0][0].paragraphs[0]), vec![under(&em(2)), plain(" Nucleus")]);
    assert_eq!(cell_text(&t.rows[0][1]), "A. Control center");
    assert_eq!(cell_text(&t.rows[2][1]), "C. Photosynthesis");

    let mut body = Vec::new();
    add_matching_v(&mut body, &s, &vec![2, 0, 1], &vec![1, 2, 0]);
    let t = table(&body[0]);
    assert_eq!(cell_text(&t.rows[0][0]), format!("{} Chloroplast", em(2)));
    assert_eq!(cell_text(&t.rows[1][0]), format!("{} Nucleus", em(2)));
    assert_eq!(cell_text(&t.rows[0][1]), "A. Control center");
    assert_eq!(cell_text(&t.rows[1][1]), "B. Protein synthesis");
    assert_eq!(cell_text(&t.rows[2][1]), "C. Photosynthesis");
}

#[test]
fn vertical_matching_without_pairs_adds_nothing() {
    let s = section(Some(SectionType::MatchingV), false, vec![text_q("x", None)]);
    let mut body = Vec::new();
    add_matching_v(&mut body, &s, &vec![], &vec![]);
    assert!(body.is_empty());
}

#[test]
fn matching_v_table_labels() {
    let lefts: Vec<String> = (0..28).map(|i| format!("t{}", i)).collect();
    let rights: Vec<String> = (0..28).map(|i| format!("d{}", i)).collect();
    let t = matching_v_table_exec(&lefts, &rights);
    assert_eq!(t.rows.len(), 28);
    assert_eq!(cell_text(&t.rows[25][1]), "Z. d25");
    assert_eq!(cell_text(&t.rows[26][1]), "[. d26");
    assert_eq!(cell_text(&t.rows[27][1]), "\\. d27");
}

#[test]
fn law_bank_rows_optimal_example() {
    for n in 0..300 {
        assert_eq!(layout_rows(n), 1, "n = {}", n);
    }
}

#[test]
fn term_bank_and_definitions() {
    let terms = vec!["alpha".to_string(), "beta".to_string(), "gamma".to_string()];
    let bank = bank_table_exec(&terms);
    assert!(!bank.borderless);
    assert_eq!(bank.rows.len(), 1);
    assert_eq!(bank.rows[0].len(), 3);
    assert_eq!(cell_text(&bank.rows[0][2]), "C. gamma");
    assert_eq!(bank.rows[0][0].paragraphs[0].runs[0].size, Some(20));

    let defs = vec!["one".to_string(), "two".to_string(), "three".to_string()];
    let d = definitions_table_exec(&defs, 9360, 1330);
    assert!(d.borderless);
    assert_eq!(d.width, Some(9360));
    assert_eq!(d.rows.len(), 2);
    assert_eq!(d.rows[0].len(), 4);
    assert_eq!(d.rows[0][0].width, Some(1330));
    assert_eq!(d.rows[0][1].width, Some(3350));
    assert_eq!(runs_of(&d.rows[0][0].paragraphs[0]), vec![under(&em(5)), plain(" ")]);
    assert_eq!(cell_text(&d.rows[0][1]), "one");
    assert_eq!(cell_text(&d.rows[0][3]), "two");
    assert_eq!(cell_text(&d.rows[1][1]), "three");
    assert!(d.rows[1][2].paragraphs[0].runs.is_empty());
    assert!(d.rows[1][3].paragraphs[0].runs.is_empty());
    assert_eq!(d.rows[1][3].width, Some(3350));
}

#[test]
fn definitions_narrower_than_the_blanks_get_no_width() {
    let defs = vec!["x".to_string()];
    let d = definitions_table_exec(&defs, 2000, 1330);
    assert_eq!(d.rows[0][1].width, Some(0));
    let d = definitions_table_exec(&defs, 2661, 1330);
    assert_eq!(d.rows[0][1].width, Some(0));
    let d = definitions_table_exec(&defs, 2663, 1330);
    assert_eq!(d.rows[0][1].width, Some(1));
}

#[test]
fn horizontal_matching_section() {
    let s = section(Some(SectionType::MatchingH), false, vec![pair_q("a", "1"), pair_q("b", "2")]);
    let mut body = Vec::new();
    add_matching_h(&mut body, &s, 9360, 1330);
    assert_eq!(body.len(), 2);
    assert_eq!(cell_text(&table(&body[0]).rows[0][1]), "B. b");
    assert_eq!(table(&body[1]).rows.len(), 1);
    assert_eq!(cell_text(&table(&body[1]).rows[0][3]), "2");

    let empty = section(Some(SectionType::MatchingH), false, vec![]);
    let mut body = Vec::new();
    add_matching_h(&mut body, &empty, 9360, 1330);
    assert!(body.is_empty());
}

#[test]
fn oral_assessment_sheet() {
    let s = section(Some(SectionType::Oral), false, vec![oral_q("Explain *x*", &["first", "second"]), oral_q("Discuss", &[])]);
    let mut body = Vec::new();
    add_oral_assessment_sheet(&mut body, &s, &"Quiz".to_string(), 9360, 1104);
    assert_eq!(body.len(), 4);
    let br = para(&body[0]);
    assert_eq!(br.runs.len(), 1);
    assert!(br.runs[0].page_break);
    assert_eq!(runs_of(para(&body[1])), runs_of(&create_header_paragraph()));
    let heading = para(&body[2]);
    assert_eq!(runs_of(heading), vec![plain("Quiz - Oral Assessment Sheet")]);
    assert_eq!(heading.style, Some("Heading1".to_string()));
    assert_eq!(heading.align, Some(Alignment::Center));

    let t = table(&body[3]);
    assert!(!t.borderless);
    assert_eq!(t.width, Some(9360));
    assert_eq!(t.rows.len(), 1 + 2 + 1 + 1);
    let q = &t.rows[0];
    assert_eq!(q[0].width, Some(8256));
    assert!(q[0].margins);
    assert_eq!(runs_of(&q[0].paragraphs[0]), vec![plain("Explain "), italic("x")]);
    assert_eq!(q[0].paragraphs[0].spacing, spacing(None, None, Some(0)));
    assert!(q[1].paragraphs[0].runs.is_empty());
    let sub = &t.rows[1];
    assert_eq!(runs_of(&sub[0].paragraphs[0]), vec![plain("\t"), plain("first")]);
    assert_eq!(sub[0].grey_borders, vec![BorderSide::Top, BorderSide::Bottom, BorderSide::Right]);
    assert_eq!(runs_of(&sub[1].paragraphs[0]), vec![under(&em(4))]);
    assert_eq!(sub[1].grey_borders, vec![BorderSide::Top, BorderSide::Bottom, BorderSide::Left]);
    assert_eq!(runs_of(&t.rows[3][1].paragraphs[0]), vec![under(&em(4))]);
    let notes = &t.rows[4];
    assert_eq!(notes.len(), 1);
    assert_eq!(notes[0].paragraphs.len(), 6);
    assert_eq!(runs_of(&notes[0].paragraphs[0]), vec![(String::from("Notes"), true, false, false)]);
    assert_eq!(notes[0].paragraphs[0].runs[0].size, Some(20));
    assert_eq!(notes[0].width, None);
}

#[test]
fn law_sheet_rows_example() {
    let s = section(
        Some(SectionType::Oral),
        false,
        vec![oral_q("a", &["1", "2", "3"]), text_q("not oral", None), oral_q("b", &[]), oral_q("c", &["4"])],
    );
    let mut body = Vec::new();
    add_oral_assessment_sheet(&mut body, &s, &"T".to_string(), 100, 200);
    let t = table(&body[3]);
    // one row per oral question and per sub-point, and the notes row
    assert_eq!(t.rows.len(), 3 + 4 + 1);
    assert_eq!(t.rows[0][0].width, Some(0));
}

#[test]
fn section_heading_and_notes() {
    let t = TestData { subject: "S".to_string(), title: "Quiz".to_string(), sections: Vec::new() };
    let mut s = section(Some(SectionType::Long), true, vec![text_q("Essay", None)]);
    s.subtitle = Some("Pick one".to_string());
    let mut body = Vec::new();
    add_section(&mut body, &s, &t, 9360, &metrics(), &vec![], &vec![]);
    assert_eq!(body.len(), 4);
    assert_eq!(runs_of(para(&body[0])), vec![plain("Part")]);
    assert_eq!(para(&body[0]).style, Some("Heading2".to_string()));
    assert_eq!(para(&body[0]).spacing, spacing(None, None, Some(0)));
    let note = para(&body[1]);
    assert_eq!(runs_of(note), vec![italic("Use a separate sheet of paper")]);
    assert_eq!(note.runs[0].size, Some(20));
    assert_eq!(note.spacing, spacing(None, None, Some(12)));
    assert_eq!(runs_of(para(&body[2])), vec![italic("Pick one")]);

    let plain_section = section(None, false, vec![text_q("Q", None)]);
    let mut body = Vec::new();
    add_section(&mut body, &plain_section, &t, 9360, &metrics(), &vec![], &vec![]);
    assert_eq!(para(&body[0]).spacing, None);
    // a section of no kind is laid out as short answers
    assert_eq!(body.len(), 3);
    assert_eq!(runs_of(para(&body[2])), vec![under(&em(37))]);
}

#[test]
fn oral_section() {
    let t = TestData { subject: "S".to_string(), title: "Quiz".to_string(), sections: Vec::new() };
    let s = section(Some(SectionType::Oral), false, vec![oral_q("Talk", &["a"])]);
    let mut body = Vec::new();
    add_section(&mut body, &s, &t, 9360, &metrics(), &vec![], &vec![]);
    assert_eq!(body.len(), 2 + 1 + 4);
    assert_eq!(runs_of(para(&body[1])), vec![italic("To be completed orally")]);
    let q = para(&body[2]);
    assert_eq!(runs_of(q), vec![plain("1. "), plain("Talk")]);
    assert_eq!(q.spacing, spacing(Some(280), None, Some(0)));
    assert_eq!(runs_of(para(&body[5])), vec![plain("Quiz - Oral Assessment Sheet")]);
}

#[test]
fn build_document_lays_out_every_section() {
    let t = parse_template(
        "Subject: Biology\nTitle: Cells\n## Section: A\nType: matching_v\n- a -> 1\n- b -> 2\n## Section: B\nType: blanks\n- x _ y\n",
    );
    let info = TemplateInfo::default();
    let shuffles = vec![(vec![1, 0], vec![0, 1]), (vec![], vec![])];
    let d = build_document(&t, &info, &metrics(), &shuffles);
    assert!(d.first_header.is_some());
    assert_eq!(d.setup.page_size, Some((12240, 15840)));
    assert_eq!(d.body.len(), 2 + 2 + 2);
    let tab = table(&d.body[3]);
    assert_eq!(cell_text(&tab.rows[0][0]), format!("{} b", em(2)));
    assert_eq!(cell_text(&tab.rows[0][1]), "A. 2");
    assert_eq!(runs_of(para(&d.body[5]))[2], under(&em(1)));
}

fn sorted(mut v: Vec<String>) -> Vec<String> {
    v.sort();
    v
}

#[test]
fn law_matching_v_keeps_pairs_example() {
    let mut text = String::from("Title: T\n## Section: M\nType: matching_v\n");
    for i in 0..8 {
        text.push_str(&format!("- term{} -> def{}\n", i, i));
    }
    let t = parse_template(&text);
    let info = TemplateInfo::default();
    let mut reordered = false;
    for _ in 0..20 {
        let d = generate_document(&t, &info, &metrics()).expect("a seed");
        let tab = table(&d.body[3]);
        assert_eq!(tab.rows.len(), 8);
        let lefts: Vec<String> = tab.rows.iter().map(|r| cell_text(&r[0])).collect();
        let rights: Vec<String> = tab.rows.iter().map(|r| cell_text(&r[1])[3..].to_string()).collect();
        let want_l: Vec<String> = (0..8).map(|i| format!("{} term{}", em(2), i)).collect();
        let want_r: Vec<String> = (0..8).map(|i| format!("def{}", i)).collect();
        assert_eq!(sorted(lefts.clone()), sorted(want_l.clone()));
        assert_eq!(sorted(rights.clone()), sorted(want_r.clone()));
        if lefts != want_l || rights != want_r {
            reordered = true;
        }
    }
    assert!(reordered, "twenty shuffles of eight pairs all kept the order");
}

#[test]
fn generated_document_packs_into_a_docx_archive() {
    let text = "# Test\nSubject: Biology\nTitle: Cells\n## Section: A\nType: short\n- **Q**\n\
                ## Section: B\nType: matching_h\n- a -> 1\n## Section: C\nType: oral\n- Talk\n    - point\n";
    let t = parse_template(text);
    let info = TemplateInfo::default();
    let docx = generate_docx(&t, &info, &metrics()).expect("a seed");
    let mut buf = std::io::Cursor::new(Vec::new());
    docx.build().pack(&mut buf).expect("packing succeeds");
    let bytes = buf.into_inner();
    assert!(bytes.len() > 100);
    assert_eq!(&bytes[0..2], b"PK");
}

#[test]
fn law_untyped_section_is_short_example() {
    let t = TestData { subject: "S".to_string(), title: "T".to_string(), sections: Vec::new() };
    let qs = || vec![text_q("One *a*", None), text_q("Two", Some(3)), blank_q("x _")];
    let mut a = Vec::new();
    add_section(&mut a, &section(None, true, qs()), &t, 9360, &metrics(), &vec![], &vec![]);
    let mut b = Vec::new();
    add_section(&mut b, &section(Some(SectionType::Short), true, qs()), &t, 9360, &metrics(), &vec![], &vec![]);
    assert_eq!(format!("{:?}", a), format!("{:?}", b));
}

#[test]
fn law_no_vertical_matching_one_document_example() {
    let t = parse_template(
        "Subject: S\nTitle: T\n## Section: H\nType: matching_h\n- a -> 1\n- b -> 2\n## Section: O\nType: oral\n- Talk\n    - p\n",
    );
    let info = TemplateInfo::default();
    let first = format!("{:?}", generate_document(&t, &info, &metrics()).expect("a seed"));
    for _ in 0..5 {
        assert_eq!(format!("{:?}", generate_document(&t, &info, &metrics()).expect("a seed")), first);
    }
}
