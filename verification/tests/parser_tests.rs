use declaratest::parser::{lowered_is_yes, parse_question, parse_template, Parser};
use declaratest::types::{Question, Section, SectionType, TestData};

const README_EXAMPLE: &str = "# Test
Subject: Biology
Title: Cell Structure and Function Quiz

## Section: Quick Facts
Type: short
- What is the powerhouse of the cell?
- Name the process by which plants make food.
- How many chromosomes do humans have?

## Section: Essay Questions
Type: long
Separate Sheet: yes
- Explain the process of photosynthesis in detail (10 lines).
- Describe the differences between plant and animal cells (8 lines).

## Section: Match the Organelles
Type: matching_v
- Mitochondria -> Powerhouse of the cell
- Nucleus -> Control center
- Chloroplast -> Site of photosynthesis
- Ribosome -> Protein synthesis

## Section: Fill in the Blanks
Type: blanks
- The _______ is the basic unit of life.
- DNA is stored in the _______ of the cell.
- Plants use _______ to capture light energy.

## Section: Oral Assessment
Type: oral
- Explain the cell cycle
    - What happens during interphase?
    - Describe the stages of mitosis
    - What is the purpose of cell division?
- Discuss cellular respiration
    - Where does it occur?
    - What are the inputs and outputs?
";

fn chars(s: &str) -> Vec<char> {
    s.chars().collect()
}

fn text_of(q: &Question) -> (String, Option<usize>) {
    match q {
        Question::Text(t) => (t.text.clone(), t.lines),
        _ => panic!("expected a text question"),
    }
}

fn pair_of(q: &Question) -> (String, String) {
    match q {
        Question::Matching(m) => (m.left.clone(), m.right.clone()),
        _ => panic!("expected a matching question"),
    }
}

fn blank_of(q: &Question) -> String {
    match q {
        Question::Blank(b) => b.text.clone(),
        _ => panic!("expected a blanks question"),
    }
}

fn oral_of(q: &Question) -> (String, Vec<String>) {
    match q {
        Question::Oral(o) => (o.text.clone(), o.sub_points.clone()),
        _ => panic!("expected an oral question"),
    }
}

/// A comparable summary of a section.
fn summary(s: &Section) -> String {
    let mut out = format!(
        "{}|{:?}|{}|{:?}",
        s.name, s.section_type, s.separate_sheet, s.subtitle
    );
    for q in &s.questions {
        let part = match q {
            Question::Text(t) => format!("T({},{:?})", t.text, t.lines),
            Question::Matching(m) => format!("M({},{})", m.left, m.right),
            Question::Blank(b) => format!("B({})", b.text),
            Question::Oral(o) => format!("O({},{:?})", o.text, o.sub_points),
        };
        out.push(';');
        out.push_str(&part);
    }
    out
}

fn summaries(t: &TestData) -> Vec<String> {
    t.sections.iter().map(summary).collect()
}

#[test]
fn parses_sample_sections() {
    let text = "# Test\nSubject: Biology\nTitle: Cells\n\n## Section: Quick Facts\nType: short\n- What is the powerhouse of the cell?\n";
    let t = parse_template(text);
    assert_eq!(t.subject, "Biology");
    assert_eq!(t.title, "Cells");
    assert_eq!(t.sections.len(), 1);
    assert_eq!(t.sections[0].name, "Quick Facts");
    assert_eq!(t.sections[0].section_type, Some(SectionType::Short));
    match &t.sections[0].questions[0] {
        Question::Text(q) => {
            assert_eq!(q.text, "What is the powerhouse of the cell?");
            assert_eq!(q.lines, None);
        }
        _ => panic!("expected a text question"),
    }
}

#[test]
fn parses_readme_example() {
    let t = parse_template(README_EXAMPLE);
    assert_eq!(t.subject, "Biology");
    assert_eq!(t.title, "Cell Structure and Function Quiz");
    assert_eq!(t.sections.len(), 5);

    let short = &t.sections[0];
    assert_eq!(short.name, "Quick Facts");
    assert_eq!(short.section_type, Some(SectionType::Short));
    assert!(!short.separate_sheet);
    assert_eq!(short.questions.len(), 3);
    assert_eq!(
        text_of(&short.questions[2]),
        ("How many chromosomes do humans have?".to_string(), None)
    );

    let long = &t.sections[1];
    assert_eq!(long.section_type, Some(SectionType::Long));
    assert!(long.separate_sheet);
    assert_eq!(
        text_of(&long.questions[0]),
        ("Explain the process of photosynthesis in detail .".to_string(), Some(10))
    );
    assert_eq!(
        text_of(&long.questions[1]),
        ("Describe the differences between plant and animal cells .".to_string(), Some(8))
    );

    let matching = &t.sections[2];
    assert_eq!(matching.section_type, Some(SectionType::MatchingV));
    assert_eq!(matching.questions.len(), 4);
    assert_eq!(
        pair_of(&matching.questions[0]),
        ("Mitochondria".to_string(), "Powerhouse of the cell".to_string())
    );
    assert_eq!(
        pair_of(&matching.questions[3]),
        ("Ribosome".to_string(), "Protein synthesis".to_string())
    );

    let blanks = &t.sections[3];
    assert_eq!(blanks.section_type, Some(SectionType::Blanks));
    assert_eq!(blank_of(&blanks.questions[1]), "DNA is stored in the _______ of the cell.");

    let oral = &t.sections[4];
    assert_eq!(oral.section_type, Some(SectionType::Oral));
    assert_eq!(oral.questions.len(), 2);
    let (text, subs) = oral_of(&oral.questions[0]);
    assert_eq!(text, "Explain the cell cycle");
    assert_eq!(
        subs,
        vec![
            "What happens during interphase?".to_string(),
            "Describe the stages of mitosis".to_string(),
            "What is the purpose of cell division?".to_string(),
        ]
    );
    assert_eq!(oral_of(&oral.questions[1]).1.len(), 2);
}

#[test]
fn line_annotations() {
    let kind = Some(SectionType::Long);
    let cases: Vec<(&str, &str, Option<usize>)> = vec![
        ("Describe it (1 line)", "Describe it", Some(1)),
        ("Describe it (3  lines) please", "Describe it  please", Some(3)),
        ("(12 lines) Essay", "Essay", Some(12)),
        ("Describe it ( 3 lines)", "Describe it ( 3 lines)", None),
        ("Describe it (3lines)", "Describe it (3lines)", None),
        ("Describe it (x lines)", "Describe it (x lines)", None),
        ("First (2 lines) then (5 lines)", "First  then (5 lines)", Some(2)),
        ("Huge (99999999999999999999999 lines)", "Huge", None),
        ("Arabic digits (\u{663} lines)", "Arabic digits", None),
        ("Tab (4\tlines)", "Tab", Some(4)),
    ];
    for (input, text, lines) in cases {
        match parse_question(&chars(input), kind) {
            Some(q) => assert_eq!(text_of(&q), (text.to_string(), lines), "input {:?}", input),
            None => panic!("no question for {:?}", input),
        }
    }
}

#[test]
fn untyped_and_short_sections_make_text_questions() {
    let q = parse_question(&chars("  What is 2 + 2? "), None).unwrap();
    assert_eq!(text_of(&q), ("What is 2 + 2?".to_string(), None));
    let q = parse_question(&chars("Name three (2 lines)"), Some(SectionType::Short)).unwrap();
    assert_eq!(text_of(&q), ("Name three".to_string(), Some(2)));
}

#[test]
fn matching_lines_split_at_one_arrow() {
    for kind in [Some(SectionType::MatchingV), Some(SectionType::MatchingH)] {
        let q = parse_question(&chars("Nucleus ->  Control center "), kind).unwrap();
        assert_eq!(pair_of(&q), ("Nucleus".to_string(), "Control center".to_string()));
        assert!(parse_question(&chars("Nucleus - Control center"), kind).is_none());
        assert!(parse_question(&chars("Nucleus->Control"), kind).is_none());
        assert!(parse_question(&chars("a -> b -> c"), kind).is_none());
        let q = parse_question(&chars("a -> -> b"), kind).unwrap();
        assert_eq!(pair_of(&q), ("a".to_string(), "-> b".to_string()));
    }
}

#[test]
fn blanks_and_oral_keep_their_text() {
    let q = parse_question(&chars("The _ is *big*"), Some(SectionType::Blanks)).unwrap();
    assert_eq!(blank_of(&q), "The _ is *big*");
    let q = parse_question(&chars("Talk (2 lines)"), Some(SectionType::Oral)).unwrap();
    assert_eq!(oral_of(&q), ("Talk (2 lines)".to_string(), Vec::new()));
}

#[test]
fn section_options() {
    let text = "## Section: A\nType: long\nSeparate Sheet: YES\nSubtitle: Answer briefly\n- Q\n\
                ## Section:B\nType: essay\nSeparate Sheet: no\n- R\n\
                ## Section: C\nType: short\nOral: Yes\n- S\n\
                ## Section: D\nOral: no\nType:\n";
    let t = parse_template(text);
    assert_eq!(t.sections.len(), 4);
    assert_eq!(t.sections[0].section_type, Some(SectionType::Long));
    assert!(t.sections[0].separate_sheet);
    assert_eq!(t.sections[0].subtitle, Some("Answer briefly".to_string()));
    assert_eq!(t.sections[1].name, "B");
    assert_eq!(t.sections[1].section_type, None);
    assert!(!t.sections[1].separate_sheet);
    assert_eq!(t.sections[2].section_type, Some(SectionType::Oral));
    assert_eq!(t.sections[3].section_type, None);
    assert_eq!(t.sections[3].subtitle, None);
}

#[test]
fn oral_yes_in_capitals_makes_an_oral_section() {
    let t = parse_template("## Section: Talk\nOral: YES\n- Speak\n");
    assert_eq!(t.sections[0].section_type, Some(SectionType::Oral));
    assert_eq!(oral_of(&t.sections[0].questions[0]).0, "Speak");
}

#[test]
fn header_fields_take_the_rest_of_the_line() {
    let t = parse_template("# Test\nSubject: Math: Algebra\nTitle:   Quiz  \n");
    assert_eq!(t.subject, "Math: Algebra");
    assert_eq!(t.title, "Quiz");
    assert!(t.sections.is_empty());
    let t = parse_template("Subject:\n");
    assert_eq!(t.subject, "");
}

#[test]
fn lines_outside_a_section_are_ignored() {
    let t = parse_template("- lost question\nType: oral\nSubtitle: none\n    - lost point\n## Section: S\n- kept\n");
    assert_eq!(t.sections.len(), 1);
    assert_eq!(t.sections[0].section_type, None);
    assert_eq!(t.sections[0].subtitle, None);
    assert_eq!(t.sections[0].questions.len(), 1);
    assert_eq!(text_of(&t.sections[0].questions[0]).0, "kept");
}

#[test]
fn sub_points_need_an_oral_question() {
    let text = "## Section: O\nType: oral\n    - too early\n- Q\n    - four spaces\n\t- a tab\n  - two spaces\n      - six spaces\n    -  deeper  \n\
                ## Section: S\nType: short\n- Q2\n    - ignored\n";
    let t = parse_template(text);
    let (q, subs) = oral_of(&t.sections[0].questions[0]);
    assert_eq!(q, "Q");
    assert_eq!(
        subs,
        vec!["four spaces".to_string(), "a tab".to_string(), "deeper".to_string()]
    );
    assert_eq!(t.sections[0].questions.len(), 1);
    assert_eq!(t.sections[1].questions.len(), 1);
}

#[test]
fn question_lines_need_a_dash_and_a_space() {
    let t = parse_template("## Section: S\n-no space\n-  spaced  \n*  star\n");
    assert_eq!(t.sections[0].questions.len(), 1);
    assert_eq!(text_of(&t.sections[0].questions[0]).0, "spaced");
}

#[test]
fn windows_line_endings_and_trailing_space() {
    let t = parse_template("## Section: S \r\nType: matching_h  \r\n- a -> b\r\n");
    assert_eq!(t.sections[0].name, "S");
    assert_eq!(t.sections[0].section_type, Some(SectionType::MatchingH));
    assert_eq!(pair_of(&t.sections[0].questions[0]), ("a".to_string(), "b".to_string()));
}

#[test]
fn a_type_line_changes_how_later_questions_are_read() {
    let t = parse_template("## Section: S\n- a -> b\nType: matching_v\n- a -> b\n- no arrow\n");
    let qs = &t.sections[0].questions;
    assert_eq!(qs.len(), 2);
    assert_eq!(text_of(&qs[0]).0, "a -> b");
    assert_eq!(pair_of(&qs[1]), ("a".to_string(), "b".to_string()));
}

#[test]
fn empty_input_gives_an_empty_test() {
    let t = parse_template("");
    assert_eq!(t.subject, "");
    assert_eq!(t.title, "");
    assert!(t.sections.is_empty());
}

#[test]
fn reading_line_by_line_matches_parsing_the_whole_text() {
    let mut p = Parser::new();
    for line in README_EXAMPLE.lines() {
        p.read_line(&chars(line));
    }
    let by_lines = p.finish();
    let whole = parse_template(README_EXAMPLE);
    assert_eq!(summaries(&by_lines), summaries(&whole));
    assert_eq!(by_lines.subject, whole.subject);
    assert_eq!(by_lines.title, whole.title);
}

#[test]
fn law_sections_follow_headers_example() {
    let t = parse_template("Title: x\n## Section: One\n- a\n## Section: Two\n## Section: One\n- b\n");
    let names: Vec<String> = t.sections.iter().map(|s| s.name.clone()).collect();
    assert_eq!(names, vec!["One".to_string(), "Two".to_string(), "One".to_string()]);
}

#[test]
fn law_sections_concatenate_example() {
    let a = "# Test\nSubject: S\n## Section: First\nType: oral\n- Q\n    - p\n";
    let b = "## Section: Second\nType: matching_v\n- x -> y\n## Section: Third\n- (3 lines) z\n";
    let joined = format!("{}{}", a, b);
    let mut expected = summaries(&parse_template(a));
    expected.extend(summaries(&parse_template(b)));
    assert_eq!(summaries(&parse_template(&joined)), expected);
}

#[test]
fn only_a_lower_case_yes_says_yes() {
    assert!(lowered_is_yes(&"yes".to_string()));
    assert!(!lowered_is_yes(&"Yes".to_string()));
    assert!(!lowered_is_yes(&"yes ".to_string()));
    assert!(!lowered_is_yes(&"y".to_string()));
}

#[test]
fn values_keep_later_colons() {
    let t = parse_template("# Test\nTitle: Unit 3: Genetics\n## Section: Part: One\nType: short: extra\nSubtitle: a: b\n## Section: O\nOral: yes: no\n");
    assert_eq!(t.title, "Unit 3: Genetics");
    assert_eq!(t.subject, "");
    assert_eq!(t.sections[0].name, "Part: One");
    assert_eq!(t.sections[0].section_type, None);
    assert_eq!(t.sections[0].subtitle, Some("a: b".to_string()));
    assert_eq!(t.sections[1].section_type, None);
}

#[test]
fn law_blank_lines_and_trailing_whitespace_ignored_example() {
    let plain = "Subject: S\n## Section: A\nType: oral\n- Q\n    - p\n";
    let padded = "\n  \nSubject: S   \n\t\n## Section: A \nType: oral\t\n\n- Q  \n    - p \n \n";
    let a = parse_template(plain);
    let b = parse_template(padded);
    assert_eq!(summaries(&a), summaries(&b));
    assert_eq!(a.subject, b.subject);
}
