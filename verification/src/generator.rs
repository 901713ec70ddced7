//! Lays out a parsed test as a document: a name/date header, the subject
//! and title, then each section with its heading, notes and questions.
use vstd::prelude::*;
use crate::document::{
    Alignment, Block, BlockV, BorderSide, CellSpec, CellV, DocumentSpec, DocumentV, ParagraphSpec,
    ParagraphV, RunSpec, RunV, Spacing, TableSpec, TableV, blocks_view, cells_view,
    paragraphs_view, plain_paragraph, plain_run, rows_view, run, runs_view, space_after,
    styled, styled_paragraph,
};
use crate::markdown::{add_markdown_runs, markdown_runs, runs_from};
use crate::template::{TemplateInfo, TemplateInfoV, apply_template_info, setup_of, usable_width_of};
use crate::text::{
    first_index_of, find_char, lemma_first_index_of_bounds, lemma_first_index_shift, push_char, push_range, repeat_char,
    repeated, string_of_range, to_chars,
};
use crate::types::{
    Question, QuestionV, Section, SectionType, SectionV, TestData, TestDataV, questions_view,
    sections_view, strings_view,
};

verus! {

broadcast use vstd::string::group_string_axioms;

/// The em space, the width unit of answer lines.
pub open spec fn em_space() -> char {
    '\u{2003}'
}

/// The en quad, the width unit of the name and date fields.
pub open spec fn en_quad() -> char {
    '\u{2000}'
}

/// Sizes that come from the page's usable width in typographic points.
#[derive(Clone, Copy)]
pub struct LayoutMetrics {
    /// Average-width characters that fit on one line.
    pub chars_per_line: usize,
    /// Em spaces in one answer line of a short question.
    pub short_em_spaces: usize,
    /// Width of an answer-blank column of the horizontal matching table.
    pub blank_column_width: u32,
    /// Width of the score column of the oral assessment sheet.
    pub score_column_width: u32,
}

// ---------------------------------------------------------------------------
// Text pieces
// ---------------------------------------------------------------------------

/// The ASCII digit of `d < 10`.
pub open spec fn digit_char(d: nat) -> char {
    ((48 + d) as u32) as char
}

/// The decimal representation of `n`.
pub open spec fn decimal(n: nat) -> Seq<char>
    decreases n,
{
    if n < 10 {
        seq![digit_char(n)]
    } else {
        decimal(n / 10).push(digit_char(n % 10))
    }
}

/// Appends the decimal representation of `n`.
pub fn push_decimal(s: &mut String, n: usize)
    ensures
        final(s)@ == old(s)@ + decimal(n as nat),
    decreases n,
{
    if n >= 10 {
        push_decimal(s, n / 10);
    }
    let d = (n % 10) as u8;
    let c = (48u8 + d) as char;
    assert(c == digit_char((n % 10) as nat));
    push_char(s, c);
    assert(s@ =~= old(s)@ + decimal(n as nat));
}

/// The label of the `i`-th item of a matching list: `A`, `B`, ... for the
/// first 26, and the following Latin-1 characters after them.
pub open spec fn label_char(i: nat) -> char {
    ((65 + i) as u32) as char
}

/// `label. text`
pub open spec fn labelled(i: nat, text: Seq<char>) -> Seq<char> {
    seq![label_char(i), '.', ' '] + text
}

fn labelled_string(i: usize, text: &str) -> (s: String)
    requires
        i <= 190,
    ensures
        s@ == labelled(i as nat, text@),
{
    let mut s = String::new();
    let c = (65u8 + i as u8) as char;
    assert(c == label_char(i as nat));
    push_char(&mut s, c);
    push_char(&mut s, '.');
    push_char(&mut s, ' ');
    s.append(text);
    assert(s@ =~= labelled(i as nat, text@));
    s
}

/// A run whose text is underlined.
pub open spec fn underlined(text: Seq<char>) -> RunV {
    RunV { underline: true, ..plain_run(text) }
}

fn underlined_run(text: String) -> (r: RunSpec)
    ensures
        r@ == underlined(text@),
{
    RunSpec { text, bold: false, italic: false, underline: true, size: None, page_break: false }
}

/// A run in italics at ten points.
pub open spec fn note_run(text: Seq<char>) -> RunV {
    RunV { italic: true, size: Some(20), ..plain_run(text) }
}

/// The number of the `index`-th question: `index + 1` and a full stop.
pub open spec fn number_run(index: nat) -> RunV {
    plain_run(decimal(index + 1) + seq!['.', ' '])
}

fn number_run_exec(index: usize) -> (r: RunSpec)
    requires
        index < usize::MAX,
    ensures
        r@ == number_run(index as nat),
{
    let mut s = String::new();
    push_decimal(&mut s, index + 1);
    push_char(&mut s, '.');
    push_char(&mut s, ' ');
    assert(s@ =~= decimal((index + 1) as nat) + seq!['.', ' ']);
    run(s)
}

// ---------------------------------------------------------------------------
// Header, subject and title
// ---------------------------------------------------------------------------

/// The right-aligned name and date fields at the top of a page.
pub open spec fn header_paragraph() -> ParagraphV {
    ParagraphV {
        runs: seq![
            plain_run(seq![en_quad()] + "Name:"@ + seq![en_quad()]),
            underlined(repeat_char(en_quad(), 18)),
            plain_run(seq![en_quad()] + "Date:"@ + seq![en_quad()]),
            underlined(repeat_char(en_quad(), 12)),
        ],
        style: None,
        align: Some(Alignment::Right),
        spacing: None,
    }
}

fn field_label(label: &str) -> (s: String)
    ensures
        s@ == seq![en_quad()] + label@ + seq![en_quad()],
{
    let mut s = String::new();
    push_char(&mut s, '\u{2000}');
    s.append(label);
    push_char(&mut s, '\u{2000}');
    assert(s@ =~= seq![en_quad()] + label@ + seq![en_quad()]);
    s
}

/// The name and date fields at the top of the first page.
pub fn create_header_paragraph() -> (p: ParagraphSpec)
    ensures
        p@ == header_paragraph(),
{
    let mut runs: Vec<RunSpec> = Vec::new();
    runs.push(run(field_label("Name:")));
    runs.push(underlined_run(repeated('\u{2000}', 18)));
    runs.push(run(field_label("Date:")));
    runs.push(underlined_run(repeated('\u{2000}', 12)));
    let p = ParagraphSpec { runs, style: None, align: Some(Alignment::Right), spacing: None };
    assert(p@.runs =~= header_paragraph().runs);
    p
}

/// The subject line (`<subject> Test`) and the title.
pub open spec fn subject_and_title(t: TestDataV) -> Seq<BlockV> {
    seq![
        BlockV::Paragraph(styled_paragraph(t.subject + " Test"@, "Subtitle"@)),
        BlockV::Paragraph(styled_paragraph(t.title, "Title"@)),
    ]
}

/// Appends the subject line and the title.
pub fn add_subject_and_title(body: &mut Vec<Block>, test_data: &TestData)
    ensures
        blocks_view(final(body)@) == blocks_view(old(body)@) + subject_and_title(test_data@),
{
    let ghost start = blocks_view(body@);
    let mut subject = test_data.subject.clone();
    subject.append(" Test");
    let p1 = styled(subject, "Subtitle");
    let ghost v1 = p1@;
    body.push(Block::Paragraph(p1));
    let p2 = styled(test_data.title.clone(), "Title");
    let ghost v2 = p2@;
    body.push(Block::Paragraph(p2));
    assert(blocks_view(body@) =~= start + seq![BlockV::Paragraph(v1), BlockV::Paragraph(v2)]);
}

// ---------------------------------------------------------------------------
// Numbered questions and answer lines
// ---------------------------------------------------------------------------

/// The paragraph of the `index`-th question: its number, then its text with
/// inline emphasis, in the list-number style.
pub open spec fn question_paragraph(index: nat, text: Seq<char>, spacing: Option<Spacing>) -> ParagraphV {
    ParagraphV {
        runs: seq![number_run(index)] + markdown_runs(text),
        style: Some("ListNumber"@),
        align: None,
        spacing,
    }
}

fn question_paragraph_exec(index: usize, text: &String, spacing: Option<Spacing>) -> (p: ParagraphSpec)
    requires
        index < usize::MAX,
    ensures
        p@ == question_paragraph(index as nat, text@, spacing),
{
    let mut runs: Vec<RunSpec> = Vec::new();
    runs.push(number_run_exec(index));
    assert(runs_view(runs@) =~= seq![number_run(index as nat)]);
    add_markdown_runs(&mut runs, text.as_str());
    let p = ParagraphSpec { runs, style: Some(String::from_str("ListNumber")), align: None, spacing };
    assert(p@.runs =~= seq![number_run(index as nat)] + markdown_runs(text@));
    p
}

/// One answer line: `em` underlined em spaces at one-and-a-half line
/// spacing.
pub open spec fn answer_line(em: nat) -> BlockV {
    BlockV::Paragraph(
        ParagraphV {
            runs: seq![underlined(repeat_char(em_space(), em))],
            style: None,
            align: None,
            spacing: Some(Spacing { line: Some(360), before: None, after: None }),
        },
    )
}

fn answer_line_exec(em: usize) -> (b: Block)
    ensures
        b@ == answer_line(em as nat),
{
    let mut runs: Vec<RunSpec> = Vec::new();
    runs.push(underlined_run(repeated('\u{2003}', em)));
    assert(runs_view(runs@) =~= seq![underlined(repeat_char(em_space(), em as nat))]);
    let b = Block::Paragraph(
        ParagraphSpec {
            runs,
            style: None,
            align: None,
            spacing: Some(Spacing { line: Some(360), before: None, after: None }),
        },
    );
    assert(b@ =~= answer_line(em as nat));
    b
}

/// `n` copies of `b`.
pub open spec fn copies(b: BlockV, n: nat) -> Seq<BlockV> {
    Seq::new(n, |i: int| b)
}

fn add_answer_lines(body: &mut Vec<Block>, em: usize, n: usize)
    ensures
        blocks_view(final(body)@) == blocks_view(old(body)@) + copies(answer_line(em as nat), n as nat),
{
    let ghost start = blocks_view(body@);
    let mut i: usize = 0;
    while i < n
        invariant
            i <= n,
            blocks_view(body@) == start + copies(answer_line(em as nat), i as nat),
        decreases n - i,
    {
        let ghost before = blocks_view(body@);
        let b = answer_line_exec(em);
        body.push(b);
        assert(blocks_view(body@) =~= before.push(answer_line(em as nat)));
        i = i + 1;
        assert(blocks_view(body@) =~= start + copies(answer_line(em as nat), i as nat));
    }
}

/// The blocks of the `index`-th question of a short-answer section: the
/// question and its answer lines (one unless it says otherwise); on a
/// separate sheet the question has space after it.
pub open spec fn short_question_blocks(index: nat, q: QuestionV, separate: bool, em: nat) -> Seq<BlockV> {
    match q {
        QuestionV::Text { text, lines } => seq![
            BlockV::Paragraph(
                question_paragraph(index, text, if separate { Some(space_after(280)) } else { None }),
            ),
        ] + copies(answer_line(em), match lines {
            Some(n) => n as nat,
            None => 1,
        }),
        _ => Seq::empty(),
    }
}

/// The blocks of the first `n` questions of a short-answer section.
pub open spec fn short_blocks(qs: Seq<QuestionV>, n: nat, separate: bool, em: nat) -> Seq<BlockV>
    decreases n,
{
    if n == 0 {
        Seq::empty()
    } else {
        short_blocks(qs, (n - 1) as nat, separate, em) + short_question_blocks(
            (n - 1) as nat,
            qs[n - 1],
            separate,
            em,
        )
    }
}

/// Appends the questions of a short-answer section, each with its answer
/// lines of `em_spaces_per_line` em spaces.
pub fn add_short_questions(body: &mut Vec<Block>, section: &Section, em_spaces_per_line: usize)
    ensures
        blocks_view(final(body)@) == blocks_view(old(body)@) + short_blocks(
            section@.questions,
            section@.questions.len(),
            section.separate_sheet,
            em_spaces_per_line as nat,
        ),
{
    let ghost start = blocks_view(body@);
    let ghost qs = section@.questions;
    let mut index: usize = 0;
    while index < section.questions.len()
        invariant
            index <= section.questions.len(),
            qs == section@.questions,
            blocks_view(body@) == start + short_blocks(
                qs,
                index as nat,
                section.separate_sheet,
                em_spaces_per_line as nat,
            ),
        decreases section.questions.len() - index,
    {
        let ghost before = blocks_view(body@);
        match &section.questions[index] {
            Question::Text(text_q) => {
                let spacing = if section.separate_sheet {
                    Some(Spacing { line: None, before: None, after: Some(280) })
                } else {
                    None
                };
                let p = question_paragraph_exec(index, &text_q.text, spacing);
                let ghost pv = p@;
                body.push(Block::Paragraph(p));
                assert(blocks_view(body@) =~= before + seq![BlockV::Paragraph(pv)]);
                let n = match text_q.lines {
                    Some(n) => n,
                    None => 1,
                };
                add_answer_lines(body, em_spaces_per_line, n);
            },
            _ => {},
        }
        assert(qs[index as int] == section.questions@[index as int]@);
        index = index + 1;
        assert(blocks_view(body@) =~= start + short_blocks(
            qs,
            index as nat,
            section.separate_sheet,
            em_spaces_per_line as nat,
        ));
    }
}

/// The blocks of the `index`-th question of a long-answer section: the
/// question and, unless answered on a separate sheet, its answer lines (ten
/// unless it says otherwise).
pub open spec fn long_question_blocks(index: nat, q: QuestionV, separate: bool, em: nat) -> Seq<BlockV> {
    match q {
        QuestionV::Text { text, lines } => seq![
            BlockV::Paragraph(
                question_paragraph(
                    index,
                    text,
                    if separate {
                        Some(Spacing { line: Some(280), before: None, after: Some(0) })
                    } else {
                        None
                    },
                ),
            ),
        ] + if separate {
            Seq::empty()
        } else {
            copies(answer_line(em), match lines {
                Some(n) => n as nat,
                None => 10,
            })
        },
        _ => Seq::empty(),
    }
}

/// The blocks of the first `n` questions of a long-answer section.
pub open spec fn long_blocks(qs: Seq<QuestionV>, n: nat, separate: bool, em: nat) -> Seq<BlockV>
    decreases n,
{
    if n == 0 {
        Seq::empty()
    } else {
        long_blocks(qs, (n - 1) as nat, separate, em) + long_question_blocks(
            (n - 1) as nat,
            qs[n - 1],
            separate,
            em,
        )
    }
}

/// Long answer lines hold half as many em spaces as characters fit on a line.
pub fn add_long_questions(body: &mut Vec<Block>, section: &Section, chars_per_line: usize)
    ensures
        blocks_view(final(body)@) == blocks_view(old(body)@) + long_blocks(
            section@.questions,
            section@.questions.len(),
            section.separate_sheet,
            (chars_per_line / 2) as nat,
        ),
{
    let em_spaces_per_line = chars_per_line / 2;
    let ghost start = blocks_view(body@);
    let ghost qs = section@.questions;
    let mut index: usize = 0;
    while index < section.questions.len()
        invariant
            index <= section.questions.len(),
            qs == section@.questions,
            em_spaces_per_line == chars_per_line / 2,
            blocks_view(body@) == start + long_blocks(
                qs,
                index as nat,
                section.separate_sheet,
                em_spaces_per_line as nat,
            ),
        decreases section.questions.len() - index,
    {
        let ghost before = blocks_view(body@);
        match &section.questions[index] {
            Question::Text(text_q) => {
                let spacing = if section.separate_sheet {
                    Some(Spacing { line: Some(280), before: None, after: Some(0) })
                } else {
                    None
                };
                let p = question_paragraph_exec(index, &text_q.text, spacing);
                let ghost pv = p@;
                body.push(Block::Paragraph(p));
                assert(blocks_view(body@) =~= before + seq![BlockV::Paragraph(pv)]);
                if !section.separate_sheet {
                    let n = match text_q.lines {
                        Some(n) => n,
                        None => 10,
                    };
                    add_answer_lines(body, em_spaces_per_line, n);
                } else {
                    assert(blocks_view(body@) =~= blocks_view(body@) + Seq::<BlockV>::empty());
                }
            },
            _ => {},
        }
        assert(qs[index as int] == section.questions@[index as int]@);
        index = index + 1;
        assert(blocks_view(body@) =~= start + long_blocks(
            qs,
            index as nat,
            section.separate_sheet,
            em_spaces_per_line as nat,
        ));
    }
}

// ---------------------------------------------------------------------------
// Fill-in-the-blanks questions
// ---------------------------------------------------------------------------

/// The runs of a piece of text between blanks: none when it is empty.
pub open spec fn part_runs(p: Seq<char>) -> Seq<RunV> {
    if p.len() > 0 {
        markdown_runs(p)
    } else {
        Seq::empty()
    }
}

/// The runs of a blanks question: every `_` becomes one underlined em
/// space, and the text between them keeps its inline emphasis.
pub open spec fn blank_runs(s: Seq<char>) -> Seq<RunV>
    decreases s.len(),
{
    let k = first_index_of(s, '_', 0);
    proof {
        lemma_first_index_of_bounds(s, '_', 0);
    }
    if k >= s.len() {
        part_runs(s)
    } else {
        part_runs(s.take(k)) + seq![underlined(seq![em_space()])] + blank_runs(s.skip(k + 1))
    }
}

/// The paragraph of the `index`-th question of a blanks section, at double
/// line spacing.
pub open spec fn blank_paragraph(index: nat, text: Seq<char>) -> ParagraphV {
    ParagraphV {
        runs: seq![number_run(index)] + blank_runs(text),
        style: Some("ListNumber"@),
        align: None,
        spacing: Some(Spacing { line: Some(480), before: None, after: Some(0) }),
    }
}

pub open spec fn blank_question_blocks(index: nat, q: QuestionV) -> Seq<BlockV> {
    match q {
        QuestionV::Blank { text } => seq![BlockV::Paragraph(blank_paragraph(index, text))],
        _ => Seq::empty(),
    }
}

/// The blocks of the first `n` questions of a blanks section.
pub open spec fn blanks_blocks(qs: Seq<QuestionV>, n: nat) -> Seq<BlockV>
    decreases n,
{
    if n == 0 {
        Seq::empty()
    } else {
        blanks_blocks(qs, (n - 1) as nat) + blank_question_blocks((n - 1) as nat, qs[n - 1])
    }
}

fn add_blank_runs(runs: &mut Vec<RunSpec>, text: &String)
    ensures
        runs_view(final(runs)@) == runs_view(old(runs)@) + blank_runs(text@),
{
    let v = to_chars(text.as_str());
    let ghost s = v@;
    let ghost start_runs = runs_view(runs@);
    let mut start: usize = 0;
    let mut done = false;
    assert(s.skip(0) =~= s);
    while !done
        invariant
            start <= v.len(),
            s == v@,
            !done ==> start_runs + blank_runs(s) == runs_view(runs@) + blank_runs(
                s.skip(start as int),
            ),
            done ==> start_runs + blank_runs(s) == runs_view(runs@),
        decreases v.len() - start + (if done { 0int } else { 1int }),
    {
        let ghost before = runs_view(runs@);
        let ghost rest = s.skip(start as int);
        proof {
            assert(v@.take(v.len() as int) =~= v@);
            lemma_first_index_of_bounds(s, '_', start as int);
            lemma_first_index_shift(s, '_', start as int);
        }
        let k = find_char(&v, v.len(), '_', start);
        let part = string_of_range(&v, start, k);
        assert(part@ =~= rest.take(k - start));
        if k > start {
            add_markdown_runs(runs, part.as_str());
        }
        assert(runs_view(runs@) =~= before + part_runs(rest.take(k - start)));
        if k < v.len() {
            let ghost mid = runs_view(runs@);
            runs.push(underlined_run(repeated('\u{2003}', 1)));
            assert(repeat_char(em_space(), 1) =~= seq![em_space()]);
            assert(runs_view(runs@) =~= mid + seq![underlined(seq![em_space()])]);
            assert(rest.skip(k - start + 1) =~= s.skip(k + 1));
            start = k + 1;
        } else {
            assert(rest.take(k - start) =~= rest);
            done = true;
        }
    }
}

fn blank_paragraph_exec(index: usize, text: &String) -> (p: ParagraphSpec)
    requires
        index < usize::MAX,
    ensures
        p@ == blank_paragraph(index as nat, text@),
{
    let mut runs: Vec<RunSpec> = Vec::new();
    runs.push(number_run_exec(index));
    assert(runs_view(runs@) =~= seq![number_run(index as nat)]);
    add_blank_runs(&mut runs, text);
    let p = ParagraphSpec {
        runs,
        style: Some(String::from_str("ListNumber")),
        align: None,
        spacing: Some(Spacing { line: Some(480), before: None, after: Some(0) }),
    };
    assert(p@.runs =~= seq![number_run(index as nat)] + blank_runs(text@));
    p
}

/// Appends the questions of a fill-in-the-blanks section.
pub fn add_blanks_questions(body: &mut Vec<Block>, section: &Section)
    ensures
        blocks_view(final(body)@) == blocks_view(old(body)@) + blanks_blocks(
            section@.questions,
            section@.questions.len(),
        ),
{
    let ghost start = blocks_view(body@);
    let ghost qs = section@.questions;
    let mut index: usize = 0;
    while index < section.questions.len()
        invariant
            index <= section.questions.len(),
            qs == section@.questions,
            blocks_view(body@) == start + blanks_blocks(qs, index as nat),
        decreases section.questions.len() - index,
    {
        let ghost before = blocks_view(body@);
        match &section.questions[index] {
            Question::Blank(blank_q) => {
                let p = blank_paragraph_exec(index, &blank_q.text);
                let ghost pv = p@;
                body.push(Block::Paragraph(p));
                assert(blocks_view(body@) =~= before + seq![BlockV::Paragraph(pv)]);
            },
            _ => {},
        }
        assert(qs[index as int] == section.questions@[index as int]@);
        index = index + 1;
        assert(blocks_view(body@) =~= start + blanks_blocks(qs, index as nat));
    }
}

// ---------------------------------------------------------------------------
// Oral questions
// ---------------------------------------------------------------------------

pub open spec fn oral_question_blocks(index: nat, q: QuestionV) -> Seq<BlockV> {
    match q {
        QuestionV::Oral { text, .. } => seq![
            BlockV::Paragraph(
                question_paragraph(
                    index,
                    text,
                    Some(Spacing { line: Some(280), before: None, after: Some(0) }),
                ),
            ),
        ],
        _ => Seq::empty(),
    }
}

/// The question list of the first `n` questions of an oral section.
pub open spec fn oral_list_blocks(qs: Seq<QuestionV>, n: nat) -> Seq<BlockV>
    decreases n,
{
    if n == 0 {
        Seq::empty()
    } else {
        oral_list_blocks(qs, (n - 1) as nat) + oral_question_blocks((n - 1) as nat, qs[n - 1])
    }
}

fn add_oral_list(body: &mut Vec<Block>, section: &Section)
    ensures
        blocks_view(final(body)@) == blocks_view(old(body)@) + oral_list_blocks(
            section@.questions,
            section@.questions.len(),
        ),
{
    let ghost start = blocks_view(body@);
    let ghost qs = section@.questions;
    let mut index: usize = 0;
    while index < section.questions.len()
        invariant
            index <= section.questions.len(),
            qs == section@.questions,
            blocks_view(body@) == start + oral_list_blocks(qs, index as nat),
        decreases section.questions.len() - index,
    {
        let ghost before = blocks_view(body@);
        match &section.questions[index] {
            Question::Oral(oral_q) => {
                let p = question_paragraph_exec(
                    index,
                    &oral_q.text,
                    Some(Spacing { line: Some(280), before: None, after: Some(0) }),
                );
                let ghost pv = p@;
                body.push(Block::Paragraph(p));
                assert(blocks_view(body@) =~= before + seq![BlockV::Paragraph(pv)]);
            },
            _ => {},
        }
        assert(qs[index as int] == section.questions@[index as int]@);
        index = index + 1;
        assert(blocks_view(body@) =~= start + oral_list_blocks(qs, index as nat));
    }
}

// ---------------------------------------------------------------------------
// Matching questions
// ---------------------------------------------------------------------------

/// The terms of the matching questions among `qs`, in order.
pub open spec fn matching_lefts(qs: Seq<QuestionV>) -> Seq<Seq<char>>
    decreases qs.len(),
{
    if qs.len() == 0 {
        Seq::empty()
    } else {
        match qs.last() {
            QuestionV::Matching { left, .. } => matching_lefts(qs.drop_last()).push(left),
            _ => matching_lefts(qs.drop_last()),
        }
    }
}

/// The definitions of the matching questions among `qs`, in order.
pub open spec fn matching_rights(qs: Seq<QuestionV>) -> Seq<Seq<char>>
    decreases qs.len(),
{
    if qs.len() == 0 {
        Seq::empty()
    } else {
        match qs.last() {
            QuestionV::Matching { right, .. } => matching_rights(qs.drop_last()).push(right),
            _ => matching_rights(qs.drop_last()),
        }
    }
}

/// A section has as many matching terms as definitions, and no more than
/// questions.
pub proof fn lemma_matching_lens(qs: Seq<QuestionV>)
    ensures
        matching_lefts(qs).len() == matching_rights(qs).len(),
        matching_lefts(qs).len() <= qs.len(),
    decreases qs.len(),
{
    if qs.len() > 0 {
        lemma_matching_lens(qs.drop_last());
    }
}

/// The terms and definitions of the matching questions of a section.
fn collect_matching(section: &Section) -> (r: (Vec<String>, Vec<String>))
    ensures
        strings_view(r.0@) == matching_lefts(section@.questions),
        strings_view(r.1@) == matching_rights(section@.questions),
        r.0.len() == r.1.len(),
{
    let ghost qs = section@.questions;
    let mut lefts: Vec<String> = Vec::new();
    let mut rights: Vec<String> = Vec::new();
    let mut i: usize = 0;
    while i < section.questions.len()
        invariant
            i <= section.questions.len(),
            qs == section@.questions,
            strings_view(lefts@) == matching_lefts(qs.take(i as int)),
            strings_view(rights@) == matching_rights(qs.take(i as int)),
        decreases section.questions.len() - i,
    {
        assert(qs.take(i + 1).drop_last() =~= qs.take(i as int));
        assert(qs.take(i + 1).last() == section.questions@[i as int]@);
        match &section.questions[i] {
            Question::Matching(m) => {
                let ghost bl = strings_view(lefts@);
                let ghost br = strings_view(rights@);
                lefts.push(m.left.clone());
                rights.push(m.right.clone());
                assert(strings_view(lefts@) =~= bl.push(m.left@));
                assert(strings_view(rights@) =~= br.push(m.right@));
            },
            _ => {},
        }
        i = i + 1;
    }
    assert(qs.take(i as int) =~= qs);
    proof {
        lemma_matching_lens(qs);
    }
    (lefts, rights)
}

/// `p` lists each of `0..n` once.
pub open spec fn is_permutation(p: Seq<usize>, n: nat) -> bool {
    &&& p.len() == n
    &&& forall|i: int| 0 <= i < p.len() ==> #[trigger] p[i] < n
    &&& p.no_duplicates()
}

/// The items of `s` in the order `p` gives.
pub open spec fn permute<A>(s: Seq<A>, p: Seq<usize>) -> Seq<A> {
    Seq::new(p.len(), |i: int| s[p[i] as int])
}

/// The left cell of a vertical matching row: a blank and the term.
pub open spec fn term_answer_cell(term: Seq<char>) -> CellV {
    CellV {
        paragraphs: seq![
            plain_paragraph(
                seq![underlined(seq![em_space(), em_space()]), plain_run(seq![' '] + term)],
            ),
        ],
        width: None,
        grey_borders: Seq::empty(),
        margins: false,
    }
}

/// The right cell of the `i`-th vertical matching row: a labelled definition.
pub open spec fn labelled_cell(i: nat, def: Seq<char>) -> CellV {
    CellV {
        paragraphs: seq![plain_paragraph(seq![plain_run(labelled(i, def))])],
        width: None,
        grey_borders: Seq::empty(),
        margins: false,
    }
}

/// The borderless two-column table of a vertical matching section: row `i`
/// holds the `i`-th term and the `i`-th definition, labelled.
pub open spec fn matching_v_table(lefts: Seq<Seq<char>>, rights: Seq<Seq<char>>) -> TableV {
    TableV {
        rows: Seq::new(
            lefts.len(),
            |i: int| seq![term_answer_cell(lefts[i]), labelled_cell(i as nat, rights[i])],
        ),
        borderless: true,
        width: None,
    }
}

/// The blocks of a vertical matching section whose pairs were shuffled by
/// `p1` and whose definitions were then shuffled again by `p2`.
pub open spec fn matching_v_blocks(qs: Seq<QuestionV>, p1: Seq<usize>, p2: Seq<usize>) -> Seq<BlockV> {
    let lefts = matching_lefts(qs);
    let rights = matching_rights(qs);
    if lefts.len() == 0 {
        Seq::empty()
    } else {
        seq![
            BlockV::Table(
                matching_v_table(permute(lefts, p1), permute(permute(rights, p1), p2)),
            ),
        ]
    }
}

fn one_paragraph_cell(p: ParagraphSpec, width: Option<usize>) -> (c: CellSpec)
    ensures
        c@ == (CellV { paragraphs: seq![p@], width, grey_borders: Seq::empty(), margins: false }),
{
    let mut paragraphs: Vec<ParagraphSpec> = Vec::new();
    paragraphs.push(p);
    let c = CellSpec { paragraphs, width, grey_borders: Vec::new(), margins: false };
    assert(c@.paragraphs =~= seq![p@]);
    assert(c@.grey_borders =~= Seq::<BorderSide>::empty());
    c
}

fn term_answer_cell_exec(term: &String) -> (c: CellSpec)
    ensures
        c@ == term_answer_cell(term@),
{
    let mut runs: Vec<RunSpec> = Vec::new();
    runs.push(underlined_run(repeated('\u{2003}', 2)));
    let mut t = String::new();
    push_char(&mut t, ' ');
    t.append(term.as_str());
    runs.push(run(t));
    assert(repeat_char(em_space(), 2) =~= seq![em_space(), em_space()]);
    assert(runs_view(runs@) =~= seq![
        underlined(seq![em_space(), em_space()]),
        plain_run(seq![' '] + term@),
    ]);
    one_paragraph_cell(crate::document::paragraph(runs), None)
}

fn labelled_cell_exec(i: usize, def: &String) -> (c: CellSpec)
    requires
        i <= 190,
    ensures
        c@ == labelled_cell(i as nat, def@),
{
    let mut runs: Vec<RunSpec> = Vec::new();
    runs.push(run(labelled_string(i, def.as_str())));
    assert(runs_view(runs@) =~= seq![plain_run(labelled(i as nat, def@))]);
    one_paragraph_cell(crate::document::paragraph(runs), None)
}

/// The table of a vertical matching section, from its terms and definitions
/// in the order they are to appear.
pub fn matching_v_table_exec(lefts: &Vec<String>, rights: &Vec<String>) -> (t: TableSpec)
    requires
        lefts.len() == rights.len(),
        lefts.len() <= 191,
    ensures
        t@ == matching_v_table(strings_view(lefts@), strings_view(rights@)),
{
    let ghost spec_t = matching_v_table(strings_view(lefts@), strings_view(rights@));
    let mut rows: Vec<Vec<CellSpec>> = Vec::new();
    let mut i: usize = 0;
    while i < lefts.len()
        invariant
            i <= lefts.len() == rights.len() <= 191,
            spec_t == matching_v_table(strings_view(lefts@), strings_view(rights@)),
            rows@.len() == i,
            forall|j: int| 0 <= j < i ==> #[trigger] rows_view(rows@)[j] == spec_t.rows[j],
        decreases lefts.len() - i,
    {
        let mut row: Vec<CellSpec> = Vec::new();
        row.push(term_answer_cell_exec(&lefts[i]));
        row.push(labelled_cell_exec(i, &rights[i]));
        assert(cells_view(row@) =~= spec_t.rows[i as int]);
        let ghost before = rows_view(rows@);
        rows.push(row);
        assert(rows_view(rows@) =~= before.push(cells_view(row@)));
        i = i + 1;
    }
    let t = TableSpec { rows, borderless: true, width: None };
    assert(t@.rows =~= spec_t.rows);
    t
}

/// A random number generator, seeded once and never reseeded.
#[verifier::external_type_specification]
#[verifier::external_body]
pub struct ExStdRng(rand::rngs::StdRng);

/// `StdRng::from_rng(OsRng)`: a generator seeded by the operating system,
/// or nothing when the operating system gives no seed. Nothing is claimed
/// of which comes back: it rests on the machine.
#[verifier::external_body]
fn seeded_rng() -> Option<rand::rngs::StdRng> {
    rand::SeedableRng::from_rng(rand::rngs::OsRng).ok()
}

/// `SliceRandom::shuffle`: puts the items of `v` in a random order by
/// swapping them; the items themselves are kept, each as often as before.
/// Which order comes out is left unsaid: it rests on chance.
#[verifier::external_body]
fn shuffle(rng: &mut rand::rngs::StdRng, v: &mut Vec<usize>)
    ensures
        final(v)@.to_multiset() == old(v)@.to_multiset(),
{
    rand::seq::SliceRandom::shuffle(v.as_mut_slice(), rng);
}

/// `0, 1, ..., n - 1`.
pub open spec fn identity(n: nat) -> Seq<usize> {
    Seq::new(n, |i: int| i as usize)
}

proof fn lemma_shuffled_identity(p: Seq<usize>, n: nat)
    requires
        n <= usize::MAX,
        p.to_multiset() == identity(n).to_multiset(),
    ensures
        is_permutation(p, n),
{
    broadcast use vstd::seq_lib::group_to_multiset_ensures;

    let id = identity(n);
    assert(id.no_duplicates());
    id.lemma_multiset_has_no_duplicates();
    p.lemma_multiset_has_no_duplicates_conv();
    assert(p.to_multiset().len() == id.to_multiset().len());
    assert(p.len() == id.len());
    assert forall|i: int| 0 <= i < p.len() implies #[trigger] p[i] < n by {
        assert(p.contains(p[i]));
        assert(p.to_multiset().count(p[i]) > 0);
        assert(id.contains(p[i]));
    }
}

fn identity_exec(n: usize) -> (v: Vec<usize>)
    ensures
        v@ == identity(n as nat),
{
    let mut v: Vec<usize> = Vec::new();
    let mut i: usize = 0;
    while i < n
        invariant
            i <= n,
            v@ == identity(i as nat),
        decreases n - i,
    {
        v.push(i);
        i = i + 1;
        assert(v@ =~= identity(i as nat));
    }
    v
}

/// A random permutation of `0..n`.
fn random_permutation(rng: &mut rand::rngs::StdRng, n: usize) -> (p: Vec<usize>)
    ensures
        is_permutation(p@, n as nat),
{
    let mut p = identity_exec(n);
    shuffle(rng, &mut p);
    proof {
        lemma_shuffled_identity(p@, n as nat);
    }
    p
}

fn permute_strings(s: &Vec<String>, p: &Vec<usize>) -> (r: Vec<String>)
    requires
        forall|i: int| 0 <= i < p.len() ==> #[trigger] p@[i] < s.len(),
    ensures
        strings_view(r@) == permute(strings_view(s@), p@),
        r.len() == p.len(),
{
    let mut r: Vec<String> = Vec::new();
    let mut i: usize = 0;
    while i < p.len()
        invariant
            i <= p.len(),
            forall|j: int| 0 <= j < p.len() ==> #[trigger] p@[j] < s.len(),
            strings_view(r@) == permute(strings_view(s@), p@.take(i as int)),
        decreases p.len() - i,
    {
        let ghost before = strings_view(r@);
        let x = s[p[i]].clone();
        let ghost xv = x@;
        assert(xv == strings_view(s@)[p@[i as int] as int]);
        r.push(x);
        assert(strings_view(r@) =~= before.push(xv));
        assert(permute(strings_view(s@), p@.take(i + 1)) =~= permute(strings_view(s@), p@.take(i as int)).push(xv));
        i = i + 1;
    }
    assert(p@.take(i as int) =~= p@);
    r
}

/// The vertical matching layout for given shuffles of the pairs (`p1`) and
/// then of the definitions (`p2`).
pub fn add_matching_v(body: &mut Vec<Block>, section: &Section, p1: &Vec<usize>, p2: &Vec<usize>)
    requires
        matching_lefts(section@.questions).len() <= 191,
        is_permutation(p1@, matching_lefts(section@.questions).len()),
        is_permutation(p2@, matching_lefts(section@.questions).len()),
    ensures
        blocks_view(final(body)@) == blocks_view(old(body)@) + matching_v_blocks(
            section@.questions,
            p1@,
            p2@,
        ),
{
    let (lefts, rights) = collect_matching(section);
    if lefts.len() == 0 {
        assert(blocks_view(body@) =~= blocks_view(body@) + Seq::<BlockV>::empty());
        return;
    }
    let shuffled_lefts = permute_strings(&lefts, p1);
    let paired_rights = permute_strings(&rights, p1);
    let shuffled_rights = permute_strings(&paired_rights, p2);
    let t = matching_v_table_exec(&shuffled_lefts, &shuffled_rights);
    let ghost tv = t@;
    let ghost before = blocks_view(body@);
    body.push(Block::Table(t));
    assert(blocks_view(body@) =~= before + seq![BlockV::Table(tv)]);
}

/// `n / r` rounded up.
pub open spec fn div_ceil(n: nat, r: nat) -> nat {
    ((n + r - 1) / r as int) as nat
}

/// The empty cells left when `n` terms fill `r` rows of the fewest columns.
pub open spec fn empty_cells(n: nat, r: nat) -> int {
    r * div_ceil(n, r) - n
}

/// The number of rows of the term bank: among one, two and three rows, the
/// one that leaves the fewest empty cells, and the fewest rows among those.
pub open spec fn bank_rows(n: nat) -> nat {
    let e1 = empty_cells(n, 1);
    let e2 = empty_cells(n, 2);
    let e3 = empty_cells(n, 3);
    let (r, e) = if e2 < e1 {
        (2nat, e2)
    } else {
        (1nat, e1)
    };
    if e3 < e {
        3
    } else {
        r
    }
}

/// The cell of the term bank at position `idx`: the labelled term, at ten
/// points, or an empty paragraph past the last term.
pub open spec fn bank_cell(idx: nat, terms: Seq<Seq<char>>) -> CellV {
    CellV {
        paragraphs: if idx < terms.len() {
            seq![plain_paragraph(seq![RunV { size: Some(20), ..plain_run(labelled(idx, terms[idx as int])) }])]
        } else {
            seq![plain_paragraph(Seq::empty())]
        },
        width: None,
        grey_borders: Seq::empty(),
        margins: false,
    }
}

/// The term bank: the terms labelled in order, row by row.
pub open spec fn bank_table(terms: Seq<Seq<char>>) -> TableV {
    let rows = bank_rows(terms.len());
    let cols = div_ceil(terms.len(), rows);
    TableV {
        rows: Seq::new(rows, |r: int| Seq::new(cols, |c: int| bank_cell((r * cols + c) as nat, terms))),
        borderless: false,
        width: None,
    }
}

/// An answer-blank cell: five underlined em spaces and a space.
pub open spec fn blank_cell(width: nat) -> CellV {
    CellV {
        paragraphs: seq![
            plain_paragraph(seq![underlined(repeat_char(em_space(), 5)), plain_run(seq![' '])]),
        ],
        width: Some(width as usize),
        grey_borders: Seq::empty(),
        margins: false,
    }
}

/// A cell of one plain paragraph of `text`.
pub open spec fn text_cell(width: nat, text: Seq<char>) -> CellV {
    CellV {
        paragraphs: seq![plain_paragraph(seq![plain_run(text)])],
        width: Some(width as usize),
        grey_borders: Seq::empty(),
        margins: false,
    }
}

/// A cell of one empty paragraph.
pub open spec fn empty_cell(width: nat) -> CellV {
    CellV {
        paragraphs: seq![plain_paragraph(Seq::empty())],
        width: Some(width as usize),
        grey_borders: Seq::empty(),
        margins: false,
    }
}

/// The answer blank and definition of definition `j`, or two empty cells.
pub open spec fn definition_pair(defs: Seq<Seq<char>>, j: int, bw: nat, dw: nat) -> Seq<CellV> {
    if j < defs.len() {
        seq![blank_cell(bw), text_cell(dw, defs[j])]
    } else {
        seq![empty_cell(bw), empty_cell(dw)]
    }
}

/// The width of a definition column: half of what the two blank columns
/// leave of the usable width.
pub open spec fn definition_width(usable: u32, bw: u32) -> nat {
    (if usable >= 2 * bw { (usable - 2 * bw) as nat } else { 0 }) / 2
}

/// The borderless definitions table: two definitions per row, each after
/// its answer blank, across the usable width.
pub open spec fn definitions_table(defs: Seq<Seq<char>>, usable: u32, bw: u32) -> TableV {
    let dw = definition_width(usable, bw);
    TableV {
        rows: Seq::new(
            div_ceil(defs.len(), 2),
            |i: int| definition_pair(defs, 2 * i, bw as nat, dw) + definition_pair(defs, 2 * i + 1, bw as nat, dw),
        ),
        borderless: true,
        width: Some(usable as usize),
    }
}

/// The blocks of a horizontal matching section: the term bank and the
/// definitions table, in question order.
pub open spec fn matching_h_blocks(qs: Seq<QuestionV>, usable: u32, bw: u32) -> Seq<BlockV> {
    let terms = matching_lefts(qs);
    let defs = matching_rights(qs);
    if terms.len() == 0 {
        Seq::empty()
    } else {
        seq![BlockV::Table(bank_table(terms)), BlockV::Table(definitions_table(defs, usable, bw))]
    }
}

/// `n / r` rounded up, for `r > 0`.
fn div_ceil_exec(n: usize, r: usize) -> (c: usize)
    requires
        r > 0,
        n <= usize::MAX - 2,
        r <= 3,
    ensures
        c == div_ceil(n as nat, r as nat),
{
    (n + (r - 1)) / r
}

/// The number of rows of the term bank for `n` terms.
pub fn layout_rows(n: usize) -> (rows: usize)
    requires
        n <= usize::MAX - 2,
    ensures
        rows == bank_rows(n as nat),
        1 <= rows <= 3,
{
    let mut best_rows: usize = 1;
    let mut best_empty: usize = div_ceil_exec(n, 1) - n;
    let mut r: usize = 2;
    while r <= 3
        invariant
            2 <= r <= 4,
            n <= usize::MAX - 2,
            1 <= best_rows < r,
            r == 3 ==> (best_rows as int, best_empty as int) == (if empty_cells(n as nat, 2) < empty_cells(n as nat, 1) {
                (2int, empty_cells(n as nat, 2))
            } else {
                (1int, empty_cells(n as nat, 1))
            }),
            r == 2 ==> best_rows == 1 && best_empty == empty_cells(n as nat, 1),
            r == 4 ==> best_rows == bank_rows(n as nat),
        decreases 4 - r,
    {
        let cols = div_ceil_exec(n, r);
        assert(r * cols >= n) by (nonlinear_arith)
            requires
                cols == (n + r - 1) / r as int,
                r > 0,
        ;
        assert(r * cols <= n + r - 1) by (nonlinear_arith)
            requires
                cols == (n + r - 1) / r as int,
                r > 0,
                n >= 0,
        ;
        let empty = r * cols - n;
        if empty < best_empty {
            best_rows = r;
            best_empty = empty;
        }
        r = r + 1;
    }
    best_rows
}

fn bank_cell_exec(idx: usize, terms: &Vec<String>) -> (c: CellSpec)
    requires
        idx <= 190 || idx >= terms.len(),
    ensures
        c@ == bank_cell(idx as nat, strings_view(terms@)),
{
    let mut runs: Vec<RunSpec> = Vec::new();
    if idx < terms.len() {
        let label = labelled_string(idx, terms[idx].as_str());
        runs.push(RunSpec { text: label, bold: false, italic: false, underline: false, size: Some(20), page_break: false });
        assert(runs_view(runs@) =~= seq![RunV { size: Some(20), ..plain_run(labelled(idx as nat, strings_view(terms@)[idx as int])) }]);
    } else {
        assert(runs_view(runs@) =~= Seq::<RunV>::empty());
    }
    let c = one_paragraph_cell(crate::document::paragraph(runs), None);
    assert(c@.paragraphs =~= bank_cell(idx as nat, strings_view(terms@)).paragraphs);
    c
}

/// The term bank of a horizontal matching section.
pub fn bank_table_exec(terms: &Vec<String>) -> (t: TableSpec)
    requires
        terms.len() <= 191,
    ensures
        t@ == bank_table(strings_view(terms@)),
{
    let ghost spec_t = bank_table(strings_view(terms@));
    let n = terms.len();
    let rows = layout_rows(n);
    let cols = div_ceil_exec(n, rows);
    assert(cols <= n) by (nonlinear_arith)
        requires
            cols == (n + rows - 1) / rows as int,
            1 <= rows <= 3,
            0 <= n,
    ;
    let mut table_rows: Vec<Vec<CellSpec>> = Vec::new();
    let mut r: usize = 0;
    while r < rows
        invariant
            r <= rows <= 3,
            n <= 191,
            n == terms.len(),
            rows == bank_rows(n as nat),
            cols == div_ceil(n as nat, rows as nat),
            cols <= n,
            spec_t == bank_table(strings_view(terms@)),
            table_rows@.len() == r,
            forall|j: int| 0 <= j < r ==> #[trigger] rows_view(table_rows@)[j] == spec_t.rows[j],
        decreases rows - r,
    {
        let mut row: Vec<CellSpec> = Vec::new();
        let mut c: usize = 0;
        while c < cols
            invariant
                c <= cols <= n <= 191,
                r < rows <= 3,
                n == terms.len(),
                rows == bank_rows(n as nat),
                cols == div_ceil(n as nat, rows as nat),
                spec_t == bank_table(strings_view(terms@)),
                row@.len() == c,
                forall|j: int| 0 <= j < c ==> #[trigger] cells_view(row@)[j] == spec_t.rows[r as int][j],
            decreases cols - c,
        {
            assert(r * cols + c <= 3 * 191) by (nonlinear_arith)
                requires
                    r < 3,
                    c < cols,
                    cols <= 191,
            ;
            let idx = r * cols + c;
            let cell = bank_cell_exec(idx, terms);
            let ghost before = cells_view(row@);
            row.push(cell);
            assert(cells_view(row@) =~= before.push(spec_t.rows[r as int][c as int]));
            c = c + 1;
        }
        assert(cells_view(row@) =~= spec_t.rows[r as int]);
        let ghost before = rows_view(table_rows@);
        table_rows.push(row);
        assert(rows_view(table_rows@) =~= before.push(cells_view(row@)));
        r = r + 1;
    }
    let t = TableSpec { rows: table_rows, borderless: false, width: None };
    assert(t@.rows =~= spec_t.rows);
    t
}

fn blank_cell_exec(width: u32) -> (c: CellSpec)
    ensures
        c@ == blank_cell(width as nat),
{
    let mut runs: Vec<RunSpec> = Vec::new();
    runs.push(underlined_run(repeated('\u{2003}', 5)));
    let mut sp = String::new();
    push_char(&mut sp, ' ');
    runs.push(run(sp));
    assert(runs_view(runs@) =~= seq![underlined(repeat_char(em_space(), 5)), plain_run(seq![' '])]);
    one_paragraph_cell(crate::document::paragraph(runs), Some(width as usize))
}

fn text_cell_exec(width: u32, text: &String) -> (c: CellSpec)
    ensures
        c@ == text_cell(width as nat, text@),
{
    let mut runs: Vec<RunSpec> = Vec::new();
    runs.push(run(text.clone()));
    assert(runs_view(runs@) =~= seq![plain_run(text@)]);
    one_paragraph_cell(crate::document::paragraph(runs), Some(width as usize))
}

fn empty_cell_exec(width: u32) -> (c: CellSpec)
    ensures
        c@ == empty_cell(width as nat),
{
    let runs: Vec<RunSpec> = Vec::new();
    assert(runs_view(runs@) =~= Seq::<RunV>::empty());
    one_paragraph_cell(crate::document::paragraph(runs), Some(width as usize))
}

fn push_definition_pair(row: &mut Vec<CellSpec>, defs: &Vec<String>, j: usize, bw: u32, dw: u32)
    ensures
        cells_view(final(row)@) == cells_view(old(row)@) + definition_pair(
            strings_view(defs@),
            j as int,
            bw as nat,
            dw as nat,
        ),
{
    let ghost before = cells_view(row@);
    if j < defs.len() {
        let a = blank_cell_exec(bw);
        let ghost av = a@;
        row.push(a);
        let b = text_cell_exec(dw, &defs[j]);
        let ghost bv = b@;
        row.push(b);
        assert(cells_view(row@) =~= before + seq![av, bv]);
    } else {
        let a = empty_cell_exec(bw);
        let ghost av = a@;
        row.push(a);
        let b = empty_cell_exec(dw);
        let ghost bv = b@;
        row.push(b);
        assert(cells_view(row@) =~= before + seq![av, bv]);
    }
}

/// The definitions table of a horizontal matching section.
pub fn definitions_table_exec(defs: &Vec<String>, usable_width: u32, blank_width: u32) -> (t: TableSpec)
    requires
        defs.len() < usize::MAX,
        blank_width <= u32::MAX / 2,
    ensures
        t@ == definitions_table(strings_view(defs@), usable_width, blank_width),
{
    let ghost spec_t = definitions_table(strings_view(defs@), usable_width, blank_width);
    let def_width = usable_width.saturating_sub(2 * blank_width) / 2;
    assert(def_width == definition_width(usable_width, blank_width));
    let n = defs.len();
    let match_rows = (n + 1) / 2;
    assert(match_rows == div_ceil(n as nat, 2));
    let mut rows: Vec<Vec<CellSpec>> = Vec::new();
    let mut i: usize = 0;
    while i < match_rows
        invariant
            i <= match_rows,
            match_rows == div_ceil(n as nat, 2),
            n == defs.len() < usize::MAX,
            def_width == definition_width(usable_width, blank_width),
            spec_t == definitions_table(strings_view(defs@), usable_width, blank_width),
            rows@.len() == i,
            forall|j: int| 0 <= j < i ==> #[trigger] rows_view(rows@)[j] == spec_t.rows[j],
        decreases match_rows - i,
    {
        let mut row: Vec<CellSpec> = Vec::new();
        push_definition_pair(&mut row, defs, 2 * i, blank_width, def_width);
        push_definition_pair(&mut row, defs, 2 * i + 1, blank_width, def_width);
        assert(cells_view(row@) =~= spec_t.rows[i as int]);
        let ghost before = rows_view(rows@);
        rows.push(row);
        assert(rows_view(rows@) =~= before.push(cells_view(row@)));
        i = i + 1;
    }
    let t = TableSpec { rows, borderless: true, width: Some(usable_width as usize) };
    assert(t@.rows =~= spec_t.rows);
    t
}

/// The horizontal matching layout: a term bank and a definitions table.
pub fn add_matching_h(body: &mut Vec<Block>, section: &Section, usable_width: u32, blank_width: u32)
    requires
        matching_lefts(section@.questions).len() <= 191,
        blank_width <= u32::MAX / 2,
    ensures
        blocks_view(final(body)@) == blocks_view(old(body)@) + matching_h_blocks(
            section@.questions,
            usable_width,
            blank_width,
        ),
{
    let (terms, defs) = collect_matching(section);
    if terms.len() == 0 {
        assert(blocks_view(body@) =~= blocks_view(body@) + Seq::<BlockV>::empty());
        return;
    }
    let ghost before = blocks_view(body@);
    let t1 = bank_table_exec(&terms);
    let ghost v1 = t1@;
    body.push(Block::Table(t1));
    let t2 = definitions_table_exec(&defs, usable_width, blank_width);
    let ghost v2 = t2@;
    body.push(Block::Table(t2));
    assert(blocks_view(body@) =~= before + seq![BlockV::Table(v1), BlockV::Table(v2)]);
}

// ---------------------------------------------------------------------------
// The oral assessment sheet
// ---------------------------------------------------------------------------

/// A page break.
pub open spec fn page_break_run() -> RunV {
    RunV { page_break: true, ..plain_run(Seq::empty()) }
}

/// A paragraph with no space after it.
pub open spec fn tight(runs: Seq<RunV>) -> ParagraphV {
    ParagraphV { runs, style: None, align: None, spacing: Some(space_after(0)) }
}

/// A cell of the assessment sheet, with its small inner margins.
pub open spec fn sheet_cell(paragraphs: Seq<ParagraphV>, width: Option<usize>, borders: Seq<BorderSide>) -> CellV {
    CellV { paragraphs, width, grey_borders: borders, margins: true }
}

/// The line on which a score is written: four underlined em spaces.
pub open spec fn score_line() -> RunV {
    underlined(repeat_char(em_space(), 4))
}

/// The row of an oral question: the question and, when it has no
/// sub-points, a score line.
pub open spec fn question_row(text: Seq<char>, subs: Seq<Seq<char>>, qw: nat, sw: nat) -> Seq<CellV> {
    seq![
        sheet_cell(seq![tight(markdown_runs(text))], Some(qw as usize), Seq::empty()),
        sheet_cell(
            seq![tight(if subs.len() == 0 { seq![score_line()] } else { Seq::empty() })],
            Some(sw as usize),
            Seq::empty(),
        ),
    ]
}

/// The row of a sub-point: the indented sub-point and a score line, with
/// light-grey borders between them and towards the neighbouring rows.
pub open spec fn sub_point_row(sub: Seq<char>, qw: nat, sw: nat) -> Seq<CellV> {
    seq![
        sheet_cell(
            seq![tight(seq![plain_run(seq!['\t']), plain_run(sub)])],
            Some(qw as usize),
            seq![BorderSide::Top, BorderSide::Bottom, BorderSide::Right],
        ),
        sheet_cell(
            seq![tight(seq![score_line()])],
            Some(sw as usize),
            seq![BorderSide::Top, BorderSide::Bottom, BorderSide::Left],
        ),
    ]
}

/// The rows of one question of the assessment sheet.
pub open spec fn oral_rows(q: QuestionV, qw: nat, sw: nat) -> Seq<Seq<CellV>> {
    match q {
        QuestionV::Oral { text, sub_points } => seq![question_row(text, sub_points, qw, sw)]
            + Seq::new(sub_points.len(), |k: int| sub_point_row(sub_points[k], qw, sw)),
        _ => Seq::empty(),
    }
}

/// The rows of the first `n` questions of the assessment sheet.
pub open spec fn sheet_rows(qs: Seq<QuestionV>, n: nat, qw: nat, sw: nat) -> Seq<Seq<CellV>>
    decreases n,
{
    if n == 0 {
        Seq::empty()
    } else {
        sheet_rows(qs, (n - 1) as nat, qw, sw) + oral_rows(qs[n - 1], qw, sw)
    }
}

/// The last row: one cell headed "Notes" with five empty paragraphs.
pub open spec fn notes_row() -> Seq<CellV> {
    seq![
        sheet_cell(
            seq![plain_paragraph(seq![RunV { bold: true, size: Some(20), ..plain_run("Notes"@) }])]
                + Seq::new(5, |i: int| plain_paragraph(Seq::empty())),
            None,
            Seq::empty(),
        ),
    ]
}

/// The width of the question column: what the score column leaves.
pub open spec fn question_width(usable: u32, sw: u32) -> nat {
    if usable >= sw { (usable - sw) as nat } else { 0 }
}

/// The assessment sheet of an oral section, on a page of its own: the
/// name/date fields, a centred heading, and a table with a row per question
/// and per sub-point, and a notes row.
pub open spec fn sheet_blocks(title: Seq<char>, qs: Seq<QuestionV>, usable: u32, sw: u32) -> Seq<BlockV> {
    seq![
        BlockV::Paragraph(plain_paragraph(seq![page_break_run()])),
        BlockV::Paragraph(header_paragraph()),
        BlockV::Paragraph(
            ParagraphV {
                runs: seq![plain_run(title + " - Oral Assessment Sheet"@)],
                style: Some("Heading1"@),
                align: Some(Alignment::Center),
                spacing: None,
            },
        ),
        BlockV::Table(
            TableV {
                rows: sheet_rows(qs, qs.len(), question_width(usable, sw), sw as nat) + seq![notes_row()],
                borderless: false,
                width: Some(usable as usize),
            },
        ),
    ]
}

fn tight_exec(runs: Vec<RunSpec>) -> (p: ParagraphSpec)
    ensures
        p@ == tight(runs_view(runs@)),
{
    ParagraphSpec { runs, style: None, align: None, spacing: Some(Spacing { line: None, before: None, after: Some(0) }) }
}

fn sheet_cell_exec(p: ParagraphSpec, width: Option<usize>, borders: Vec<BorderSide>) -> (c: CellSpec)
    ensures
        c@ == sheet_cell(seq![p@], width, borders@),
{
    let mut paragraphs: Vec<ParagraphSpec> = Vec::new();
    paragraphs.push(p);
    let c = CellSpec { paragraphs, width, grey_borders: borders, margins: true };
    assert(c@.paragraphs =~= seq![p@]);
    c
}

fn score_runs() -> (r: Vec<RunSpec>)
    ensures
        runs_view(r@) == seq![score_line()],
{
    let mut runs: Vec<RunSpec> = Vec::new();
    runs.push(underlined_run(repeated('\u{2003}', 4)));
    assert(runs_view(runs@) =~= seq![score_line()]);
    runs
}

fn question_row_exec(text: &String, has_subs: bool, qw: u32, sw: u32) -> (row: Vec<CellSpec>)
    ensures
        forall|subs: Seq<Seq<char>>| (subs.len() == 0) == !has_subs ==> cells_view(row@) == question_row(text@, subs, qw as nat, sw as nat),
{
    let mut runs: Vec<RunSpec> = Vec::new();
    add_markdown_runs(&mut runs, text.as_str());
    assert(runs_view(runs@) =~= markdown_runs(text@));
    let c1 = sheet_cell_exec(tight_exec(runs), Some(qw as usize), Vec::new());
    let score = if has_subs {
        let e: Vec<RunSpec> = Vec::new();
        assert(runs_view(e@) =~= Seq::<RunV>::empty());
        e
    } else {
        score_runs()
    };
    let c2 = sheet_cell_exec(tight_exec(score), Some(sw as usize), Vec::new());
    let mut row: Vec<CellSpec> = Vec::new();
    let ghost v1 = c1@;
    let ghost v2 = c2@;
    row.push(c1);
    row.push(c2);
    assert(cells_view(row@) =~= seq![v1, v2]);
    assert forall|subs: Seq<Seq<char>>| (subs.len() == 0) == !has_subs implies cells_view(row@) == question_row(text@, subs, qw as nat, sw as nat) by {
        assert(v1.grey_borders =~= Seq::<BorderSide>::empty());
        assert(v2.grey_borders =~= Seq::<BorderSide>::empty());
    }
    row
}

fn sub_point_row_exec(sub: &String, qw: u32, sw: u32) -> (row: Vec<CellSpec>)
    ensures
        cells_view(row@) == sub_point_row(sub@, qw as nat, sw as nat),
{
    let mut runs: Vec<RunSpec> = Vec::new();
    let mut tab = String::new();
    push_char(&mut tab, '\t');
    runs.push(run(tab));
    runs.push(run(sub.clone()));
    assert(runs_view(runs@) =~= seq![plain_run(seq!['\t']), plain_run(sub@)]);
    let mut b1: Vec<BorderSide> = Vec::new();
    b1.push(BorderSide::Top);
    b1.push(BorderSide::Bottom);
    b1.push(BorderSide::Right);
    let mut b2: Vec<BorderSide> = Vec::new();
    b2.push(BorderSide::Top);
    b2.push(BorderSide::Bottom);
    b2.push(BorderSide::Left);
    assert(b1@ =~= seq![BorderSide::Top, BorderSide::Bottom, BorderSide::Right]);
    assert(b2@ =~= seq![BorderSide::Top, BorderSide::Bottom, BorderSide::Left]);
    let c1 = sheet_cell_exec(tight_exec(runs), Some(qw as usize), b1);
    let c2 = sheet_cell_exec(tight_exec(score_runs()), Some(sw as usize), b2);
    let mut row: Vec<CellSpec> = Vec::new();
    let ghost v1 = c1@;
    let ghost v2 = c2@;
    row.push(c1);
    row.push(c2);
    assert(cells_view(row@) =~= seq![v1, v2]);
    row
}

fn notes_row_exec() -> (row: Vec<CellSpec>)
    ensures
        cells_view(row@) == notes_row(),
{
    let mut runs: Vec<RunSpec> = Vec::new();
    runs.push(RunSpec { text: String::from_str("Notes"), bold: true, italic: false, underline: false, size: Some(20), page_break: false });
    let ghost notes_run = RunV { bold: true, size: Some(20), ..plain_run("Notes"@) };
    assert(runs_view(runs@) =~= seq![notes_run]);
    let mut paragraphs: Vec<ParagraphSpec> = Vec::new();
    let first = crate::document::paragraph(runs);
    let ghost fv = first@;
    paragraphs.push(first);
    assert(paragraphs_view(paragraphs@) =~= seq![fv]);
    assert(seq![fv] + Seq::new(0nat, |i: int| plain_paragraph(Seq::empty())) =~= seq![fv]);
    let mut k: usize = 0;
    while k < 5
        invariant
            k <= 5,
            paragraphs_view(paragraphs@) == seq![plain_paragraph(seq![RunV { bold: true, size: Some(20), ..plain_run("Notes"@) }])]
                + Seq::new(k as nat, |i: int| plain_paragraph(Seq::empty())),
        decreases 5 - k,
    {
        let e: Vec<RunSpec> = Vec::new();
        assert(runs_view(e@) =~= Seq::<RunV>::empty());
        let ghost before = paragraphs_view(paragraphs@);
        let ep = crate::document::paragraph(e);
        let ghost epv = ep@;
        paragraphs.push(ep);
        assert(paragraphs_view(paragraphs@) =~= before.push(epv));
        k = k + 1;
        assert(paragraphs_view(paragraphs@) =~= seq![plain_paragraph(seq![RunV { bold: true, size: Some(20), ..plain_run("Notes"@) }])]
                + Seq::new(k as nat, |i: int| plain_paragraph(Seq::empty())));
    }
    let c = CellSpec { paragraphs, width: None, grey_borders: Vec::new(), margins: true };
    assert(c@.grey_borders =~= Seq::<BorderSide>::empty());
    let mut row: Vec<CellSpec> = Vec::new();
    let ghost cv = c@;
    row.push(c);
    assert(cells_view(row@) =~= seq![cv]);
    row
}

fn push_oral_rows(rows: &mut Vec<Vec<CellSpec>>, q: &Question, qw: u32, sw: u32)
    ensures
        rows_view(final(rows)@) == rows_view(old(rows)@) + oral_rows(q@, qw as nat, sw as nat),
{
    let ghost start = rows_view(rows@);
    match q {
        Question::Oral(o) => {
            let ghost subs = strings_view(o.sub_points@);
            let r = question_row_exec(&o.text, o.sub_points.len() > 0, qw, sw);
            let ghost rv = cells_view(r@);
            rows.push(r);
            assert(rows_view(rows@) =~= start.push(rv));
            let mut k: usize = 0;
            while k < o.sub_points.len()
                invariant
                    k <= o.sub_points.len(),
                    subs == strings_view(o.sub_points@),
                    rows_view(rows@) == start + seq![rv] + Seq::new(k as nat, |j: int| sub_point_row(subs[j], qw as nat, sw as nat)),
                decreases o.sub_points.len() - k,
            {
                let ghost before = rows_view(rows@);
                let sr = sub_point_row_exec(&o.sub_points[k], qw, sw);
                let ghost srv = cells_view(sr@);
                rows.push(sr);
                assert(rows_view(rows@) =~= before.push(srv));
                k = k + 1;
                assert(rows_view(rows@) =~= start + seq![rv] + Seq::new(k as nat, |j: int| sub_point_row(subs[j], qw as nat, sw as nat)));
            }
            assert(rv == question_row(o.text@, subs, qw as nat, sw as nat));
            assert(rows_view(rows@) =~= start + oral_rows(q@, qw as nat, sw as nat));
        },
        _ => {
            assert(rows_view(rows@) =~= start + Seq::<Seq<CellV>>::empty());
        },
    }
}

/// Appends the assessment sheet of an oral section.
pub fn add_oral_assessment_sheet(body: &mut Vec<Block>, section: &Section, title: &String, usable_width: u32, score_width: u32)
    ensures
        blocks_view(final(body)@) == blocks_view(old(body)@) + sheet_blocks(
            title@,
            section@.questions,
            usable_width,
            score_width,
        ),
{
    let ghost start = blocks_view(body@);
    let ghost qs = section@.questions;
    let mut br: Vec<RunSpec> = Vec::new();
    br.push(RunSpec { text: String::new(), bold: false, italic: false, underline: false, size: None, page_break: true });
    assert(runs_view(br@) =~= seq![page_break_run()]);
    let p1 = crate::document::paragraph(br);
    let ghost v1 = p1@;
    body.push(Block::Paragraph(p1));
    let p2 = create_header_paragraph();
    let ghost v2 = p2@;
    body.push(Block::Paragraph(p2));
    let mut heading = title.clone();
    heading.append(" - Oral Assessment Sheet");
    let mut hr: Vec<RunSpec> = Vec::new();
    hr.push(run(heading));
    let p3 = ParagraphSpec { runs: hr, style: Some(String::from_str("Heading1")), align: Some(Alignment::Center), spacing: None };
    assert(p3@.runs =~= seq![plain_run(title@ + " - Oral Assessment Sheet"@)]);
    let ghost v3 = p3@;
    body.push(Block::Paragraph(p3));
    let question_width_twips = usable_width.saturating_sub(score_width);
    assert(question_width_twips == question_width(usable_width, score_width));
    let mut rows: Vec<Vec<CellSpec>> = Vec::new();
    let mut i: usize = 0;
    assert(rows_view(rows@) =~= Seq::<Seq<CellV>>::empty());
    while i < section.questions.len()
        invariant
            i <= section.questions.len(),
            qs == section@.questions,
            question_width_twips == question_width(usable_width, score_width),
            rows_view(rows@) == sheet_rows(qs, i as nat, question_width_twips as nat, score_width as nat),
        decreases section.questions.len() - i,
    {
        push_oral_rows(&mut rows, &section.questions[i], question_width_twips, score_width);
        assert(qs[i as int] == section.questions@[i as int]@);
        i = i + 1;
    }
    let notes = notes_row_exec();
    let ghost nv = cells_view(notes@);
    let ghost before_rows = rows_view(rows@);
    rows.push(notes);
    assert(rows_view(rows@) =~= before_rows.push(nv));
    let t = TableSpec { rows, borderless: false, width: Some(usable_width as usize) };
    let ghost v4 = t@;
    body.push(Block::Table(t));
    assert(blocks_view(body@) =~= start + seq![BlockV::Paragraph(v1), BlockV::Paragraph(v2), BlockV::Paragraph(v3), BlockV::Table(v4)]);
    assert(v4.rows =~= sheet_rows(qs, qs.len(), question_width(usable_width, score_width), score_width as nat) + seq![notes_row()]);
}

/// The questions of an oral section: the numbered list, then the
/// assessment sheet on a page of its own.
pub fn add_oral_questions(body: &mut Vec<Block>, section: &Section, title: &String, usable_width: u32, score_width: u32)
    ensures
        blocks_view(final(body)@) == blocks_view(old(body)@) + oral_list_blocks(
            section@.questions,
            section@.questions.len(),
        ) + sheet_blocks(title@, section@.questions, usable_width, score_width),
{
    let ghost start = blocks_view(body@);
    add_oral_list(body, section);
    let ghost mid = blocks_view(body@);
    add_oral_assessment_sheet(body, section, title, usable_width, score_width);
    assert(blocks_view(body@) =~= start + oral_list_blocks(section@.questions, section@.questions.len())
        + sheet_blocks(title@, section@.questions, usable_width, score_width));
}

// ---------------------------------------------------------------------------
// Sections
// ---------------------------------------------------------------------------

/// A short italic note under a section heading.
pub open spec fn note_paragraph(text: Seq<char>) -> BlockV {
    BlockV::Paragraph(
        ParagraphV { runs: seq![note_run(text)], style: None, align: None, spacing: Some(space_after(12)) },
    )
}

/// A section has a line under its heading: a subtitle, the separate-sheet
/// note of a long section, or the oral note.
pub open spec fn has_subtitle(s: SectionV) -> bool {
    ||| s.subtitle is Some
    ||| (s.section_type == Some(SectionType::Long) && s.separate_sheet)
    ||| s.section_type == Some(SectionType::Oral)
}

/// The heading of a section; with no space after it when a note follows.
pub open spec fn section_heading(s: SectionV) -> ParagraphV {
    ParagraphV {
        runs: seq![plain_run(s.name)],
        style: Some("Heading2"@),
        align: None,
        spacing: if has_subtitle(s) { Some(space_after(0)) } else { None },
    }
}

/// The heading of a section and the notes under it.
pub open spec fn section_intro(s: SectionV) -> Seq<BlockV> {
    seq![BlockV::Paragraph(section_heading(s))]
        + (if s.section_type == Some(SectionType::Long) && s.separate_sheet {
            seq![note_paragraph("Use a separate sheet of paper"@)]
        } else {
            Seq::empty()
        })
        + (if s.section_type == Some(SectionType::Oral) {
            seq![note_paragraph("To be completed orally"@)]
        } else {
            Seq::empty()
        })
        + match s.subtitle {
            Some(st) => seq![note_paragraph(st)],
            None => Seq::empty(),
        }
}

/// The questions of a section, laid out by its kind; a section of no kind
/// is laid out as short answers.
pub open spec fn section_questions(
    s: SectionV,
    title: Seq<char>,
    usable: u32,
    m: LayoutMetrics,
    p1: Seq<usize>,
    p2: Seq<usize>,
) -> Seq<BlockV> {
    let qs = s.questions;
    match s.section_type {
        Some(SectionType::Long) => long_blocks(qs, qs.len(), s.separate_sheet, (m.chars_per_line / 2) as nat),
        Some(SectionType::MatchingV) => matching_v_blocks(qs, p1, p2),
        Some(SectionType::MatchingH) => matching_h_blocks(qs, usable, m.blank_column_width),
        Some(SectionType::Blanks) => blanks_blocks(qs, qs.len()),
        Some(SectionType::Oral) => oral_list_blocks(qs, qs.len()) + sheet_blocks(title, qs, usable, m.score_column_width),
        _ => short_blocks(qs, qs.len(), s.separate_sheet, m.short_em_spaces as nat),
    }
}

/// The blocks of a section.
pub open spec fn section_blocks(
    s: SectionV,
    title: Seq<char>,
    usable: u32,
    m: LayoutMetrics,
    p1: Seq<usize>,
    p2: Seq<usize>,
) -> Seq<BlockV> {
    section_intro(s) + section_questions(s, title, usable, m, p1, p2)
}

/// A matching section numbers its terms with labels that stay within one
/// byte.
pub open spec fn labels_fit(s: SectionV) -> bool {
    (s.section_type == Some(SectionType::MatchingV) || s.section_type == Some(SectionType::MatchingH))
        ==> matching_lefts(s.questions).len() <= 191
}

/// `p1` and `p2` are shuffles of the matching pairs of a vertical matching
/// section.
pub open spec fn shuffles_fit(s: SectionV, p1: Seq<usize>, p2: Seq<usize>) -> bool {
    s.section_type == Some(SectionType::MatchingV) ==> {
        &&& is_permutation(p1, matching_lefts(s.questions).len())
        &&& is_permutation(p2, matching_lefts(s.questions).len())
    }
}

/// Appends a section: its heading and notes, then its questions laid out
/// by its kind, with `p1` and `p2` as the shuffles of a vertical matching
/// section.
pub fn add_section(
    body: &mut Vec<Block>,
    section: &Section,
    test_data: &TestData,
    usable_width: u32,
    metrics: &LayoutMetrics,
    p1: &Vec<usize>,
    p2: &Vec<usize>,
)
    requires
        labels_fit(section@),
        shuffles_fit(section@, p1@, p2@),
        metrics.blank_column_width <= u32::MAX / 2,
    ensures
        blocks_view(final(body)@) == blocks_view(old(body)@) + section_blocks(
            section@,
            test_data@.title,
            usable_width,
            *metrics,
            p1@,
            p2@,
        ),
{
    let ghost start = blocks_view(body@);
    let ghost sv = section@;
    let is_long_separate = section.section_type == Some(SectionType::Long) && section.separate_sheet;
    let is_oral = section.section_type == Some(SectionType::Oral);
    let has_sub = section.subtitle.is_some() || is_long_separate || is_oral;
    let mut hr: Vec<RunSpec> = Vec::new();
    hr.push(run(section.name.clone()));
    let heading = ParagraphSpec {
        runs: hr,
        style: Some(String::from_str("Heading2")),
        align: None,
        spacing: if has_sub { Some(Spacing { line: None, before: None, after: Some(0) }) } else { None },
    };
    assert(heading@ == section_heading(sv)) by {
        assert(heading@.runs =~= seq![plain_run(sv.name)]);
    }
    let ghost hv = heading@;
    body.push(Block::Paragraph(heading));
    assert(blocks_view(body@) =~= start + seq![BlockV::Paragraph(hv)]);
    if is_long_separate {
        add_note(body, String::from_str("Use a separate sheet of paper"));
    }
    let ghost a1 = blocks_view(body@);
    if is_oral {
        add_note(body, String::from_str("To be completed orally"));
    }
    let ghost a2 = blocks_view(body@);
    match &section.subtitle {
        Some(st) => {
            add_note(body, st.clone());
        },
        None => {},
    }
    assert(blocks_view(body@) =~= start + section_intro(sv)) by {
        assert(a1 =~= start + seq![BlockV::Paragraph(hv)] + (if is_long_separate {
            seq![note_paragraph("Use a separate sheet of paper"@)]
        } else {
            Seq::empty()
        }));
        assert(a2 =~= a1 + (if is_oral {
            seq![note_paragraph("To be completed orally"@)]
        } else {
            Seq::empty()
        }));
    }
    let ghost mid = blocks_view(body@);
    let usable = usable_width;
    match section.section_type {
        Some(SectionType::Long) => {
            add_long_questions(body, section, metrics.chars_per_line);
        },
        Some(SectionType::MatchingV) => {
            add_matching_v(body, section, p1, p2);
        },
        Some(SectionType::MatchingH) => {
            add_matching_h(body, section, usable, metrics.blank_column_width);
        },
        Some(SectionType::Blanks) => {
            add_blanks_questions(body, section);
        },
        Some(SectionType::Oral) => {
            add_oral_questions(body, section, &test_data.title, usable, metrics.score_column_width);
        },
        _ => {
            add_short_questions(body, section, metrics.short_em_spaces);
        },
    }
    assert(blocks_view(body@) =~= mid + section_questions(sv, test_data@.title, usable_width, *metrics, p1@, p2@));
}

fn add_note(body: &mut Vec<Block>, text: String)
    ensures
        blocks_view(final(body)@) == blocks_view(old(body)@).push(note_paragraph(text@)),
{
    let ghost before = blocks_view(body@);
    let mut runs: Vec<RunSpec> = Vec::new();
    runs.push(RunSpec { text, bold: false, italic: true, underline: false, size: Some(20), page_break: false });
    let p = ParagraphSpec { runs, style: None, align: None, spacing: Some(Spacing { line: None, before: None, after: Some(12) }) };
    let ghost pv = p@;
    assert(BlockV::Paragraph(pv) == note_paragraph(text@)) by {
        assert(pv.runs =~= seq![note_run(text@)]);
    }
    body.push(Block::Paragraph(p));
    assert(blocks_view(body@) =~= before.push(BlockV::Paragraph(pv)));
}

// ---------------------------------------------------------------------------
// The document
// ---------------------------------------------------------------------------

pub open spec fn shuffles_view(v: Seq<(Vec<usize>, Vec<usize>)>) -> Seq<(Seq<usize>, Seq<usize>)> {
    v.map_values(|p: (Vec<usize>, Vec<usize>)| (p.0@, p.1@))
}

/// The blocks of the first `n` sections of a test.
pub open spec fn sections_blocks(
    t: TestDataV,
    n: nat,
    usable: u32,
    m: LayoutMetrics,
    shuffles: Seq<(Seq<usize>, Seq<usize>)>,
) -> Seq<BlockV>
    decreases n,
{
    if n == 0 {
        Seq::empty()
    } else {
        sections_blocks(t, (n - 1) as nat, usable, m, shuffles) + section_blocks(
            t.sections[n - 1],
            t.title,
            usable,
            m,
            shuffles[n - 1].0,
            shuffles[n - 1].1,
        )
    }
}

/// The document of a test: the template's setup, the name/date header on
/// the first page, the subject and title, then every section.
pub open spec fn document_of(
    t: TestDataV,
    info: TemplateInfoV,
    m: LayoutMetrics,
    shuffles: Seq<(Seq<usize>, Seq<usize>)>,
) -> DocumentV {
    DocumentV {
        setup: setup_of(info),
        first_header: Some(header_paragraph()),
        body: subject_and_title(t) + sections_blocks(t, t.sections.len(), usable_width_of(info), m, shuffles),
    }
}

/// Every matching section of the test can be labelled.
pub open spec fn test_labels_fit(t: TestDataV) -> bool {
    forall|i: int| 0 <= i < t.sections.len() ==> labels_fit(#[trigger] t.sections[i])
}

/// `shuffles` gives a shuffle for every vertical matching section.
pub open spec fn test_shuffles_fit(t: TestDataV, shuffles: Seq<(Seq<usize>, Seq<usize>)>) -> bool {
    &&& shuffles.len() == t.sections.len()
    &&& forall|i: int| 0 <= i < t.sections.len() ==> shuffles_fit(#[trigger] t.sections[i], shuffles[i].0, shuffles[i].1)
}

/// Lays out a test with the given shuffles of its vertical matching sections.
pub fn build_document(
    test_data: &TestData,
    template_info: &TemplateInfo,
    metrics: &LayoutMetrics,
    shuffles: &Vec<(Vec<usize>, Vec<usize>)>,
) -> (d: DocumentSpec)
    requires
        test_labels_fit(test_data@),
        test_shuffles_fit(test_data@, shuffles_view(shuffles@)),
        metrics.blank_column_width <= u32::MAX / 2,
    ensures
        d@ == document_of(test_data@, template_info@, *metrics, shuffles_view(shuffles@)),
{
    let setup = apply_template_info(template_info);
    let first_header = create_header_paragraph();
    let usable = template_info.usable_width();
    let ghost t = test_data@;
    let ghost sh = shuffles_view(shuffles@);
    let mut body: Vec<Block> = Vec::new();
    assert(blocks_view(body@) =~= Seq::<BlockV>::empty());
    add_subject_and_title(&mut body, test_data);
    assert(blocks_view(body@) =~= subject_and_title(t));
    let mut i: usize = 0;
    while i < test_data.sections.len()
        invariant
            i <= test_data.sections.len(),
            t == test_data@,
            sh == shuffles_view(shuffles@),
            test_labels_fit(t),
            test_shuffles_fit(t, sh),
            usable == usable_width_of(template_info@),
            metrics.blank_column_width <= u32::MAX / 2,
            blocks_view(body@) == subject_and_title(t) + sections_blocks(t, i as nat, usable, *metrics, sh),
        decreases test_data.sections.len() - i,
    {
        assert(t.sections[i as int] == test_data.sections@[i as int]@);
        assert(labels_fit(t.sections[i as int]));
        assert(shuffles_fit(t.sections[i as int], sh[i as int].0, sh[i as int].1));
        assert(sh[i as int] == (shuffles@[i as int].0@, shuffles@[i as int].1@));
        add_section(
            &mut body,
            &test_data.sections[i],
            test_data,
            usable,
            metrics,
            &shuffles[i].0,
            &shuffles[i].1,
        );
        i = i + 1;
    }
    DocumentSpec { setup, first_header: Some(first_header), body }
}

/// A section is shuffled: it is a vertical matching section with pairs.
pub open spec fn shuffles_needed(s: SectionV) -> bool {
    s.section_type == Some(SectionType::MatchingV) && matching_lefts(s.questions).len() > 0
}

/// Some section of the test is to be shuffled.
pub open spec fn needs_shuffle(t: TestDataV) -> bool {
    exists|i: int| 0 <= i < t.sections.len() && shuffles_needed(#[trigger] t.sections[i])
}

/// Lays out a test, shuffling every vertical matching section at random;
/// nothing when a section is to be shuffled and the operating system gives
/// no random seed.
pub fn generate_document(test_data: &TestData, template_info: &TemplateInfo, metrics: &LayoutMetrics) -> (r: Option<DocumentSpec>)
    requires
        test_labels_fit(test_data@),
        metrics.blank_column_width <= u32::MAX / 2,
    ensures
        match r {
            Some(d) => exists|shuffles: Seq<(Seq<usize>, Seq<usize>)>|
                test_shuffles_fit(test_data@, shuffles) && d@ == document_of(
                    test_data@,
                    template_info@,
                    *metrics,
                    shuffles,
                ),
            None => needs_shuffle(test_data@),
        },
{
    let ghost t = test_data@;
    let mut shuffles: Vec<(Vec<usize>, Vec<usize>)> = Vec::new();
    let mut i: usize = 0;
    while i < test_data.sections.len()
        invariant
            i <= test_data.sections.len(),
            t == test_data@,
            shuffles@.len() == i,
            forall|j: int| 0 <= j < i ==> shuffles_fit(#[trigger] t.sections[j], shuffles_view(shuffles@)[j].0, shuffles_view(shuffles@)[j].1),
        decreases test_data.sections.len() - i,
    {
        let section = &test_data.sections[i];
        assert(t.sections[i as int] == section@);
        let ghost before = shuffles_view(shuffles@);
        if section.section_type == Some(SectionType::MatchingV) {
            let (lefts, _rights) = collect_matching(section);
            let n = lefts.len();
            if n > 0 {
                let mut rng = match seeded_rng() {
                    Some(rng) => rng,
                    None => {
                        assert(needs_shuffle(t)) by {
                            assert(shuffles_needed(t.sections[i as int]));
                        }
                        return None;
                    },
                };
                let p1 = random_permutation(&mut rng, n);
                let p2 = random_permutation(&mut rng, n);
                shuffles.push((p1, p2));
            } else {
                let p1: Vec<usize> = Vec::new();
                let p2: Vec<usize> = Vec::new();
                assert(is_permutation(p1@, 0));
                shuffles.push((p1, p2));
            }
        } else {
            shuffles.push((Vec::new(), Vec::new()));
        }
        assert(shuffles_view(shuffles@) =~= before.push(shuffles_view(shuffles@)[i as int]));
        i = i + 1;
    }
    let ghost sh = shuffles_view(shuffles@);
    assert(test_shuffles_fit(t, sh));
    let d = build_document(test_data, template_info, metrics, &shuffles);
    assert(test_shuffles_fit(test_data@, sh) && d@ == document_of(test_data@, template_info@, *metrics, sh));
    Some(d)
}

/// Lays out a test, shuffling every vertical matching section at random,
/// and renders it as a `docx_rs` document ready to be packed into a file;
/// nothing when a section is to be shuffled and the operating system gives
/// no random seed.
pub fn generate_docx(test_data: &TestData, template_info: &TemplateInfo, metrics: &LayoutMetrics) -> (r: Option<docx_rs::Docx>)
    requires
        test_labels_fit(test_data@),
        metrics.blank_column_width <= u32::MAX / 2,
    ensures
        match r {
            Some(out) => exists|shuffles: Seq<(Seq<usize>, Seq<usize>)>|
                test_shuffles_fit(test_data@, shuffles) && crate::render::docx_model(out)
                    == crate::render::rendered_document(document_of(test_data@, template_info@, *metrics, shuffles)),
            None => needs_shuffle(test_data@),
        },
{
    let d = match generate_document(test_data, template_info, metrics) {
        Some(d) => d,
        None => {
            return None;
        },
    };
    let out = crate::render::render_document(&d);
    proof {
        let sh = choose|shuffles: Seq<(Seq<usize>, Seq<usize>)>|
            test_shuffles_fit(test_data@, shuffles) && d@ == document_of(test_data@, template_info@, *metrics, shuffles);
        assert(test_shuffles_fit(test_data@, sh) && crate::render::docx_model(out)
            == crate::render::rendered_document(document_of(test_data@, template_info@, *metrics, sh)));
    }
    Some(out)
}

// ---------------------------------------------------------------------------
// Laws
// ---------------------------------------------------------------------------

proof fn lemma_div_ceil_covers(n: nat, r: nat)
    requires
        r >= 1,
    ensures
        r * div_ceil(n, r) >= n,
        r * div_ceil(n, r) < n + r,
{
    let c = div_ceil(n, r);
    assert(c == (n + r - 1) / (r as int));
    assert(r * c >= n && r * c < n + r) by (nonlinear_arith)
        requires
            c == (n + r - 1) / (r as int),
            r >= 1,
            n >= 0,
    ;
}

/// The term bank of a horizontal matching section has one, two or three
/// rows, enough cells for every term, and of those row counts the one that
/// leaves the fewest cells empty, the fewest rows among equals; as a single
/// row never leaves a cell empty, that is always one row.
pub proof fn law_bank_rows_optimal(n: nat)
    ensures
        1 <= bank_rows(n) <= 3,
        bank_rows(n) == 1,
        bank_rows(n) * div_ceil(n, bank_rows(n)) >= n,
        forall|q: nat| 1 <= q <= 3 ==> empty_cells(n, bank_rows(n)) <= #[trigger] empty_cells(n, q),
        forall|q: nat| 1 <= q < bank_rows(n) ==> empty_cells(n, bank_rows(n)) < #[trigger] empty_cells(n, q),
{
    lemma_div_ceil_covers(n, 1);
    lemma_div_ceil_covers(n, 2);
    lemma_div_ceil_covers(n, 3);
    assert forall|q: nat| 1 <= q <= 3 implies empty_cells(n, bank_rows(n)) <= #[trigger] empty_cells(n, q) by {
        assert(q == 1 || q == 2 || q == 3);
    }
    assert forall|q: nat| 1 <= q < bank_rows(n) implies empty_cells(n, bank_rows(n)) < #[trigger] empty_cells(n, q) by {
        assert(q == 1 || q == 2);
    }
}

/// The number of assessment-sheet rows of the first `n` questions: one per
/// oral question and one per sub-point.
pub open spec fn sheet_row_count(qs: Seq<QuestionV>, n: nat) -> nat
    decreases n,
{
    if n == 0 {
        0
    } else {
        sheet_row_count(qs, (n - 1) as nat) + match qs[n - 1] {
            QuestionV::Oral { sub_points, .. } => 1 + sub_points.len(),
            _ => 0,
        }
    }
}

proof fn lemma_sheet_rows_len(qs: Seq<QuestionV>, n: nat, qw: nat, sw: nat)
    ensures
        sheet_rows(qs, n, qw, sw).len() == sheet_row_count(qs, n),
    decreases n,
{
    if n > 0 {
        lemma_sheet_rows_len(qs, (n - 1) as nat, qw, sw);
    }
}

/// The assessment sheet's table has a row for every oral question, a row
/// for every sub-point, and the notes row.
pub proof fn law_sheet_rows(title: Seq<char>, qs: Seq<QuestionV>, usable: u32, sw: u32)
    ensures
        sheet_blocks(title, qs, usable, sw)[3] matches BlockV::Table(t) && t.rows.len() == sheet_row_count(qs, qs.len()) + 1
            && t.rows.last() == notes_row(),
{
    lemma_sheet_rows_len(qs, qs.len(), question_width(usable, sw), sw as nat);
}

/// How often `c` occurs in `s`.
pub open spec fn count_char(s: Seq<char>, c: char) -> nat
    decreases s.len(),
{
    if s.len() == 0 {
        0
    } else {
        count_char(s.drop_last(), c) + if s.last() == c { 1nat } else { 0nat }
    }
}

/// How many runs of `rs` are underlined.
pub open spec fn count_underlined(rs: Seq<RunV>) -> nat
    decreases rs.len(),
{
    if rs.len() == 0 {
        0
    } else {
        count_underlined(rs.drop_last()) + if rs.last().underline { 1nat } else { 0nat }
    }
}

proof fn lemma_count_char_concat(a: Seq<char>, b: Seq<char>, c: char)
    ensures
        count_char(a + b, c) == count_char(a, c) + count_char(b, c),
    decreases b.len(),
{
    if b.len() == 0 {
        assert(a + b =~= a);
    } else {
        lemma_count_char_concat(a, b.drop_last(), c);
        assert((a + b).drop_last() =~= a + b.drop_last());
    }
}

proof fn lemma_count_underlined_concat(a: Seq<RunV>, b: Seq<RunV>)
    ensures
        count_underlined(a + b) == count_underlined(a) + count_underlined(b),
    decreases b.len(),
{
    if b.len() == 0 {
        assert(a + b =~= a);
    } else {
        lemma_count_underlined_concat(a, b.drop_last());
        assert((a + b).drop_last() =~= a + b.drop_last());
    }
}

proof fn lemma_count_char_none(s: Seq<char>, c: char)
    requires
        forall|i: int| 0 <= i < s.len() ==> s[i] != c,
    ensures
        count_char(s, c) == 0,
    decreases s.len(),
{
    if s.len() > 0 {
        lemma_count_char_none(s.drop_last(), c);
    }
}

proof fn lemma_count_underlined_none(rs: Seq<RunV>)
    requires
        forall|i: int| 0 <= i < rs.len() ==> !(#[trigger] rs[i]).underline,
    ensures
        count_underlined(rs) == 0,
    decreases rs.len(),
{
    if rs.len() > 0 {
        lemma_count_underlined_none(rs.drop_last());
    }
}

proof fn lemma_markdown_not_underlined(s: Seq<char>, q: int)
    ensures
        forall|i: int| 0 <= i < runs_from(s, q).len() ==> !(#[trigger] runs_from(s, q)[i]).underline,
    decreases s.len() - q,
{
    crate::markdown::lemma_next_emphasis_bounds(s, q);
    if 0 <= q <= s.len() {
        match crate::markdown::next_emphasis(s, q) {
            Some((st, e, b)) => {
                lemma_markdown_not_underlined(s, e);
            },
            None => {},
        }
    }
}

/// A blanks question shows one underlined blank for every `_` of its text,
/// and no other underlined run.
pub proof fn law_blanks_one_per_underscore(s: Seq<char>)
    ensures
        count_underlined(blank_runs(s)) == count_char(s, '_'),
    decreases s.len(),
{
    lemma_first_index_of_bounds(s, '_', 0);
    let k = first_index_of(s, '_', 0);
    if k >= s.len() {
        lemma_count_char_none(s, '_');
        if s.len() > 0 {
            lemma_markdown_not_underlined(s, 0);
            lemma_count_underlined_none(markdown_runs(s));
        }
    } else {
        let head = s.take(k);
        let tail = s.skip(k + 1);
        law_blanks_one_per_underscore(tail);
        lemma_count_char_none(head, '_');
        if head.len() > 0 {
            lemma_markdown_not_underlined(head, 0);
            lemma_count_underlined_none(markdown_runs(head));
        }
        assert(count_underlined(part_runs(head)) == 0);
        let mark = seq![underlined(seq![em_space()])];
        assert(count_underlined(mark) == 1) by {
            assert(mark.drop_last() =~= Seq::<RunV>::empty());
            assert(count_underlined(mark.drop_last()) == 0);
            assert(mark.last().underline);
        }
        lemma_count_underlined_concat(part_runs(head), mark);
        lemma_count_underlined_concat(part_runs(head) + mark, blank_runs(tail));
        assert(s =~= head + (seq!['_'] + tail));
        lemma_count_char_concat(seq!['_'], tail, '_');
        lemma_count_char_concat(head, seq!['_'] + tail, '_');
        assert(count_char(seq!['_'], '_') == 1) by {
            assert(seq!['_'].drop_last() =~= Seq::<char>::empty());
            assert(count_char(seq!['_'].drop_last(), '_') == 0);
            assert(seq!['_'].last() == '_');
        }
    }
}


/// Every one of `0..n` occurs in a permutation of `0..n`.
proof fn lemma_permutation_onto(p: Seq<usize>, n: nat, x: nat)
    requires
        is_permutation(p, n),
        x < n,
    ensures
        exists|k: int| 0 <= k < p.len() && p[k] == x,
{
    broadcast use vstd::seq_lib::seq_to_set_is_finite;

    let q = p.map_values(|v: usize| v as int);
    assert(q.no_duplicates()) by {
        assert forall|i: int, j: int| 0 <= i < q.len() && 0 <= j < q.len() && i != j implies q[i] != q[j] by {
            assert(p[i] != p[j]);
        }
    }
    q.unique_seq_to_set();
    let r = vstd::set_lib::set_int_range(0, n as int);
    vstd::set_lib::lemma_int_range(0, n as int);
    assert(q.to_set().subset_of(r)) by {
        assert forall|v: int| q.to_set().contains(v) implies r.contains(v) by {
            let i = choose|i: int| 0 <= i < q.len() && q[i] == v;
            assert(p[i] < n);
        }
    }
    vstd::set_lib::lemma_subset_equality(q.to_set(), r);
    assert(r.contains(x as int));
    assert(q.contains(x as int));
    let k = choose|k: int| 0 <= k < q.len() && q[k] == x as int;
    assert(p[k] == x);
}

/// A multiset that holds `x` is `x` added to it with one `x` taken out.
proof fn lemma_multiset_reinsert<A>(m: vstd::multiset::Multiset<A>, x: A)
    requires
        m.count(x) > 0,
    ensures
        m.remove(x).insert(x) == m,
{
    broadcast use vstd::multiset::group_multiset_axioms;

    assert(m.remove(x).insert(x) =~= m);
}

/// Putting the items of `s` in the order of a permutation keeps each item,
/// as often as it occurs in `s`.
proof fn lemma_permute_multiset<A>(s: Seq<A>, p: Seq<usize>)
    requires
        is_permutation(p, s.len()),
    ensures
        permute(s, p).to_multiset() == s.to_multiset(),
    decreases s.len(),
{
    broadcast use vstd::seq_lib::group_to_multiset_ensures;

    let n = s.len();
    if n == 0 {
        assert(permute(s, p) =~= s);
    } else {
        lemma_permutation_onto(p, n, (n - 1) as nat);
        let k = choose|k: int| 0 <= k < p.len() && p[k] == n - 1;
        let p2 = p.remove(k);
        let s2 = s.drop_last();
        assert(is_permutation(p2, s2.len())) by {
            assert forall|i: int| 0 <= i < p2.len() implies #[trigger] p2[i] < s2.len() by {
                let j = if i < k { i } else { i + 1 };
                assert(p2[i] == p[j]);
                assert(p[j] != p[k]);
            }
            assert forall|i: int, j: int| 0 <= i < p2.len() && 0 <= j < p2.len() && i != j implies p2[i] != p2[j] by {
                let a = if i < k { i } else { i + 1 };
                let b = if j < k { j } else { j + 1 };
                assert(p2[i] == p[a] && p2[j] == p[b]);
            }
        }
        lemma_permute_multiset(s2, p2);
        let t = permute(s, p);
        assert(t.remove(k) =~= permute(s2, p2)) by {
            assert forall|i: int| 0 <= i < p2.len() implies #[trigger] t.remove(k)[i] == permute(s2, p2)[i] by {
                assert(p2[i] < s2.len());
            }
        }
        assert(t[k] == s.last());
        assert(t.to_multiset().count(s.last()) > 0) by {
            assert(t.contains(s.last()));
        }
        lemma_multiset_reinsert(t.to_multiset(), s.last());
        assert(s2.push(s.last()) =~= s);
    }
}

/// A vertical matching table lists each term and each definition of the
/// section as often as the section has it, whatever order the shuffles
/// chose.
pub proof fn law_matching_v_keeps_pairs(qs: Seq<QuestionV>, p1: Seq<usize>, p2: Seq<usize>)
    requires
        is_permutation(p1, matching_lefts(qs).len()),
        is_permutation(p2, matching_lefts(qs).len()),
    ensures
        permute(matching_lefts(qs), p1).to_multiset() == matching_lefts(qs).to_multiset(),
        permute(permute(matching_rights(qs), p1), p2).to_multiset() == matching_rights(qs).to_multiset(),
{
    lemma_matching_lens(qs);
    lemma_permute_multiset(matching_lefts(qs), p1);
    lemma_permute_multiset(matching_rights(qs), p1);
    lemma_permute_multiset(permute(matching_rights(qs), p1), p2);
}

/// A section of no kind is laid out exactly as a short-answer section.
pub proof fn law_untyped_section_is_short(
    s: SectionV,
    title: Seq<char>,
    usable: u32,
    m: LayoutMetrics,
    p1: Seq<usize>,
    p2: Seq<usize>,
)
    ensures
        section_blocks(SectionV { section_type: None, ..s }, title, usable, m, p1, p2)
            == section_blocks(SectionV { section_type: Some(SectionType::Short), ..s }, title, usable, m, p1, p2),
{
}

proof fn lemma_sections_ignore_shuffles(
    t: TestDataV,
    n: nat,
    usable: u32,
    m: LayoutMetrics,
    a: Seq<(Seq<usize>, Seq<usize>)>,
    b: Seq<(Seq<usize>, Seq<usize>)>,
)
    requires
        n <= t.sections.len(),
        forall|i: int| 0 <= i < t.sections.len() ==> (#[trigger] t.sections[i]).section_type != Some(SectionType::MatchingV),
    ensures
        sections_blocks(t, n, usable, m, a) == sections_blocks(t, n, usable, m, b),
    decreases n,
{
    if n > 0 {
        lemma_sections_ignore_shuffles(t, (n - 1) as nat, usable, m, a, b);
        assert(t.sections[n - 1].section_type != Some(SectionType::MatchingV));
    }
}

/// Shuffles only reorder vertical matching sections: a test without one is
/// laid out as the same document whatever shuffles are drawn.
pub proof fn law_no_vertical_matching_one_document(
    t: TestDataV,
    info: TemplateInfoV,
    m: LayoutMetrics,
    a: Seq<(Seq<usize>, Seq<usize>)>,
    b: Seq<(Seq<usize>, Seq<usize>)>,
)
    requires
        forall|i: int| 0 <= i < t.sections.len() ==> (#[trigger] t.sections[i]).section_type != Some(SectionType::MatchingV),
    ensures
        document_of(t, info, m, a) == document_of(t, info, m, b),
{
    lemma_sections_ignore_shuffles(t, t.sections.len(), usable_width_of(info), m, a, b);
}


// ---------------------------------------------------------------------------
// What each kind of section shows
// ---------------------------------------------------------------------------

/// How often `b` occurs in `s`.
pub open spec fn occurrences(s: Seq<BlockV>, b: BlockV) -> nat
    decreases s.len(),
{
    if s.len() == 0 {
        0
    } else {
        occurrences(s.drop_last(), b) + if s.last() == b {
            1nat
        } else {
            0nat
        }
    }
}

proof fn lemma_occurrences_add(a: Seq<BlockV>, c: Seq<BlockV>, b: BlockV)
    ensures
        occurrences(a + c, b) == occurrences(a, b) + occurrences(c, b),
    decreases c.len(),
{
    if c.len() == 0 {
        assert(a + c =~= a);
    } else {
        lemma_occurrences_add(a, c.drop_last(), b);
        assert((a + c).drop_last() =~= a + c.drop_last());
        assert((a + c).last() == c.last());
    }
}

proof fn lemma_occurrences_one(x: BlockV, b: BlockV)
    ensures
        occurrences(seq![x], b) == (if x == b {
            1nat
        } else {
            0nat
        }),
{
    let one = seq![x];
    assert(one.drop_last() =~= Seq::<BlockV>::empty());
    assert(one.last() == x);
    assert(occurrences(Seq::<BlockV>::empty(), b) == 0);
    assert(occurrences(one, b) == occurrences(one.drop_last(), b) + (if one.last() == b {
        1nat
    } else {
        0nat
    }));
}

proof fn lemma_occurrences_absent(s: Seq<BlockV>, b: BlockV)
    requires
        forall|i: int| 0 <= i < s.len() ==> s[i] != b,
    ensures
        occurrences(s, b) == 0,
    decreases s.len(),
{
    if s.len() > 0 {
        let init = s.drop_last();
        assert forall|i: int| 0 <= i < init.len() implies init[i] != b by {
            assert(init[i] == s[i]);
        }
        lemma_occurrences_absent(init, b);
        assert(s.last() == s[s.len() - 1]);
    }
}

proof fn lemma_occurrences_copies(x: BlockV, n: nat)
    ensures
        occurrences(copies(x, n), x) == n,
    decreases n,
{
    if n > 0 {
        lemma_occurrences_copies(x, (n - 1) as nat);
        assert(copies(x, n).drop_last() =~= copies(x, (n - 1) as nat));
    }
}

/// A note under a section heading: a paragraph followed by a little space.
pub open spec fn is_note_block(b: BlockV) -> bool {
    b matches BlockV::Paragraph(p) && p.spacing == Some(space_after(12))
}

/// None of `s` is a note.
pub open spec fn no_notes(s: Seq<BlockV>) -> bool {
    forall|i: int| 0 <= i < s.len() ==> !is_note_block(#[trigger] s[i])
}

proof fn lemma_no_notes_add(a: Seq<BlockV>, c: Seq<BlockV>)
    requires
        no_notes(a),
        no_notes(c),
    ensures
        no_notes(a + c),
{
    assert forall|i: int| 0 <= i < (a + c).len() implies !is_note_block(#[trigger] (a + c)[i]) by {
        if i < a.len() {
            assert((a + c)[i] == a[i]);
        } else {
            assert((a + c)[i] == c[i - a.len()]);
        }
    }
}

proof fn lemma_short_no_notes(qs: Seq<QuestionV>, n: nat, separate: bool, em: nat)
    requires
        n <= qs.len(),
    ensures
        no_notes(short_blocks(qs, n, separate, em)),
    decreases n,
{
    if n > 0 {
        lemma_short_no_notes(qs, (n - 1) as nat, separate, em);
        let qb = short_question_blocks((n - 1) as nat, qs[n - 1], separate, em);
        assert(no_notes(qb)) by {
            match qs[n - 1] {
                QuestionV::Text { text, lines } => {
                    let k: nat = match lines {
                        Some(c) => c as nat,
                        None => 1,
                    };
                    let head = seq![
                        BlockV::Paragraph(
                            question_paragraph((n - 1) as nat, text, if separate { Some(space_after(280)) } else { None }),
                        ),
                    ];
                    assert(no_notes(head));
                    assert(no_notes(copies(answer_line(em), k)));
                    lemma_no_notes_add(head, copies(answer_line(em), k));
                },
                _ => {},
            }
        }
        lemma_no_notes_add(short_blocks(qs, (n - 1) as nat, separate, em), qb);
    }
}

proof fn lemma_long_no_notes(qs: Seq<QuestionV>, n: nat, separate: bool, em: nat)
    requires
        n <= qs.len(),
    ensures
        no_notes(long_blocks(qs, n, separate, em)),
    decreases n,
{
    if n > 0 {
        lemma_long_no_notes(qs, (n - 1) as nat, separate, em);
        let qb = long_question_blocks((n - 1) as nat, qs[n - 1], separate, em);
        assert(no_notes(qb)) by {
            match qs[n - 1] {
                QuestionV::Text { text, lines } => {
                    let k: nat = match lines {
                        Some(c) => c as nat,
                        None => 10,
                    };
                    let head = seq![
                        BlockV::Paragraph(
                            question_paragraph(
                                (n - 1) as nat,
                                text,
                                if separate {
                                    Some(Spacing { line: Some(280), before: None, after: Some(0) })
                                } else {
                                    None
                                },
                            ),
                        ),
                    ];
                    let tail = if separate {
                        Seq::empty()
                    } else {
                        copies(answer_line(em), k)
                    };
                    assert(no_notes(head));
                    assert(no_notes(tail));
                    lemma_no_notes_add(head, tail);
                },
                _ => {},
            }
        }
        lemma_no_notes_add(long_blocks(qs, (n - 1) as nat, separate, em), qb);
    }
}

proof fn lemma_blanks_no_notes(qs: Seq<QuestionV>, n: nat)
    requires
        n <= qs.len(),
    ensures
        no_notes(blanks_blocks(qs, n)),
    decreases n,
{
    if n > 0 {
        lemma_blanks_no_notes(qs, (n - 1) as nat);
        let qb = blank_question_blocks((n - 1) as nat, qs[n - 1]);
        assert(no_notes(qb));
        lemma_no_notes_add(blanks_blocks(qs, (n - 1) as nat), qb);
    }
}

proof fn lemma_oral_no_notes(qs: Seq<QuestionV>, n: nat)
    requires
        n <= qs.len(),
    ensures
        no_notes(oral_list_blocks(qs, n)),
    decreases n,
{
    if n > 0 {
        lemma_oral_no_notes(qs, (n - 1) as nat);
        let qb = oral_question_blocks((n - 1) as nat, qs[n - 1]);
        assert(no_notes(qb));
        lemma_no_notes_add(oral_list_blocks(qs, (n - 1) as nat), qb);
    }
}

proof fn lemma_questions_no_notes(
    s: SectionV,
    title: Seq<char>,
    usable: u32,
    m: LayoutMetrics,
    p1: Seq<usize>,
    p2: Seq<usize>,
)
    ensures
        no_notes(section_questions(s, title, usable, m, p1, p2)),
{
    let qs = s.questions;
    match s.section_type {
        Some(SectionType::Long) => lemma_long_no_notes(qs, qs.len(), s.separate_sheet, (m.chars_per_line / 2) as nat),
        Some(SectionType::MatchingV) => {
            assert(no_notes(matching_v_blocks(qs, p1, p2)));
        },
        Some(SectionType::MatchingH) => {
            assert(no_notes(matching_h_blocks(qs, usable, m.blank_column_width)));
        },
        Some(SectionType::Blanks) => lemma_blanks_no_notes(qs, qs.len()),
        Some(SectionType::Oral) => {
            lemma_oral_no_notes(qs, qs.len());
            assert(no_notes(sheet_blocks(title, qs, usable, m.score_column_width)));
            lemma_no_notes_add(oral_list_blocks(qs, qs.len()), sheet_blocks(title, qs, usable, m.score_column_width));
        },
        _ => lemma_short_no_notes(qs, qs.len(), s.separate_sheet, m.short_em_spaces as nat),
    }
}

/// A block that is neither a section's heading nor a note does not occur
/// among the heading and notes of the section.
proof fn lemma_intro_without(s: SectionV, b: BlockV)
    requires
        b != BlockV::Paragraph(section_heading(s)),
        !is_note_block(b),
    ensures
        occurrences(section_intro(s), b) == 0,
{
    let intro = section_intro(s);
    assert forall|i: int| 0 <= i < intro.len() implies intro[i] != b by {
        if i > 0 {
            assert(is_note_block(intro[i]));
        }
    }
    lemma_occurrences_absent(intro, b);
}

/// The note that a long-answer section is answered on a separate sheet.
pub open spec fn separate_sheet_note() -> BlockV {
    note_paragraph("Use a separate sheet of paper"@)
}

proof fn lemma_other_note(t: Seq<char>)
    requires
        t != "Use a separate sheet of paper"@,
    ensures
        note_paragraph(t) != separate_sheet_note(),
{
    if note_paragraph(t) == separate_sheet_note() {
        assert(note_paragraph(t)->Paragraph_0.runs[0].text == t);
        assert(separate_sheet_note()->Paragraph_0.runs[0].text == "Use a separate sheet of paper"@);
    }
}

/// The note "Use a separate sheet of paper" is shown under a section's
/// heading once when it is a long-answer section answered on a separate
/// sheet, and nowhere else in the section (but for a subtitle that says the
/// very same words).
pub proof fn law_separate_sheet_note(
    s: SectionV,
    title: Seq<char>,
    usable: u32,
    m: LayoutMetrics,
    p1: Seq<usize>,
    p2: Seq<usize>,
)
    ensures
        occurrences(section_blocks(s, title, usable, m, p1, p2), separate_sheet_note()) == (if s.section_type
            == Some(SectionType::Long) && s.separate_sheet {
            1nat
        } else {
            0nat
        }) + (if s.subtitle == Some("Use a separate sheet of paper"@) {
            1nat
        } else {
            0nat
        }),
{
    let note = separate_sheet_note();
    let heading = seq![BlockV::Paragraph(section_heading(s))];
    let sep: Seq<BlockV> = if s.section_type == Some(SectionType::Long) && s.separate_sheet {
        seq![note]
    } else {
        Seq::empty()
    };
    let oral: Seq<BlockV> = if s.section_type == Some(SectionType::Oral) {
        seq![note_paragraph("To be completed orally"@)]
    } else {
        Seq::empty()
    };
    let sub: Seq<BlockV> = match s.subtitle {
        Some(st) => seq![note_paragraph(st)],
        None => Seq::empty(),
    };
    let qs = section_questions(s, title, usable, m, p1, p2);
    assert(section_blocks(s, title, usable, m, p1, p2) == heading + sep + oral + sub + qs);
    lemma_occurrences_add(heading + sep + oral + sub, qs, note);
    lemma_occurrences_add(heading + sep + oral, sub, note);
    lemma_occurrences_add(heading + sep, oral, note);
    lemma_occurrences_add(heading, sep, note);
    lemma_occurrences_one(BlockV::Paragraph(section_heading(s)), note);
    if s.section_type == Some(SectionType::Long) && s.separate_sheet {
        lemma_occurrences_one(note, note);
    }
    if s.section_type == Some(SectionType::Oral) {
        assert(note_paragraph("To be completed orally"@) != note) by {
            reveal_strlit("To be completed orally");
            reveal_strlit("Use a separate sheet of paper");
            assert("To be completed orally"@.len() != "Use a separate sheet of paper"@.len());
            lemma_other_note("To be completed orally"@);
        }
        lemma_occurrences_one(note_paragraph("To be completed orally"@), note);
    }
    match s.subtitle {
        Some(st) => {
            if st != "Use a separate sheet of paper"@ {
                lemma_other_note(st);
            }
            lemma_occurrences_one(note_paragraph(st), note);
        },
        None => {},
    }
    lemma_questions_no_notes(s, title, usable, m, p1, p2);
    assert forall|i: int| 0 <= i < qs.len() implies qs[i] != note by {
        assert(!is_note_block(qs[i]));
    }
    lemma_occurrences_absent(qs, note);
}

/// The answer lines owed to the first `n` questions of a long-answer
/// section: as many as each asks for, ten when it does not say.
pub open spec fn long_answer_lines(qs: Seq<QuestionV>, n: nat) -> nat
    decreases n,
{
    if n == 0 {
        0
    } else {
        long_answer_lines(qs, (n - 1) as nat) + match qs[n - 1] {
            QuestionV::Text { lines, .. } => match lines {
                Some(k) => k as nat,
                None => 10nat,
            },
            _ => 0nat,
        }
    }
}

proof fn lemma_long_lines(qs: Seq<QuestionV>, n: nat, separate: bool, em: nat)
    requires
        n <= qs.len(),
    ensures
        occurrences(long_blocks(qs, n, separate, em), answer_line(em)) == (if separate {
            0
        } else {
            long_answer_lines(qs, n)
        }),
    decreases n,
{
    if n > 0 {
        lemma_long_lines(qs, (n - 1) as nat, separate, em);
        let qb = long_question_blocks((n - 1) as nat, qs[n - 1], separate, em);
        lemma_occurrences_add(long_blocks(qs, (n - 1) as nat, separate, em), qb, answer_line(em));
        match qs[n - 1] {
            QuestionV::Text { text, lines } => {
                let k: nat = match lines {
                    Some(c) => c as nat,
                    None => 10,
                };
                let p = BlockV::Paragraph(
                    question_paragraph(
                        (n - 1) as nat,
                        text,
                        if separate {
                            Some(Spacing { line: Some(280), before: None, after: Some(0) })
                        } else {
                            None
                        },
                    ),
                );
                let tail = if separate {
                    Seq::empty()
                } else {
                    copies(answer_line(em), k)
                };
                assert(qb == seq![p] + tail);
                lemma_occurrences_add(seq![p], tail, answer_line(em));
                lemma_occurrences_one(p, answer_line(em));
                if separate {
                    lemma_occurrences_absent(tail, answer_line(em));
                } else {
                    lemma_occurrences_copies(answer_line(em), k);
                }
            },
            _ => {
                lemma_occurrences_absent(qb, answer_line(em));
            },
        }
    }
}

/// A long-answer section gives each question the answer lines it asks for,
/// ten when it does not say, each of half a line's width in em spaces; on
/// a separate sheet it gives none.
pub proof fn law_long_answer_lines(
    s: SectionV,
    title: Seq<char>,
    usable: u32,
    m: LayoutMetrics,
    p1: Seq<usize>,
    p2: Seq<usize>,
)
    requires
        s.section_type == Some(SectionType::Long),
    ensures
        occurrences(section_blocks(s, title, usable, m, p1, p2), answer_line((m.chars_per_line / 2) as nat)) == (if s.separate_sheet {
            0
        } else {
            long_answer_lines(s.questions, s.questions.len())
        }),
{
    let em = (m.chars_per_line / 2) as nat;
    lemma_intro_without(s, answer_line(em));
    lemma_long_lines(s.questions, s.questions.len(), s.separate_sheet, em);
    lemma_occurrences_add(section_intro(s), section_questions(s, title, usable, m, p1, p2), answer_line(em));
}

/// The text of a run sequence, in order.
pub open spec fn runs_text(rs: Seq<RunV>) -> Seq<char>
    decreases rs.len(),
{
    if rs.len() == 0 {
        Seq::empty()
    } else {
        runs_text(rs.drop_last()) + rs.last().text
    }
}

/// The text of a cell: the texts of its paragraphs, in order.
pub open spec fn paragraphs_text(ps: Seq<ParagraphV>) -> Seq<char>
    decreases ps.len(),
{
    if ps.len() == 0 {
        Seq::empty()
    } else {
        paragraphs_text(ps.drop_last()) + runs_text(ps.last().runs)
    }
}

pub open spec fn cell_text(c: CellV) -> Seq<char> {
    paragraphs_text(c.paragraphs)
}

/// A cell to write an answer in: it starts with an underlined stretch of
/// blank space.
pub open spec fn is_answer_blank(c: CellV) -> bool {
    &&& c.paragraphs.len() > 0
    &&& c.paragraphs[0].runs.len() > 0
    &&& c.paragraphs[0].runs[0].underline
    &&& c.paragraphs[0].runs[0].text.len() > 0
}

/// The table of a block (no rows for a paragraph).
pub open spec fn table_of(b: BlockV) -> TableV {
    match b {
        BlockV::Table(t) => t,
        BlockV::Paragraph(_) => TableV { rows: Seq::empty(), borderless: false, width: None },
    }
}

/// The cell of the `j`-th definition of a definitions table: two
/// definitions to a row, each after its answer blank.
pub open spec fn definition_cell(t: TableV, j: int) -> CellV {
    t.rows[j / 2][2 * (j % 2) + 1]
}

/// The answer blank before the `j`-th definition of a definitions table.
pub open spec fn answer_cell(t: TableV, j: int) -> CellV {
    t.rows[j / 2][2 * (j % 2)]
}

proof fn lemma_one_run_cell(c: CellV, r: RunV)
    requires
        c.paragraphs.len() == 1,
        c.paragraphs[0].runs == seq![r],
    ensures
        cell_text(c) == r.text,
{
    let rs = seq![r];
    assert(rs.drop_last() =~= Seq::<RunV>::empty());
    assert(rs.last() == r);
    assert(runs_text(Seq::<RunV>::empty()) == Seq::<char>::empty());
    assert(runs_text(rs) == runs_text(rs.drop_last()) + rs.last().text);
    assert(runs_text(rs) =~= r.text);
    let ps = c.paragraphs;
    assert(ps.drop_last() =~= Seq::<ParagraphV>::empty());
    assert(ps.last() == ps[0]);
    assert(paragraphs_text(Seq::<ParagraphV>::empty()) == Seq::<char>::empty());
    assert(paragraphs_text(ps) == paragraphs_text(ps.drop_last()) + runs_text(ps.last().runs));
    assert(paragraphs_text(ps) =~= runs_text(ps[0].runs));
}

proof fn lemma_bank_cells(terms: Seq<Seq<char>>)
    requires
        terms.len() > 0,
    ensures
        bank_table(terms).rows.len() == 1,
        bank_table(terms).rows[0].len() == terms.len(),
        forall|i: int| 0 <= i < terms.len() ==> cell_text(bank_table(terms).rows[0][i]) == labelled(i as nat, #[trigger] terms[i]),
{
    law_bank_rows_optimal(terms.len());
    let bank = bank_table(terms);
    assert(div_ceil(terms.len(), 1) == terms.len());
    assert forall|i: int| 0 <= i < terms.len() implies cell_text(bank.rows[0][i]) == labelled(i as nat, #[trigger] terms[i]) by {
        assert(bank.rows[0][i] == bank_cell(i as nat, terms));
        lemma_one_run_cell(bank.rows[0][i], RunV { size: Some(20), ..plain_run(labelled(i as nat, terms[i])) });
    }
}

proof fn lemma_definition_cell(defs: Seq<Seq<char>>, usable: u32, bw: u32, j: int)
    requires
        0 <= j < defs.len(),
    ensures
        j / 2 < definitions_table(defs, usable, bw).rows.len(),
        definitions_table(defs, usable, bw).rows[j / 2].len() == 4,
        cell_text(definitions_table(defs, usable, bw).rows[j / 2][2 * (j % 2) + 1]) == defs[j],
        is_answer_blank(definitions_table(defs, usable, bw).rows[j / 2][2 * (j % 2)]),
{
    let table = definitions_table(defs, usable, bw);
    let dw = definition_width(usable, bw);
    let i = j / 2;
    assert(div_ceil(defs.len(), 2) == (defs.len() + 1) / 2);
    assert(0 <= i < div_ceil(defs.len(), 2));
    let row = definition_pair(defs, 2 * i, bw as nat, dw) + definition_pair(defs, 2 * i + 1, bw as nat, dw);
    assert(table.rows[i] == row);
    let text = text_cell(dw, defs[j]);
    let blank = blank_cell(bw as nat);
    if j % 2 == 0 {
        assert(j == 2 * i);
        assert(definition_pair(defs, 2 * i, bw as nat, dw) == seq![blank, text]);
        assert(row[1] == text);
        assert(row[0] == blank);
    } else {
        assert(j == 2 * i + 1);
        assert(definition_pair(defs, 2 * i + 1, bw as nat, dw) == seq![blank, text]);
        assert(row[3] == text);
        assert(row[2] == blank);
    }
    lemma_one_run_cell(text, plain_run(defs[j]));
    assert(blank.paragraphs[0].runs[0].text.len() == 5);
}

proof fn lemma_definition_cells(defs: Seq<Seq<char>>, usable: u32, bw: u32)
    ensures
        definitions_table(defs, usable, bw).rows.len() == (defs.len() + 1) / 2,
        forall|j: int| 0 <= j < defs.len() ==> {
            &&& definitions_table(defs, usable, bw).rows[j / 2].len() == 4
            &&& cell_text(#[trigger] definition_cell(definitions_table(defs, usable, bw), j)) == defs[j]
            &&& is_answer_blank(answer_cell(definitions_table(defs, usable, bw), j))
        },
{
    assert(div_ceil(defs.len(), 2) == (defs.len() + 1) / 2);
    assert forall|j: int| 0 <= j < defs.len() implies {
        &&& definitions_table(defs, usable, bw).rows[j / 2].len() == 4
        &&& cell_text(#[trigger] definition_cell(definitions_table(defs, usable, bw), j)) == defs[j]
        &&& is_answer_blank(answer_cell(definitions_table(defs, usable, bw), j))
    } by {
        lemma_definition_cell(defs, usable, bw, j);
    }
}

/// A horizontal matching section with at least one pair shows, after its
/// heading and notes, exactly two tables: a term bank of one row with every
/// term, labelled A, B, C, ... in order, and a definitions table with two
/// definitions to a row, each in question order after an answer blank.
pub proof fn law_horizontal_matching_layout(
    s: SectionV,
    title: Seq<char>,
    usable: u32,
    m: LayoutMetrics,
    p1: Seq<usize>,
    p2: Seq<usize>,
)
    requires
        s.section_type == Some(SectionType::MatchingH),
        matching_lefts(s.questions).len() > 0,
    ensures
        ({
            let b = section_blocks(s, title, usable, m, p1, p2);
            let k = section_intro(s).len() as int;
            let terms = matching_lefts(s.questions);
            let defs = matching_rights(s.questions);
            let bank = table_of(b[k]);
            let table = table_of(b[k + 1]);
            &&& b.len() == k + 2
            &&& b[k] is Table
            &&& b[k + 1] is Table
            &&& defs.len() == terms.len()
            &&& bank.rows.len() == 1
            &&& bank.rows[0].len() == terms.len()
            &&& forall|i: int| 0 <= i < terms.len() ==> cell_text(bank.rows[0][i]) == labelled(i as nat, #[trigger] terms[i])
            &&& table.rows.len() == (defs.len() + 1) / 2
            &&& forall|j: int| 0 <= j < defs.len() ==> {
                &&& table.rows[j / 2].len() == 4
                &&& cell_text(#[trigger] definition_cell(table, j)) == defs[j]
                &&& is_answer_blank(answer_cell(table, j))
            }
        }),
{
    let qs = s.questions;
    let terms = matching_lefts(qs);
    let defs = matching_rights(qs);
    let bw = m.blank_column_width;
    lemma_matching_lens(qs);
    let b = section_blocks(s, title, usable, m, p1, p2);
    let k = section_intro(s).len() as int;
    let bank = bank_table(terms);
    let table = definitions_table(defs, usable, bw);
    assert(section_questions(s, title, usable, m, p1, p2) == matching_h_blocks(qs, usable, bw));
    assert(matching_h_blocks(qs, usable, bw) == seq![BlockV::Table(bank), BlockV::Table(table)]);
    assert(b == section_intro(s) + seq![BlockV::Table(bank), BlockV::Table(table)]);
    assert(b[k] == BlockV::Table(bank));
    assert(b[k + 1] == BlockV::Table(table));
    lemma_bank_cells(terms);
    lemma_definition_cells(defs, usable, bw);
}

proof fn lemma_two_run_cell(c: CellV, a: RunV, b: RunV)
    requires
        c.paragraphs.len() == 1,
        c.paragraphs[0].runs == seq![a, b],
    ensures
        cell_text(c) == a.text + b.text,
{
    let rs = seq![a, b];
    let one = seq![a];
    assert(rs.drop_last() =~= one);
    assert(one.drop_last() =~= Seq::<RunV>::empty());
    assert(runs_text(Seq::<RunV>::empty()) == Seq::<char>::empty());
    assert(runs_text(one) == runs_text(one.drop_last()) + one.last().text);
    assert(runs_text(rs) == runs_text(rs.drop_last()) + rs.last().text);
    assert(runs_text(rs) =~= a.text + b.text);
    let ps = c.paragraphs;
    assert(ps.drop_last() =~= Seq::<ParagraphV>::empty());
    assert(paragraphs_text(Seq::<ParagraphV>::empty()) == Seq::<char>::empty());
    assert(paragraphs_text(ps) == paragraphs_text(ps.drop_last()) + runs_text(ps.last().runs));
    assert(paragraphs_text(ps) =~= runs_text(ps[0].runs));
}

/// A vertical matching section with at least one pair shows, after its
/// heading and notes, one table with a row per pair: row `i` holds an
/// answer blank and the term that the pair shuffle `p1` put there, and,
/// labelled with the `i`-th letter, the definition that the second shuffle
/// `p2` put there. When the definitions differ from each other, the
/// definition in a row belongs to the term in that row exactly when `p2`
/// leaves that row in place: the definitions are shuffled apart from their
/// terms.
pub proof fn law_vertical_matching_layout(
    s: SectionV,
    title: Seq<char>,
    usable: u32,
    m: LayoutMetrics,
    p1: Seq<usize>,
    p2: Seq<usize>,
)
    requires
        s.section_type == Some(SectionType::MatchingV),
        matching_lefts(s.questions).len() > 0,
        shuffles_fit(s, p1, p2),
    ensures
        ({
            let b = section_blocks(s, title, usable, m, p1, p2);
            let k = section_intro(s).len() as int;
            let terms = matching_lefts(s.questions);
            let defs = matching_rights(s.questions);
            let t = table_of(b[k]);
            &&& b.len() == k + 1
            &&& b[k] is Table
            &&& t.rows.len() == terms.len()
            &&& forall|i: int| 0 <= i < terms.len() ==> {
                &&& (#[trigger] t.rows[i]).len() == 2
                &&& cell_text(t.rows[i][0]) == seq![em_space(), em_space(), ' '] + terms[p1[i] as int]
                &&& cell_text(t.rows[i][1]) == labelled(i as nat, defs[p1[p2[i] as int] as int])
                &&& defs.no_duplicates() ==> (defs[p1[p2[i] as int] as int] == defs[p1[i] as int] <==> p2[i] == i)
            }
        }),
{
    let qs = s.questions;
    let terms = matching_lefts(qs);
    let defs = matching_rights(qs);
    let n = terms.len();
    lemma_matching_lens(qs);
    let b = section_blocks(s, title, usable, m, p1, p2);
    let k = section_intro(s).len() as int;
    let pl = permute(terms, p1);
    let pr = permute(permute(defs, p1), p2);
    let t = matching_v_table(pl, pr);
    assert(section_questions(s, title, usable, m, p1, p2) == matching_v_blocks(qs, p1, p2));
    assert(matching_v_blocks(qs, p1, p2) == seq![BlockV::Table(t)]);
    assert(b == section_intro(s) + seq![BlockV::Table(t)]);
    assert(b[k] == BlockV::Table(t));
    assert forall|i: int| 0 <= i < n implies {
        &&& (#[trigger] t.rows[i]).len() == 2
        &&& cell_text(t.rows[i][0]) == seq![em_space(), em_space(), ' '] + terms[p1[i] as int]
        &&& cell_text(t.rows[i][1]) == labelled(i as nat, defs[p1[p2[i] as int] as int])
        &&& defs.no_duplicates() ==> (defs[p1[p2[i] as int] as int] == defs[p1[i] as int] <==> p2[i] == i)
    } by {
        assert(p1[i] < n && p2[i] < n);
        assert(pl[i] == terms[p1[i] as int]);
        assert(permute(defs, p1)[p2[i] as int] == defs[p1[p2[i] as int] as int]);
        assert(pr[i] == defs[p1[p2[i] as int] as int]);
        assert(t.rows[i] == seq![term_answer_cell(pl[i]), labelled_cell(i as nat, pr[i])]);
        let blank = underlined(seq![em_space(), em_space()]);
        let term = plain_run(seq![' '] + pl[i]);
        lemma_two_run_cell(t.rows[i][0], blank, term);
        assert(blank.text + term.text =~= seq![em_space(), em_space(), ' '] + terms[p1[i] as int]);
        lemma_one_run_cell(t.rows[i][1], plain_run(labelled(i as nat, pr[i])));
        if defs.no_duplicates() && defs[p1[p2[i] as int] as int] == defs[p1[i] as int] {
            assert(p1[p2[i] as int] == p1[i]);
            assert(p2[i] as int == i);
        }
    }
}

} // verus!
