//! The parsed test: sections of questions, each section of one question kind.
use vstd::prelude::*;

verus! {

/// A matching question: a term and the definition it goes with.
#[derive(Clone, Debug)]
pub struct MatchingQuestion {
    pub left: String,
    pub right: String,
}

/// A short or long answer question, with an optional number of answer lines.
#[derive(Clone, Debug)]
pub struct TextQuestion {
    pub text: String,
    pub lines: Option<usize>,
}

/// A fill-in-the-blanks question; each `_` marks one blank.
#[derive(Clone, Debug)]
pub struct BlankQuestion {
    pub text: String,
}

/// An oral question with its sub-points.
#[derive(Clone, Debug)]
pub struct OralQuestion {
    pub text: String,
    pub sub_points: Vec<String>,
}

#[derive(Clone, Debug)]
pub enum Question {
    Matching(MatchingQuestion),
    Text(TextQuestion),
    Blank(BlankQuestion),
    Oral(OralQuestion),
}

#[derive(Clone, Copy, Debug, PartialEq, Eq, Structural)]
pub enum SectionType {
    Short,
    Long,
    MatchingV,
    MatchingH,
    Blanks,
    Oral,
}

#[derive(Clone, Debug)]
pub struct Section {
    pub name: String,
    pub questions: Vec<Question>,
    pub section_type: Option<SectionType>,
    pub separate_sheet: bool,
    pub subtitle: Option<String>,
}

#[derive(Clone, Debug)]
pub struct TestData {
    pub subject: String,
    pub title: String,
    pub sections: Vec<Section>,
}

/// The mathematical value of a question.
pub enum QuestionV {
    Matching { left: Seq<char>, right: Seq<char> },
    Text { text: Seq<char>, lines: Option<usize> },
    Blank { text: Seq<char> },
    Oral { text: Seq<char>, sub_points: Seq<Seq<char>> },
}

/// The mathematical value of a section.
pub struct SectionV {
    pub name: Seq<char>,
    pub questions: Seq<QuestionV>,
    pub section_type: Option<SectionType>,
    pub separate_sheet: bool,
    pub subtitle: Option<Seq<char>>,
}

/// The mathematical value of a test.
pub struct TestDataV {
    pub subject: Seq<char>,
    pub title: Seq<char>,
    pub sections: Seq<SectionV>,
}

pub open spec fn strings_view(v: Seq<String>) -> Seq<Seq<char>> {
    v.map_values(|s: String| s@)
}

pub open spec fn opt_string_view(o: Option<String>) -> Option<Seq<char>> {
    match o {
        Some(s) => Some(s@),
        None => None,
    }
}

impl View for Question {
    type V = QuestionV;

    open spec fn view(&self) -> QuestionV {
        match self {
            Question::Matching(m) => QuestionV::Matching { left: m.left@, right: m.right@ },
            Question::Text(t) => QuestionV::Text { text: t.text@, lines: t.lines },
            Question::Blank(b) => QuestionV::Blank { text: b.text@ },
            Question::Oral(o) => QuestionV::Oral {
                text: o.text@,
                sub_points: strings_view(o.sub_points@),
            },
        }
    }
}

pub open spec fn questions_view(v: Seq<Question>) -> Seq<QuestionV> {
    v.map_values(|q: Question| q@)
}

impl View for Section {
    type V = SectionV;

    open spec fn view(&self) -> SectionV {
        SectionV {
            name: self.name@,
            questions: questions_view(self.questions@),
            section_type: self.section_type,
            separate_sheet: self.separate_sheet,
            subtitle: opt_string_view(self.subtitle),
        }
    }
}

pub open spec fn sections_view(v: Seq<Section>) -> Seq<SectionV> {
    v.map_values(|s: Section| s@)
}

impl View for TestData {
    type V = TestDataV;

    open spec fn view(&self) -> TestDataV {
        TestDataV {
            subject: self.subject@,
            title: self.title@,
            sections: sections_view(self.sections@),
        }
    }
}

} // verus!
