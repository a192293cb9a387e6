//! The unit of output: one question record, its media reference, and the
//! structural errors that abort a run when the portal's markup no longer
//! has the expected shape.

use vstd::prelude::*;

verus! {

/// The media attached to a question: a video source, an image source, or
/// nothing. A video wins over an image when both are present.
#[derive(Debug, Clone, PartialEq, Eq)]
pub enum QuestionMedia {
    Image(String),
    Video(String),
    NoMedia,
}

/// Mathematical model of a media reference.
pub enum MediaV {
    Image(Seq<char>),
    Video(Seq<char>),
    NoMedia,
}

impl View for QuestionMedia {
    type V = MediaV;

    open spec fn view(&self) -> MediaV {
        match self {
            QuestionMedia::Image(u) => MediaV::Image(u@),
            QuestionMedia::Video(u) => MediaV::Video(u@),
            QuestionMedia::NoMedia => MediaV::NoMedia,
        }
    }
}

impl DeepView for QuestionMedia {
    type V = MediaV;

    open spec fn deep_view(&self) -> MediaV {
        self.view()
    }
}

/// One extracted question record.
#[derive(Debug, Clone, PartialEq, Eq)]
pub struct Question {
    /// Portal-assigned identifier, extracted verbatim.
    pub code: String,
    /// Last-modified date as displayed, extracted verbatim.
    pub change_date: String,
    /// Prompt text, newline-normalized and trimmed.
    pub question: String,
    /// Attached media, if any.
    pub media: QuestionMedia,
    /// Text of the answer marked correct, normalized like the prompt.
    pub right_answer: String,
    /// First remaining answer in original order, when there are at least
    /// two answers.
    pub first_wrong_answer: Option<String>,
    /// Second remaining answer in original order, when there are three.
    pub second_wrong_answer: Option<String>,
}

/// Mathematical model of a question record.
pub struct QuestionV {
    pub code: Seq<char>,
    pub change_date: Seq<char>,
    pub question: Seq<char>,
    pub media: MediaV,
    pub right_answer: Seq<char>,
    pub first_wrong_answer: Option<Seq<char>>,
    pub second_wrong_answer: Option<Seq<char>>,
}

impl View for Question {
    type V = QuestionV;

    open spec fn view(&self) -> QuestionV {
        QuestionV {
            code: self.code@,
            change_date: self.change_date@,
            question: self.question@,
            media: self.media@,
            right_answer: self.right_answer@,
            first_wrong_answer: self.first_wrong_answer.deep_view(),
            second_wrong_answer: self.second_wrong_answer.deep_view(),
        }
    }
}

impl DeepView for Question {
    type V = QuestionV;

    open spec fn deep_view(&self) -> QuestionV {
        self.view()
    }
}

/// A structural parse failure: an element or attribute the contract
/// requires is absent. Any of these aborts the whole run.
#[derive(Debug, Clone, Copy, PartialEq, Eq, Structural)]
pub enum StructureError {
    /// A question block has no question-text element.
    QuestionTextMissing,
    /// An answer block has no correctness attribute.
    AnswerFlagMissing,
    /// An answer block has no answer-text element.
    AnswerTextMissing,
    /// The question-text element holds no text node for the prompt.
    PromptMissing,
    /// The question-text element has no change-date element.
    DateMissing,
    /// The question-text element has no code element.
    CodeMissing,
    /// A question block has no answers at all.
    AnswersMissing,
    /// A video element is present but carries no source URL.
    VideoSrcMissing,
    /// An image element is present but carries no source URL.
    ImageSrcMissing,
    /// A category link has no target.
    HrefMissing,
    /// A category link's target does not resolve to a URL.
    SectionUrlInvalid,
    /// A category link's target carries no scope parameter.
    ScopeMissing,
}

impl StructureError {
    /// A short diagnostic text for the error.
    pub fn describe(&self) -> (r: &'static str)
        ensures
            r@ == self.describe_spec(),
    {
        match self {
            StructureError::QuestionTextMissing => "question text element missing",
            StructureError::AnswerFlagMissing => "answer correctness attribute missing",
            StructureError::AnswerTextMissing => "answer text element missing",
            StructureError::PromptMissing => "question prompt text missing",
            StructureError::DateMissing => "question change date missing",
            StructureError::CodeMissing => "question code missing",
            StructureError::AnswersMissing => "question has no answers",
            StructureError::VideoSrcMissing => "video source attribute missing",
            StructureError::ImageSrcMissing => "image source attribute missing",
            StructureError::HrefMissing => "category link target missing",
            StructureError::SectionUrlInvalid => "category link target is not a valid url",
            StructureError::ScopeMissing => "category link has no scope parameter",
        }
    }

    /// The diagnostic text as a sequence of characters.
    pub open spec fn describe_spec(&self) -> Seq<char> {
        match self {
            StructureError::QuestionTextMissing => "question text element missing"@,
            StructureError::AnswerFlagMissing => "answer correctness attribute missing"@,
            StructureError::AnswerTextMissing => "answer text element missing"@,
            StructureError::PromptMissing => "question prompt text missing"@,
            StructureError::DateMissing => "question change date missing"@,
            StructureError::CodeMissing => "question code missing"@,
            StructureError::AnswersMissing => "question has no answers"@,
            StructureError::VideoSrcMissing => "video source attribute missing"@,
            StructureError::ImageSrcMissing => "image source attribute missing"@,
            StructureError::HrefMissing => "category link target missing"@,
            StructureError::SectionUrlInvalid => "category link target is not a valid url"@,
            StructureError::ScopeMissing => "category link has no scope parameter"@,
        }
    }
}

} // verus!
