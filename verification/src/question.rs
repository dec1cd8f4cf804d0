//! The question record: a prompt, four candidate answers, and which of them is
//! correct.

use vstd::prelude::*;
use crate::text::{copy_texts, same_text, same_texts, texts};

verus! {

/// How many candidate answers every question has.
pub const ANSWER_COUNT: usize = 4;

/// One question record.
///
/// Every value has exactly four answers and a correct index below four.
#[derive(Debug, PartialEq, Eq)]
pub struct Question {
    question: String,
    answers: Vec<String>,
    correct_answer: usize,
}

/// What a question is, as plain values.
pub struct QuestionView {
    pub text: Seq<char>,
    pub answers: Seq<Seq<char>>,
    pub correct_index: nat,
}

impl QuestionView {
    /// Four answers, and a correct index that points at one of them.
    pub open spec fn wf(self) -> bool {
        &&& self.answers.len() == ANSWER_COUNT
        &&& self.correct_index < ANSWER_COUNT
    }

    /// The text of the correct answer.
    pub open spec fn correct_text(self) -> Seq<char> {
        self.answers[self.correct_index as int]
    }
}

/// The views of a list of questions, in order.
pub open spec fn views(questions: Seq<Question>) -> Seq<QuestionView> {
    Seq::new(questions.len(), |i: int| questions[i]@)
}

/// Whether every question of a list is well formed.
pub open spec fn all_wf(questions: Seq<QuestionView>) -> bool {
    forall|i: int| 0 <= i < questions.len() ==> (#[trigger] questions[i]).wf()
}

impl View for Question {
    type V = QuestionView;

    closed spec fn view(&self) -> QuestionView {
        QuestionView {
            text: self.question@,
            answers: texts(self.answers@),
            correct_index: self.correct_answer as nat,
        }
    }
}

impl Question {
    #[verifier::type_invariant]
    spec fn well_formed(&self) -> bool {
        &&& self.answers@.len() == ANSWER_COUNT
        &&& self.correct_answer < ANSWER_COUNT
    }

    /// Builds a question. `None` unless there are exactly four answers and
    /// `correct_answer` is the index of one of them.
    pub fn new(question: String, answers: Vec<String>, correct_answer: usize) -> (made: Option<
        Question,
    >)
        ensures
            made is Some <==> answers@.len() == ANSWER_COUNT && correct_answer < ANSWER_COUNT,
            made is Some ==> made->0@ == (QuestionView {
                text: question@,
                answers: texts(answers@),
                correct_index: correct_answer as nat,
            }),
    {
        if answers.len() == ANSWER_COUNT && correct_answer < ANSWER_COUNT {
            Some(Question { question, answers, correct_answer })
        } else {
            None
        }
    }

    /// The prompt.
    pub fn question(&self) -> (text: &str)
        ensures
            text@ == self@.text,
    {
        self.question.as_str()
    }

    /// The four candidate answers, in order.
    pub fn answers(&self) -> (answers: &Vec<String>)
        ensures
            texts(answers@) == self@.answers,
            answers@.len() == ANSWER_COUNT,
            self@.wf(),
    {
        proof {
            use_type_invariant(self);
        }
        &self.answers
    }

    /// The index, from 0 to 3, of the correct answer.
    pub fn correct_answer(&self) -> (index: usize)
        ensures
            index == self@.correct_index,
            index < ANSWER_COUNT,
            self@.wf(),
    {
        proof {
            use_type_invariant(self);
        }
        self.correct_answer
    }

    /// The text of the correct answer.
    pub fn correct_text(&self) -> (text: &str)
        ensures
            text@ == self@.correct_text(),
            self@.wf(),
    {
        proof {
            use_type_invariant(self);
        }
        self.answers[self.correct_answer].as_str()
    }

    /// Whether two questions are the same record: the same prompt, the same
    /// four answers in the same order, and the same correct index.
    pub fn same_record(&self, other: &Question) -> (same: bool)
        ensures
            same == (self@ == other@),
    {
        same_text(self.question.as_str(), other.question.as_str()) && same_texts(
            &self.answers,
            &other.answers,
        ) && self.correct_answer == other.correct_answer
    }
}

impl Clone for Question {
    fn clone(&self) -> (copy: Question)
        ensures
            copy@ == self@,
    {
        proof {
            use_type_invariant(self);
        }
        let answers = copy_texts(&self.answers);
        assert(texts(answers@).len() == texts(self.answers@).len());
        Question {
            question: self.question.clone(),
            answers,
            correct_answer: self.correct_answer,
        }
    }
}

/// The equality by which records are removed: two questions are the same
/// record exactly when prompt, answers and correct index are all equal.
pub fn removal_equality(a: &Question, b: &Question) -> (same: bool)
    ensures
        same == (a@ == b@),
{
    a.same_record(b)
}

} // verus!
