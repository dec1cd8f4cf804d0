//! The dialogue, one line at a time.
//!
//! A front end reads a line, hands it to `Session::step` together with the
//! questions as last loaded, acts on the outcome, and shows the prompt of the
//! session that comes back. The session decides; it reads and writes nothing.
//! Lines are taken as they are handed over: the front end strips the line end
//! and surrounding blanks first.

use vstd::prelude::*;
use crate::decimal::{parse_index, parse_index_spec};
use crate::query::{
    answer_matches, answer_matches_spec, choice_view, match_views, pick_among, question_matches,
    resolve_selection, search, search_spec, select_among, select_for_removal, AnswerMatch,
    AnswerMatchView, ChoiceView, RemovalError, SearchResult, SearchResultView,
};
use crate::question::{views, Question, QuestionView, ANSWER_COUNT};
use crate::store::{ordinal_index, parse_ordinal};
use crate::text::{same_text, texts};

verus! {

/// An answer of the user that ends the dialogue at once.
#[derive(Debug, Clone, Copy, PartialEq, Eq)]
pub enum InputError {
    /// The correct answer of a new question was not given as a number from 1
    /// to 4.
    Ordinal,
    /// The candidate to remove was not given as the index of a candidate.
    Selection,
}

/// What the session waits for.
#[derive(Debug, Clone, Copy, PartialEq, Eq)]
pub enum Prompt {
    /// A command (`add`, `remove`, `exit`) or a fragment to look up.
    Search,
    /// The prompt of a new question.
    Question,
    /// The answer with this number, from 1 to 4, of a new question.
    Answer(usize),
    /// The number, from 1 to 4, of the correct answer of a new question.
    CorrectAnswer,
    /// A fragment of the prompt of the question to remove.
    RemovalQuestion,
    /// The index of one of the candidates for removal.
    Selection,
    /// `y` to remove the chosen question, anything else to keep it.
    Confirmation,
    /// Nothing: the dialogue is over.
    Finished,
}

/// What the front end is to do after a line.
#[derive(Debug, PartialEq, Eq)]
pub enum Outcome {
    /// Nothing but to show the next prompt.
    Continue,
    /// Show what a lookup found: the answer by prompt, then the questions
    /// found through their answers.
    Found { answer: SearchResult, answer_matches: Vec<AnswerMatch> },
    /// Append this question to the store, then load the store anew.
    Append(Question),
    /// Say that no question matched the removal.
    NotFound,
    /// Show the candidates for removal with their indices.
    Candidates(Vec<Question>),
    /// Show the question chosen for removal and ask for confirmation.
    Confirm(Question),
    /// Remove every record equal to this question from the store, then load
    /// the store anew.
    Remove(Question),
    /// Say that the removal was called off; the store stays as it is.
    Declined,
    /// Leave.
    Exit,
    /// Stop on an answer that cannot be used.
    Rejected(InputError),
}

/// An `Outcome` as plain values.
pub enum OutcomeView {
    Continue,
    Found { answer: SearchResultView, answer_matches: Seq<AnswerMatchView> },
    Append(QuestionView),
    NotFound,
    Candidates(Seq<QuestionView>),
    Confirm(QuestionView),
    Remove(QuestionView),
    Declined,
    Exit,
    Rejected(InputError),
}

impl View for Outcome {
    type V = OutcomeView;

    open spec fn view(&self) -> OutcomeView {
        match self {
            Outcome::Continue => OutcomeView::Continue,
            Outcome::Found { answer, answer_matches } => OutcomeView::Found {
                answer: answer@,
                answer_matches: match_views(answer_matches@),
            },
            Outcome::Append(q) => OutcomeView::Append(q@),
            Outcome::NotFound => OutcomeView::NotFound,
            Outcome::Candidates(candidates) => OutcomeView::Candidates(views(candidates@)),
            Outcome::Confirm(q) => OutcomeView::Confirm(q@),
            Outcome::Remove(q) => OutcomeView::Remove(q@),
            Outcome::Declined => OutcomeView::Declined,
            Outcome::Exit => OutcomeView::Exit,
            Outcome::Rejected(e) => OutcomeView::Rejected(*e),
        }
    }
}

/// Where the dialogue stands, as plain values.
pub enum PhaseView {
    /// Waiting for a command or a fragment to look up.
    Idle,
    /// Adding: waiting for the prompt.
    CollectingQuestion,
    /// Adding: the prompt and fewer than four answers are in.
    CollectingAnswers { question: Seq<char>, answers: Seq<Seq<char>> },
    /// Adding: the prompt and all four answers are in.
    CollectingCorrectIndex { question: Seq<char>, answers: Seq<Seq<char>> },
    /// Removing: waiting for a fragment of the prompt.
    CollectingSearchText,
    /// Removing: waiting for the index of one of several candidates.
    Disambiguating { candidates: Seq<QuestionView> },
    /// Removing: waiting for the confirmation.
    ConfirmingRemoval { target: QuestionView },
    /// Over.
    Terminated,
}

impl PhaseView {
    /// While answers are collected there are fewer than four of them; when
    /// the correct answer is asked for there are exactly four.
    pub open spec fn wf(self) -> bool {
        match self {
            PhaseView::CollectingAnswers { answers, .. } => answers.len() < ANSWER_COUNT,
            PhaseView::CollectingCorrectIndex { answers, .. } => answers.len() == ANSWER_COUNT,
            _ => true,
        }
    }

    /// What a session in this phase waits for.
    pub open spec fn prompt(self) -> Prompt {
        match self {
            PhaseView::Idle => Prompt::Search,
            PhaseView::CollectingQuestion => Prompt::Question,
            PhaseView::CollectingAnswers { answers, .. } => Prompt::Answer(
                (answers.len() + 1) as usize,
            ),
            PhaseView::CollectingCorrectIndex { .. } => Prompt::CorrectAnswer,
            PhaseView::CollectingSearchText => Prompt::RemovalQuestion,
            PhaseView::Disambiguating { .. } => Prompt::Selection,
            PhaseView::ConfirmingRemoval { .. } => Prompt::Confirmation,
            PhaseView::Terminated => Prompt::Finished,
        }
    }
}

/// The step from the idle phase: a command, or else a lookup.
pub open spec fn idle_step(questions: Seq<QuestionView>, line: Seq<char>) -> (
    PhaseView,
    OutcomeView,
) {
    if line == "exit"@ {
        (PhaseView::Terminated, OutcomeView::Exit)
    } else if line == "add"@ {
        (PhaseView::CollectingQuestion, OutcomeView::Continue)
    } else if line == "remove"@ {
        (PhaseView::CollectingSearchText, OutcomeView::Continue)
    } else {
        (
            PhaseView::Idle,
            OutcomeView::Found {
                answer: search_spec(questions, line),
                answer_matches: answer_matches_spec(questions, line),
            },
        )
    }
}

/// The step that follows a choice of the record to remove.
pub open spec fn choice_step(choice: ChoiceView) -> (PhaseView, OutcomeView) {
    match choice {
        ChoiceView::NotFound => (PhaseView::Idle, OutcomeView::NotFound),
        ChoiceView::Chosen(q) => (
            PhaseView::ConfirmingRemoval { target: q },
            OutcomeView::Confirm(q),
        ),
        ChoiceView::Ambiguous(candidates) => (
            PhaseView::Disambiguating { candidates },
            OutcomeView::Candidates(candidates),
        ),
        ChoiceView::InvalidSelection => (
            PhaseView::Terminated,
            OutcomeView::Rejected(InputError::Selection),
        ),
    }
}

/// The phase and the outcome that follow the line `line`, handed over in the
/// phase `phase` with the questions `questions` loaded.
pub open spec fn step_spec(phase: PhaseView, questions: Seq<QuestionView>, line: Seq<char>) -> (
    PhaseView,
    OutcomeView,
) {
    match phase {
        PhaseView::Idle => idle_step(questions, line),
        PhaseView::CollectingQuestion => (
            PhaseView::CollectingAnswers { question: line, answers: Seq::empty() },
            OutcomeView::Continue,
        ),
        PhaseView::CollectingAnswers { question, answers } => if answers.len() + 1
            < ANSWER_COUNT {
            (
                PhaseView::CollectingAnswers { question, answers: answers.push(line) },
                OutcomeView::Continue,
            )
        } else {
            (
                PhaseView::CollectingCorrectIndex { question, answers: answers.push(line) },
                OutcomeView::Continue,
            )
        },
        PhaseView::CollectingCorrectIndex { question, answers } => match ordinal_index(line) {
            Some(index) => (
                PhaseView::Idle,
                OutcomeView::Append(
                    QuestionView { text: question, answers, correct_index: index },
                ),
            ),
            None => (PhaseView::Terminated, OutcomeView::Rejected(InputError::Ordinal)),
        },
        PhaseView::CollectingSearchText => choice_step(
            select_among(question_matches(questions, line)),
        ),
        PhaseView::Disambiguating { candidates } => match parse_index_spec(line) {
            Some(selection) => choice_step(pick_among(candidates, selection as int)),
            None => (PhaseView::Terminated, OutcomeView::Rejected(InputError::Selection)),
        },
        PhaseView::ConfirmingRemoval { target } => if line == "y"@ {
            (PhaseView::Idle, OutcomeView::Remove(target))
        } else {
            (PhaseView::Idle, OutcomeView::Declined)
        },
        PhaseView::Terminated => (PhaseView::Terminated, OutcomeView::Exit),
    }
}

enum Phase {
    Idle,
    CollectingQuestion,
    CollectingAnswers { question: String, answers: Vec<String> },
    CollectingCorrectIndex { question: String, answers: Vec<String> },
    CollectingSearchText,
    Disambiguating { candidates: Vec<Question> },
    ConfirmingRemoval { target: Question },
    Terminated,
}

impl View for Phase {
    type V = PhaseView;

    closed spec fn view(&self) -> PhaseView {
        match self {
            Phase::Idle => PhaseView::Idle,
            Phase::CollectingQuestion => PhaseView::CollectingQuestion,
            Phase::CollectingAnswers { question, answers } => PhaseView::CollectingAnswers {
                question: question@,
                answers: texts(answers@),
            },
            Phase::CollectingCorrectIndex { question, answers } => {
                PhaseView::CollectingCorrectIndex { question: question@, answers: texts(answers@) }
            },
            Phase::CollectingSearchText => PhaseView::CollectingSearchText,
            Phase::Disambiguating { candidates } => PhaseView::Disambiguating {
                candidates: views(candidates@),
            },
            Phase::ConfirmingRemoval { target } => PhaseView::ConfirmingRemoval { target: target@ },
            Phase::Terminated => PhaseView::Terminated,
        }
    }
}

/// One dialogue. Its phase is always well formed.
pub struct Session {
    phase: Phase,
}

impl View for Session {
    type V = PhaseView;

    closed spec fn view(&self) -> PhaseView {
        self.phase@
    }
}

impl Session {
    #[verifier::type_invariant]
    spec fn well_formed(&self) -> bool {
        self.phase@.wf()
    }

    /// A dialogue at its start: idle.
    pub fn new() -> (session: Session)
        ensures
            session@ == PhaseView::Idle,
    {
        Session { phase: Phase::Idle }
    }

    /// What the session waits for.
    pub fn prompt(&self) -> (prompt: Prompt)
        ensures
            prompt == self@.prompt(),
            self@.wf(),
    {
        proof {
            use_type_invariant(self);
        }
        match &self.phase {
            Phase::Idle => Prompt::Search,
            Phase::CollectingQuestion => Prompt::Question,
            Phase::CollectingAnswers { answers, .. } => Prompt::Answer(answers.len() + 1),
            Phase::CollectingCorrectIndex { .. } => Prompt::CorrectAnswer,
            Phase::CollectingSearchText => Prompt::RemovalQuestion,
            Phase::Disambiguating { .. } => Prompt::Selection,
            Phase::ConfirmingRemoval { .. } => Prompt::Confirmation,
            Phase::Terminated => Prompt::Finished,
        }
    }

    /// Whether the dialogue is over.
    pub fn is_terminated(&self) -> (over: bool)
        ensures
            over == (self@ is Terminated),
    {
        match &self.phase {
            Phase::Terminated => true,
            _ => false,
        }
    }

    /// Takes one line of the user's and decides what follows: the next phase
    /// of the dialogue, and what the front end is to do.
    pub fn step(self, questions: &Vec<Question>, line: &str) -> (next: (Session, Outcome))
        ensures
            (next.0@, next.1@) == step_spec(self@, views(questions@), line@),
            next.0@.wf(),
    {
        proof {
            use_type_invariant(&self);
        }
        match self.phase {
            Phase::Idle => {
                if same_text(line, "exit") {
                    (Session { phase: Phase::Terminated }, Outcome::Exit)
                } else if same_text(line, "add") {
                    (Session { phase: Phase::CollectingQuestion }, Outcome::Continue)
                } else if same_text(line, "remove") {
                    (Session { phase: Phase::CollectingSearchText }, Outcome::Continue)
                } else {
                    let answer = search(questions, line);
                    let answer_matches = answer_matches(questions, line);
                    (Session { phase: Phase::Idle }, Outcome::Found { answer, answer_matches })
                }
            },
            Phase::CollectingQuestion => {
                let phase = Phase::CollectingAnswers {
                    question: line.to_owned(),
                    answers: Vec::new(),
                };
                assert(texts(Seq::<String>::empty()) =~= Seq::<Seq<char>>::empty());
                (Session { phase }, Outcome::Continue)
            },
            Phase::CollectingAnswers { question, answers } => {
                let mut answers = answers;
                let ghost before = texts(answers@);
                answers.push(line.to_owned());
                assert(texts(answers@) =~= before.push(line@));
                if answers.len() < ANSWER_COUNT {
                    (
                        Session { phase: Phase::CollectingAnswers { question, answers } },
                        Outcome::Continue,
                    )
                } else {
                    (
                        Session { phase: Phase::CollectingCorrectIndex { question, answers } },
                        Outcome::Continue,
                    )
                }
            },
            Phase::CollectingCorrectIndex { question, answers } => {
                match parse_ordinal(line) {
                    Some(index) => {
                        let made = Question::new(question, answers, index);
                        (Session { phase: Phase::Idle }, Outcome::Append(made.unwrap()))
                    },
                    None => (
                        Session { phase: Phase::Terminated },
                        Outcome::Rejected(InputError::Ordinal),
                    ),
                }
            },
            Phase::CollectingSearchText => after_choice(select_for_removal(questions, line)),
            Phase::Disambiguating { candidates } => {
                match parse_index(line) {
                    Some(selection) => after_choice(resolve_selection(&candidates, selection)),
                    None => (
                        Session { phase: Phase::Terminated },
                        Outcome::Rejected(InputError::Selection),
                    ),
                }
            },
            Phase::ConfirmingRemoval { target } => {
                if same_text(line, "y") {
                    (Session { phase: Phase::Idle }, Outcome::Remove(target))
                } else {
                    (Session { phase: Phase::Idle }, Outcome::Declined)
                }
            },
            Phase::Terminated => (Session { phase: Phase::Terminated }, Outcome::Exit),
        }
    }
}

/// The session and the outcome that follow a choice of the record to remove.
fn after_choice(choice: Result<Question, RemovalError>) -> (next: (Session, Outcome))
    ensures
        (next.0@, next.1@) == choice_step(choice_view(choice)),
        next.0@.wf(),
{
    match choice {
        Ok(target) => {
            let shown = target.clone();
            (Session { phase: Phase::ConfirmingRemoval { target } }, Outcome::Confirm(shown))
        },
        Err(RemovalError::NotFound) => (Session { phase: Phase::Idle }, Outcome::NotFound),
        Err(RemovalError::Ambiguous(candidates)) => {
            let shown = copy_questions(&candidates);
            (Session { phase: Phase::Disambiguating { candidates } }, Outcome::Candidates(shown))
        },
        Err(RemovalError::InvalidSelection) => (
            Session { phase: Phase::Terminated },
            Outcome::Rejected(InputError::Selection),
        ),
    }
}

/// Copies a list of questions.
fn copy_questions(questions: &Vec<Question>) -> (copy: Vec<Question>)
    ensures
        views(copy@) == views(questions@),
{
    let mut copy: Vec<Question> = Vec::new();
    let mut i: usize = 0;
    while i < questions.len()
        invariant
            i <= questions@.len(),
            copy@.len() == i,
            forall|j: int| 0 <= j < i ==> copy@[j]@ == questions@[j]@,
        decreases questions@.len() - i,
    {
        copy.push(questions[i].clone());
        i = i + 1;
    }
    assert(views(copy@) =~= views(questions@));
    copy
}

} // verus!
