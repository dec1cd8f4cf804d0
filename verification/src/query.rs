//! Looking questions up by a fragment of their prompt or of their answers, and
//! choosing the record that a removal is aimed at.
//!
//! A fragment matches a text when it stands in it as it is: case counts, and
//! nothing is split into words or ranked.

use vstd::prelude::*;
use crate::question::{views, Question, QuestionView, ANSWER_COUNT};
use crate::text::{contains, is_substring, same_text, texts};

verus! {

/// The answer to a lookup by prompt.
#[derive(Debug, PartialEq, Eq)]
pub enum SearchResult {
    /// No prompt holds the fragment.
    NoMatch,
    /// Every matching question has its correct answer at the same place: the
    /// correct answer of the first of them.
    SingleAnswer(String),
    /// The matching questions share one prompt but not the place of the
    /// correct answer: the correct answer of each, in store order.
    MultipleAnswersSameQuestion(Vec<String>),
    /// The matching questions differ in prompt and in the place of the correct
    /// answer: the correct answer and the prompt of each, in store order.
    MultipleAnswersDifferentQuestions(Vec<(String, String)>),
}

/// A `SearchResult` as plain values.
pub enum SearchResultView {
    NoMatch,
    SingleAnswer(Seq<char>),
    MultipleAnswersSameQuestion(Seq<Seq<char>>),
    MultipleAnswersDifferentQuestions(Seq<(Seq<char>, Seq<char>)>),
}

/// The contents of each pair of a list, in order.
pub open spec fn pair_texts(pairs: Seq<(String, String)>) -> Seq<(Seq<char>, Seq<char>)> {
    Seq::new(pairs.len(), |i: int| (pairs[i].0@, pairs[i].1@))
}

impl View for SearchResult {
    type V = SearchResultView;

    open spec fn view(&self) -> SearchResultView {
        match self {
            SearchResult::NoMatch => SearchResultView::NoMatch,
            SearchResult::SingleAnswer(answer) => SearchResultView::SingleAnswer(answer@),
            SearchResult::MultipleAnswersSameQuestion(answers) => {
                SearchResultView::MultipleAnswersSameQuestion(texts(answers@))
            },
            SearchResult::MultipleAnswersDifferentQuestions(pairs) => {
                SearchResultView::MultipleAnswersDifferentQuestions(pair_texts(pairs@))
            },
        }
    }
}

/// A question found through one of its answers.
#[derive(Debug, PartialEq, Eq)]
pub struct AnswerMatch {
    /// The prompt of the question.
    pub question: String,
    /// The first of its answers that holds the fragment.
    pub matched_answer: String,
    /// Its correct answer.
    pub correct_answer: String,
}

/// An `AnswerMatch` as plain values.
pub struct AnswerMatchView {
    pub question: Seq<char>,
    pub matched_answer: Seq<char>,
    pub correct_answer: Seq<char>,
}

impl View for AnswerMatch {
    type V = AnswerMatchView;

    open spec fn view(&self) -> AnswerMatchView {
        AnswerMatchView {
            question: self.question@,
            matched_answer: self.matched_answer@,
            correct_answer: self.correct_answer@,
        }
    }
}

/// The views of a list of answer matches, in order.
pub open spec fn match_views(found: Seq<AnswerMatch>) -> Seq<AnswerMatchView> {
    Seq::new(found.len(), |i: int| found[i]@)
}

/// Why no record was chosen for removal.
#[derive(Debug, PartialEq, Eq)]
pub enum RemovalError {
    /// No prompt holds the fragment.
    NotFound,
    /// Several prompts hold the fragment: the candidates, in store order. One
    /// of them is to be picked by its index in this list.
    Ambiguous(Vec<Question>),
    /// The index picked is not that of a candidate.
    InvalidSelection,
}

/// The predicate "the prompt holds `query`".
pub open spec fn prompt_holds(query: Seq<char>) -> spec_fn(QuestionView) -> bool {
    |q: QuestionView| is_substring(query, q.text)
}

/// The questions whose prompt holds `query`, in store order.
pub open spec fn question_matches(questions: Seq<QuestionView>, query: Seq<char>) -> Seq<
    QuestionView,
> {
    questions.filter(prompt_holds(query))
}

/// All questions of the list have their correct answer at the same place.
pub open spec fn answers_agree(found: Seq<QuestionView>) -> bool {
    forall|i: int| 0 <= i < found.len() ==> (#[trigger] found[i]).correct_index == found[0].correct_index
}

/// All questions of the list have the same prompt.
pub open spec fn prompts_agree(found: Seq<QuestionView>) -> bool {
    forall|i: int| 0 <= i < found.len() ==> (#[trigger] found[i]).text == found[0].text
}

/// The correct answer of each question of a list.
pub open spec fn correct_texts(found: Seq<QuestionView>) -> Seq<Seq<char>> {
    Seq::new(found.len(), |i: int| found[i].correct_text())
}

/// The correct answer and the prompt of each question of a list.
pub open spec fn correct_texts_with_prompts(found: Seq<QuestionView>) -> Seq<
    (Seq<char>, Seq<char>),
> {
    Seq::new(found.len(), |i: int| (found[i].correct_text(), found[i].text))
}

/// What a lookup by prompt answers once the matching questions are known.
pub open spec fn classify(found: Seq<QuestionView>) -> SearchResultView {
    if found.len() == 0 {
        SearchResultView::NoMatch
    } else if answers_agree(found) {
        SearchResultView::SingleAnswer(found[0].correct_text())
    } else if prompts_agree(found) {
        SearchResultView::MultipleAnswersSameQuestion(correct_texts(found))
    } else {
        SearchResultView::MultipleAnswersDifferentQuestions(correct_texts_with_prompts(found))
    }
}

/// What a lookup by prompt answers.
pub open spec fn search_spec(questions: Seq<QuestionView>, query: Seq<char>) -> SearchResultView {
    classify(question_matches(questions, query))
}

/// `at` is the place of the first answer that holds `query`.
pub open spec fn is_first_hit(answers: Seq<Seq<char>>, query: Seq<char>, at: int) -> bool {
    &&& 0 <= at < answers.len()
    &&& is_substring(query, answers[at])
    &&& forall|k: int| 0 <= k < at ==> !is_substring(query, #[trigger] answers[k])
}

/// Some answer of the list holds `query`.
pub open spec fn some_answer_holds(answers: Seq<Seq<char>>, query: Seq<char>) -> bool {
    exists|at: int| 0 <= at < answers.len() && is_substring(query, #[trigger] answers[at])
}

/// The predicate "one of the answers holds `query`".
pub open spec fn answer_holds(query: Seq<char>) -> spec_fn(QuestionView) -> bool {
    |q: QuestionView| some_answer_holds(q.answers, query)
}

/// The first answer of `q` that holds `query`.
pub open spec fn matched_answer(q: QuestionView, query: Seq<char>) -> Seq<char> {
    q.answers[choose|at: int| is_first_hit(q.answers, query, at)]
}

/// What is reported of a question found through one of its answers.
pub open spec fn answer_match_of(q: QuestionView, query: Seq<char>) -> AnswerMatchView {
    AnswerMatchView {
        question: q.text,
        matched_answer: matched_answer(q, query),
        correct_answer: q.correct_text(),
    }
}

/// What a lookup by answer reports: one entry for each question of which an
/// answer holds `query`, in store order.
pub open spec fn answer_matches_spec(questions: Seq<QuestionView>, query: Seq<char>) -> Seq<
    AnswerMatchView,
> {
    let found = questions.filter(answer_holds(query));
    Seq::new(found.len(), |i: int| answer_match_of(found[i], query))
}

/// What choosing a record for removal gives, as plain values.
pub enum ChoiceView {
    NotFound,
    Chosen(QuestionView),
    Ambiguous(Seq<QuestionView>),
    InvalidSelection,
}

/// The result of a choice, as plain values.
pub open spec fn choice_view(choice: Result<Question, RemovalError>) -> ChoiceView {
    match choice {
        Ok(q) => ChoiceView::Chosen(q@),
        Err(RemovalError::NotFound) => ChoiceView::NotFound,
        Err(RemovalError::Ambiguous(candidates)) => ChoiceView::Ambiguous(views(candidates@)),
        Err(RemovalError::InvalidSelection) => ChoiceView::InvalidSelection,
    }
}

/// What `select_for_removal` gives once the matching questions are known.
pub open spec fn select_among(found: Seq<QuestionView>) -> ChoiceView {
    if found.len() == 0 {
        ChoiceView::NotFound
    } else if found.len() == 1 {
        ChoiceView::Chosen(found[0])
    } else {
        ChoiceView::Ambiguous(found)
    }
}

/// What `resolve_selection` gives.
pub open spec fn pick_among(candidates: Seq<QuestionView>, selection: int) -> ChoiceView {
    if 0 <= selection < candidates.len() {
        ChoiceView::Chosen(candidates[selection])
    } else {
        ChoiceView::InvalidSelection
    }
}

/// The questions whose prompt holds `query`, in store order.
pub fn matching_questions(questions: &Vec<Question>, query: &str) -> (found: Vec<Question>)
    ensures
        views(found@) == question_matches(views(questions@), query@),
{
    let ghost all = views(questions@);
    let ghost pred = prompt_holds(query@);
    let mut found: Vec<Question> = Vec::new();
    let mut i: usize = 0;
    proof {
        reveal(Seq::filter);
        assert(views(found@) =~= all.take(0).filter(pred));
    }
    while i < questions.len()
        invariant
            i <= questions@.len(),
            all == views(questions@),
            pred == prompt_holds(query@),
            views(found@) == all.take(i as int).filter(pred),
        decreases questions@.len() - i,
    {
        let q = &questions[i];
        let ghost before = views(found@);
        proof {
            reveal(Seq::filter);
            assert(all.take(i + 1).drop_last() =~= all.take(i as int));
            assert(all.take(i + 1).last() == q@);
        }
        if contains(q.question(), query) {
            found.push(q.clone());
            assert(views(found@) =~= before.push(q@));
        }
        i = i + 1;
    }
    assert(all.take(i as int) =~= all);
    found
}

/// Whether all questions of a list have their correct answer at the same place.
fn correct_places_agree(found: &Vec<Question>) -> (agree: bool)
    ensures
        agree == answers_agree(views(found@)),
{
    let mut i: usize = 0;
    while i < found.len()
        invariant
            i <= found@.len(),
            forall|j: int| 0 <= j < i ==> (#[trigger] views(found@)[j]).correct_index == views(found@)[0].correct_index,
        decreases found@.len() - i,
    {
        if found[i].correct_answer() != found[0].correct_answer() {
            assert(views(found@)[i as int].correct_index != views(found@)[0].correct_index);
            return false;
        }
        i = i + 1;
    }
    true
}

/// Whether all questions of a list have the same prompt.
fn prompts_are_same(found: &Vec<Question>) -> (agree: bool)
    ensures
        agree == prompts_agree(views(found@)),
{
    let mut i: usize = 0;
    while i < found.len()
        invariant
            i <= found@.len(),
            forall|j: int| 0 <= j < i ==> (#[trigger] views(found@)[j]).text == views(found@)[0].text,
        decreases found@.len() - i,
    {
        if !same_text(found[i].question(), found[0].question()) {
            assert(views(found@)[i as int].text != views(found@)[0].text);
            return false;
        }
        i = i + 1;
    }
    true
}

/// Answers a lookup from the questions that matched it: nothing where none
/// matched; one answer where all of them have the correct answer at the same
/// place; else the correct answer of each, with its prompt unless all prompts
/// are the same.
pub fn classify_matches(found: &Vec<Question>) -> (answer: SearchResult)
    ensures
        answer@ == classify(views(found@)),
{
    if found.len() == 0 {
        return SearchResult::NoMatch;
    }
    if correct_places_agree(found) {
        return SearchResult::SingleAnswer(found[0].correct_text().to_owned());
    }
    if prompts_are_same(found) {
        let mut answers: Vec<String> = Vec::new();
        let mut i: usize = 0;
        while i < found.len()
            invariant
                i <= found@.len(),
                answers@.len() == i,
                forall|j: int| 0 <= j < i ==> (#[trigger] answers@[j])@ == views(found@)[j].correct_text(),
            decreases found@.len() - i,
        {
            answers.push(found[i].correct_text().to_owned());
            i = i + 1;
        }
        assert(texts(answers@) =~= correct_texts(views(found@)));
        SearchResult::MultipleAnswersSameQuestion(answers)
    } else {
        let mut pairs: Vec<(String, String)> = Vec::new();
        let mut i: usize = 0;
        while i < found.len()
            invariant
                i <= found@.len(),
                pairs@.len() == i,
                forall|j: int| 0 <= j < i ==> (#[trigger] pairs@[j]).0@ == views(found@)[j].correct_text()
                    && pairs@[j].1@ == views(found@)[j].text,
            decreases found@.len() - i,
        {
            pairs.push((found[i].correct_text().to_owned(), found[i].question().to_owned()));
            i = i + 1;
        }
        assert(pair_texts(pairs@) =~= correct_texts_with_prompts(views(found@)));
        SearchResult::MultipleAnswersDifferentQuestions(pairs)
    }
}

/// Looks the fragment `query` up among the prompts.
pub fn search(questions: &Vec<Question>, query: &str) -> (answer: SearchResult)
    ensures
        answer@ == search_spec(views(questions@), query@),
{
    let found = matching_questions(questions, query);
    classify_matches(&found)
}

/// The place of the first answer of `q` that holds `query`, if there is one.
pub fn first_matching_answer(q: &Question, query: &str) -> (place: Option<usize>)
    ensures
        match place {
            Some(at) => is_first_hit(q@.answers, query@, at as int),
            None => !some_answer_holds(q@.answers, query@),
        },
{
    let answers = q.answers();
    let mut i: usize = 0;
    while i < ANSWER_COUNT
        invariant
            i <= ANSWER_COUNT,
            answers@.len() == ANSWER_COUNT,
            texts(answers@) == q@.answers,
            forall|k: int| 0 <= k < i ==> !is_substring(query@, #[trigger] q@.answers[k]),
        decreases ANSWER_COUNT - i,
    {
        assert(q@.answers[i as int] == answers@[i as int]@);
        if contains(answers[i].as_str(), query) {
            return Some(i);
        }
        i = i + 1;
    }
    None
}

/// Looks the fragment `query` up among the answers: for each question of
/// which an answer holds it, in store order, the prompt, the first such
/// answer, and the correct answer.
pub fn answer_matches(questions: &Vec<Question>, query: &str) -> (found: Vec<AnswerMatch>)
    ensures
        match_views(found@) == answer_matches_spec(views(questions@), query@),
{
    let ghost all = views(questions@);
    let ghost pred = answer_holds(query@);
    let mut found: Vec<AnswerMatch> = Vec::new();
    let mut i: usize = 0;
    proof {
        reveal(Seq::filter);
        assert(match_views(found@) =~= answer_matches_spec(all.take(0), query@));
    }
    while i < questions.len()
        invariant
            i <= questions@.len(),
            all == views(questions@),
            pred == answer_holds(query@),
            match_views(found@) == answer_matches_spec(all.take(i as int), query@),
        decreases questions@.len() - i,
    {
        let q = &questions[i];
        let ghost before = match_views(found@);
        let ghost kept = all.take(i as int).filter(pred);
        proof {
            reveal(Seq::filter);
            assert(all.take(i + 1).drop_last() =~= all.take(i as int));
            assert(all.take(i + 1).last() == q@);
        }
        match first_matching_answer(q, query) {
            Some(at) => {
                let answers = q.answers();
                proof {
                    let chosen = choose|k: int| is_first_hit(q@.answers, query@, k);
                    assert(is_first_hit(q@.answers, query@, at as int));
                    assert(chosen == at);
                    assert(q@.answers[at as int] == answers@[at as int]@);
                }
                found.push(
                    AnswerMatch {
                        question: q.question().to_owned(),
                        matched_answer: answers[at].clone(),
                        correct_answer: q.correct_text().to_owned(),
                    },
                );
                assert(match_views(found@) =~= before.push(answer_match_of(q@, query@)));
                assert(all.take(i + 1).filter(pred) == kept.push(q@));
                assert(before.push(answer_match_of(q@, query@)) =~= answer_matches_spec(
                    all.take(i + 1),
                    query@,
                ));
            },
            None => {
                assert(all.take(i + 1).filter(pred) == kept);
            },
        }
        i = i + 1;
    }
    assert(all.take(i as int) =~= all);
    found
}

/// Chooses among the questions that matched a removal: none is `NotFound`,
/// one is chosen, several are handed back as candidates.
pub fn select_among_matches(found: Vec<Question>) -> (choice: Result<Question, RemovalError>)
    ensures
        choice_view(choice) == select_among(views(found@)),
{
    if found.len() == 0 {
        Err(RemovalError::NotFound)
    } else if found.len() == 1 {
        Ok(found[0].clone())
    } else {
        Err(RemovalError::Ambiguous(found))
    }
}

/// Chooses the record that a removal by the fragment `query` is aimed at: the
/// one question whose prompt holds it. With none the choice is `NotFound`;
/// with several it is `Ambiguous`, and hands back the candidates.
pub fn select_for_removal(questions: &Vec<Question>, query: &str) -> (choice: Result<
    Question,
    RemovalError,
>)
    ensures
        choice_view(choice) == select_among(question_matches(views(questions@), query@)),
{
    select_among_matches(matching_questions(questions, query))
}

/// Picks a candidate by its index. An index that is not that of a candidate
/// is `InvalidSelection`: it is never clamped.
pub fn resolve_selection(candidates: &Vec<Question>, selection: usize) -> (choice: Result<
    Question,
    RemovalError,
>)
    ensures
        choice_view(choice) == pick_among(views(candidates@), selection as int),
{
    if selection < candidates.len() {
        Ok(candidates[selection].clone())
    } else {
        Err(RemovalError::InvalidSelection)
    }
}

} // verus!
