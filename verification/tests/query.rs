use quiz_lookup::query::{
    answer_matches, classify_matches, first_matching_answer, matching_questions,
    resolve_selection, search, select_among_matches, select_for_removal, AnswerMatch,
    RemovalError, SearchResult,
};
use quiz_lookup::question::{removal_equality, Question};
use quiz_lookup::store::{load_data, remove_from_csv};

fn question(text: &str, answers: [&str; 4], correct: usize) -> Question {
    let answers: Vec<String> = answers.iter().map(|a| a.to_string()).collect();
    Question::new(text.to_string(), answers, correct).unwrap()
}

#[test]
fn question_needs_four_answers_and_an_index_below_four() {
    let four = || vec!["a".to_string(), "b".to_string(), "c".to_string(), "d".to_string()];
    assert!(Question::new("q".to_string(), four(), 0).is_some());
    assert!(Question::new("q".to_string(), four(), 3).is_some());
    assert!(Question::new("q".to_string(), four(), 4).is_none());
    assert!(Question::new("q".to_string(), four()[..3].to_vec(), 0).is_none());
    let mut five = four();
    five.push("e".to_string());
    assert!(Question::new("q".to_string(), five, 0).is_none());
    assert!(Question::new("q".to_string(), Vec::new(), 0).is_none());
}

#[test]
fn removal_equality_compares_all_three_parts() {
    let a = question("q", ["a", "b", "c", "d"], 1);
    assert!(removal_equality(&a, &a.clone()));
    assert!(removal_equality(&a, &question("q", ["a", "b", "c", "d"], 1)));
    assert!(!removal_equality(&a, &question("Q", ["a", "b", "c", "d"], 1)));
    assert!(!removal_equality(&a, &question("q", ["a", "b", "d", "c"], 1)));
    assert!(!removal_equality(&a, &question("q", ["a", "b", "c", "d"], 2)));
    assert!(a.same_record(&a));
    assert!(!a.same_record(&question("q ", ["a", "b", "c", "d"], 1)));
}

#[test]
fn single_match_gives_its_correct_answer() {
    let qs = vec![question("2+2?", ["3", "4", "5", "6"], 1)];
    assert_eq!(search(&qs, "2+2"), SearchResult::SingleAnswer("4".to_string()));
}

#[test]
fn same_prompt_with_different_answers_lists_each_answer() {
    let qs = vec![
        question("Capital of France?", ["Paris", "Rome", "Bern", "Oslo"], 0),
        question("Capital of France?", ["Nice", "Lyon", "Metz", "Caen"], 1),
    ];
    assert_eq!(
        search(&qs, "Capital of France"),
        SearchResult::MultipleAnswersSameQuestion(vec!["Paris".to_string(), "Lyon".to_string()])
    );
}

#[test]
fn different_prompts_with_different_answers_list_answer_and_prompt() {
    let qs = vec![
        question("Sky color?", ["Blue", "Red", "Green", "Yellow"], 0),
        question("Grass color?", ["Blue", "Red", "Green", "Yellow"], 2),
    ];
    assert_eq!(
        search(&qs, "color"),
        SearchResult::MultipleAnswersDifferentQuestions(vec![
            ("Blue".to_string(), "Sky color?".to_string()),
            ("Green".to_string(), "Grass color?".to_string()),
        ])
    );
}

#[test]
fn matches_that_agree_on_the_place_give_the_first_answer() {
    let qs = vec![
        question("Sky color?", ["Blue", "Red", "Green", "Yellow"], 1),
        question("other", ["w", "x", "y", "z"], 0),
        question("Grass color?", ["Lime", "Green", "Teal", "Olive"], 1),
    ];
    assert_eq!(search(&qs, "color"), SearchResult::SingleAnswer("Red".to_string()));
}

#[test]
fn no_matching_prompt_is_no_match() {
    let qs = vec![question("2+2?", ["3", "4", "5", "6"], 1)];
    assert_eq!(search(&qs, "3+3"), SearchResult::NoMatch);
    assert_eq!(answer_matches(&qs, "3+3"), Vec::new());
    assert_eq!(search(&Vec::new(), "2"), SearchResult::NoMatch);
    assert_eq!(answer_matches(&Vec::new(), ""), Vec::new());
}

#[test]
fn matching_is_exact_containment() {
    let qs = vec![question("Capital of France?", ["Paris", "Rome", "Bern", "Oslo"], 0)];
    assert_eq!(search(&qs, "capital"), SearchResult::NoMatch);
    assert_eq!(search(&qs, "Capital  of"), SearchResult::NoMatch);
    assert_eq!(search(&qs, "France Capital"), SearchResult::NoMatch);
    assert_eq!(search(&qs, "Capital of France?!"), SearchResult::NoMatch);
    assert_eq!(search(&qs, "l of F"), SearchResult::SingleAnswer("Paris".to_string()));
    assert_eq!(search(&qs, "?"), SearchResult::SingleAnswer("Paris".to_string()));
    assert_eq!(search(&qs, "Capital of France?"), SearchResult::SingleAnswer("Paris".to_string()));
}

#[test]
fn empty_fragment_matches_every_question() {
    let qs = vec![
        question("a", ["1", "2", "3", "4"], 0),
        question("b", ["5", "6", "7", "8"], 3),
    ];
    assert_eq!(matching_questions(&qs, ""), qs);
    assert_eq!(
        search(&qs, ""),
        SearchResult::MultipleAnswersDifferentQuestions(vec![
            ("1".to_string(), "a".to_string()),
            ("8".to_string(), "b".to_string()),
        ])
    );
    assert_eq!(answer_matches(&qs, "").len(), 2);
    assert_eq!(answer_matches(&qs, "")[1].matched_answer, "5");
}

#[test]
fn matching_questions_keep_store_order() {
    let qs = vec![
        question("math 1", ["1", "2", "3", "4"], 0),
        question("history", ["5", "6", "7", "8"], 3),
        question("more math", ["1", "2", "3", "4"], 2),
    ];
    assert_eq!(matching_questions(&qs, "math"), vec![qs[0].clone(), qs[2].clone()]);
    assert_eq!(matching_questions(&qs, "geo"), Vec::new());
}

#[test]
fn classify_of_nothing_is_no_match() {
    assert_eq!(classify_matches(&Vec::new()), SearchResult::NoMatch);
}

#[test]
fn answer_fragment_finds_its_question() {
    let qs = vec![question("Sky color?", ["Blue", "Red", "Green", "Yellow"], 0)];
    assert_eq!(
        answer_matches(&qs, "Red"),
        vec![AnswerMatch {
            question: "Sky color?".to_string(),
            matched_answer: "Red".to_string(),
            correct_answer: "Blue".to_string(),
        }]
    );
    assert_eq!(search(&qs, "Red"), SearchResult::NoMatch);
}

#[test]
fn answer_match_reports_the_first_answer_that_holds_the_fragment() {
    let qs = vec![
        question("q1", ["alpha", "beta", "gamma", "delta"], 3),
        question("q2", ["one", "two", "three", "four"], 0),
        question("q3", ["x", "y", "eta", "beta"], 1),
    ];
    let found = answer_matches(&qs, "eta");
    assert_eq!(found.len(), 2);
    assert_eq!(found[0].question, "q1");
    assert_eq!(found[0].matched_answer, "beta");
    assert_eq!(found[0].correct_answer, "delta");
    assert_eq!(found[1].question, "q3");
    assert_eq!(found[1].matched_answer, "eta");
    assert_eq!(found[1].correct_answer, "y");
    assert_eq!(first_matching_answer(&qs[0], "eta"), Some(1));
    assert_eq!(first_matching_answer(&qs[0], "a"), Some(0));
    assert_eq!(first_matching_answer(&qs[1], "eta"), None);
    assert_eq!(first_matching_answer(&qs[2], "beta"), Some(3));
}

#[test]
fn both_lookups_run_on_one_fragment() {
    let qs = vec![
        question("Which is red?", ["Rose", "Sky", "Grass", "Sun"], 0),
        question("Sky color?", ["Blue", "red", "Green", "Yellow"], 0),
    ];
    assert_eq!(search(&qs, "red"), SearchResult::SingleAnswer("Rose".to_string()));
    assert_eq!(
        answer_matches(&qs, "red"),
        vec![AnswerMatch {
            question: "Sky color?".to_string(),
            matched_answer: "red".to_string(),
            correct_answer: "Blue".to_string(),
        }]
    );
}

#[test]
fn removal_with_no_match_is_not_found() {
    let qs = vec![question("2+2?", ["3", "4", "5", "6"], 1)];
    assert_eq!(select_for_removal(&qs, "math"), Err(RemovalError::NotFound));
    assert_eq!(select_for_removal(&Vec::new(), ""), Err(RemovalError::NotFound));
    assert_eq!(select_among_matches(Vec::new()), Err(RemovalError::NotFound));
}

#[test]
fn removal_with_one_match_chooses_it() {
    let qs = vec![
        question("math: 2+2?", ["3", "4", "5", "6"], 1),
        question("history", ["a", "b", "c", "d"], 0),
    ];
    assert_eq!(select_for_removal(&qs, "math"), Ok(qs[0].clone()));
    assert_eq!(select_among_matches(vec![qs[1].clone()]), Ok(qs[1].clone()));
}

#[test]
fn removal_with_two_matches_asks_and_removes_only_the_selected() {
    let a = question("math: 2+2?", ["3", "4", "5", "6"], 1);
    let b = question("math: 3+3?", ["6", "7", "8", "9"], 0);
    let qs = vec![a.clone(), b.clone()];
    let candidates = match select_for_removal(&qs, "math") {
        Err(RemovalError::Ambiguous(candidates)) => candidates,
        other => panic!("expected candidates, got {:?}", other),
    };
    assert_eq!(candidates, vec![a.clone(), b.clone()]);
    let chosen = resolve_selection(&candidates, 0).unwrap();
    assert_eq!(chosen, a);
    let store = b"Question,Answer1,Answer2,Answer3,Answer4,Correct Answer\n\
math: 2+2?,3,4,5,6,2\nmath: 3+3?,6,7,8,9,1\n";
    assert_eq!(load_data(store), Ok(qs));
    let rewritten = remove_from_csv(store, &chosen).unwrap();
    assert_eq!(load_data(&rewritten), Ok(vec![b]));
}

#[test]
fn selection_out_of_range_is_invalid() {
    let candidates = vec![
        question("math: 2+2?", ["3", "4", "5", "6"], 1),
        question("math: 3+3?", ["6", "7", "8", "9"], 0),
    ];
    assert_eq!(resolve_selection(&candidates, 1), Ok(candidates[1].clone()));
    assert_eq!(resolve_selection(&candidates, 2), Err(RemovalError::InvalidSelection));
    assert_eq!(resolve_selection(&candidates, usize::MAX), Err(RemovalError::InvalidSelection));
    assert_eq!(resolve_selection(&Vec::new(), 0), Err(RemovalError::InvalidSelection));
}
