use quiz_lookup::question::Question;
use quiz_lookup::store::{
    add_to_csv, append_to_store, header, load_data, parse_ordinal, question_from_row, remove_from_csv, rewrite,
    row_from_question, without_record, RowError, StorageError,
};

const HEADER_LINE: &str = "Question,Answer1,Answer2,Answer3,Answer4,Correct Answer\n";

fn question(text: &str, answers: [&str; 4], correct: usize) -> Question {
    let answers: Vec<String> = answers.iter().map(|a| a.to_string()).collect();
    Question::new(text.to_string(), answers, correct).unwrap()
}

fn store_of(lines: &[&str]) -> Vec<u8> {
    let mut text = String::from(HEADER_LINE);
    for line in lines {
        text.push_str(line);
        text.push('\n');
    }
    text.into_bytes()
}

#[test]
fn header_has_the_six_column_names() {
    assert_eq!(
        header(),
        vec!["Question", "Answer1", "Answer2", "Answer3", "Answer4", "Correct Answer"]
    );
}

#[test]
fn rewrite_of_nothing_is_the_header_line() {
    assert_eq!(rewrite(&Vec::new()).unwrap(), HEADER_LINE.as_bytes().to_vec());
}

#[test]
fn append_writes_exactly_one_row() {
    let q = question("2+2?", ["3", "4", "5", "6"], 1);
    assert_eq!(add_to_csv(&q).unwrap(), b"2+2?,3,4,5,6,2\n".to_vec());
}

#[test]
fn append_quotes_what_needs_quoting() {
    let q = question("a,b", ["say \"hi\"", "x", "two\nlines", ""], 3);
    assert_eq!(
        add_to_csv(&q).unwrap(),
        b"\"a,b\",\"say \"\"hi\"\"\",x,\"two\nlines\",,4\n".to_vec()
    );
}

#[test]
fn rewrite_writes_header_then_rows_in_order() {
    let qs = vec![
        question("first", ["a", "b", "c", "d"], 0),
        question("second", ["e", "f", "g", "h"], 3),
    ];
    let expected = format!("{}first,a,b,c,d,1\nsecond,e,f,g,h,4\n", HEADER_LINE);
    assert_eq!(rewrite(&qs).unwrap(), expected.into_bytes());
}

#[test]
fn rewrite_is_header_followed_by_each_append() {
    let qs = vec![
        question("one, two", ["a", "b", "c", "d"], 2),
        question("three", ["\"e\"", "f", "g", "h"], 1),
    ];
    let mut expected = rewrite(&Vec::new()).unwrap();
    for q in &qs {
        expected.extend(add_to_csv(q).unwrap());
    }
    assert_eq!(rewrite(&qs).unwrap(), expected);
}

#[test]
fn row_of_a_question_has_one_based_ordinal() {
    let q = question("Sky color?", ["Blue", "Red", "Green", "Yellow"], 0);
    assert_eq!(
        row_from_question(&q),
        vec!["Sky color?", "Blue", "Red", "Green", "Yellow", "1"]
    );
}

#[test]
fn question_of_a_row_has_zero_based_index() {
    let row: Vec<String> =
        ["2+2?", "3", "4", "5", "6", "2"].iter().map(|f| f.to_string()).collect();
    let q = question_from_row(&row).unwrap();
    assert_eq!(q.question(), "2+2?");
    assert_eq!(q.answers(), &vec!["3", "4", "5", "6"]);
    assert_eq!(q.correct_answer(), 1);
    assert_eq!(q.correct_text(), "4");
}

#[test]
fn row_with_five_or_seven_fields_is_rejected() {
    let five: Vec<String> = ["q", "a", "b", "c", "1"].iter().map(|f| f.to_string()).collect();
    let seven: Vec<String> =
        ["q", "a", "b", "c", "d", "1", "x"].iter().map(|f| f.to_string()).collect();
    assert_eq!(question_from_row(&five), Err(RowError::ColumnCount));
    assert_eq!(question_from_row(&seven), Err(RowError::ColumnCount));
    assert_eq!(question_from_row(&Vec::new()), Err(RowError::ColumnCount));
}

#[test]
fn row_with_bad_ordinal_is_rejected() {
    for bad in ["0", "5", "", "x", "-1", "1.0", " 1", "1 ", "one", "99999999999999999999999"] {
        let row: Vec<String> =
            ["q", "a", "b", "c", "d", bad].iter().map(|f| f.to_string()).collect();
        assert_eq!(question_from_row(&row), Err(RowError::Ordinal), "ordinal {:?}", bad);
    }
}

#[test]
fn ordinals_one_to_four_are_indices_zero_to_three() {
    assert_eq!(parse_ordinal("1"), Some(0));
    assert_eq!(parse_ordinal("2"), Some(1));
    assert_eq!(parse_ordinal("3"), Some(2));
    assert_eq!(parse_ordinal("4"), Some(3));
    assert_eq!(parse_ordinal("+3"), Some(2));
    assert_eq!(parse_ordinal("004"), Some(3));
    assert_eq!(parse_ordinal("0"), None);
    assert_eq!(parse_ordinal("5"), None);
    assert_eq!(parse_ordinal(""), None);
}

#[test]
fn ordinal_symmetry_through_the_store() {
    for i in 0..4 {
        let q = question("q", ["a", "b", "c", "d"], i);
        let mut store = rewrite(&Vec::new()).unwrap();
        store.extend(add_to_csv(&q).unwrap());
        let loaded = load_data(&store).unwrap();
        assert_eq!(loaded.len(), 1);
        assert_eq!(loaded[0].correct_answer(), i);
        assert_eq!(parse_ordinal(&row_from_question(&q)[5]), Some(i));
    }
}

#[test]
fn round_trip_of_one_appended_question() {
    let q = question("What, exactly, is \"CSV\"?", ["a\nb", "  c ", "", "d,e"], 2);
    let mut store = rewrite(&Vec::new()).unwrap();
    store.extend(add_to_csv(&q).unwrap());
    assert_eq!(load_data(&store), Ok(vec![q]));
}

#[test]
fn append_to_a_store_without_header_loses_the_row_as_header() {
    let q = question("q", ["a", "b", "c", "d"], 0);
    let store = add_to_csv(&q).unwrap();
    assert_eq!(load_data(&store), Ok(Vec::new()));
}

#[test]
fn load_keeps_file_order_and_duplicates() {
    let store = store_of(&["q1,a,b,c,d,1", "q2,e,f,g,h,4", "q1,a,b,c,d,1"]);
    let expected = vec![
        question("q1", ["a", "b", "c", "d"], 0),
        question("q2", ["e", "f", "g", "h"], 3),
        question("q1", ["a", "b", "c", "d"], 0),
    ];
    assert_eq!(load_data(&store), Ok(expected));
}

#[test]
fn load_of_empty_and_header_only_stores_is_empty() {
    assert_eq!(load_data(b""), Ok(Vec::new()));
    assert_eq!(load_data(HEADER_LINE.as_bytes()), Ok(Vec::new()));
}

#[test]
fn load_does_not_validate_the_header_names() {
    let store = b"a,b,c,d,e,f\nq,w,x,y,z,3\n";
    assert_eq!(load_data(store), Ok(vec![question("q", ["w", "x", "y", "z"], 2)]));
}

#[test]
fn load_rejects_rows_of_unequal_length() {
    let store = store_of(&["q1,a,b,c,d,1", "q2,e,f,g,4"]);
    assert_eq!(load_data(&store), Err(StorageError::Malformed));
}

#[test]
fn load_rejects_invalid_utf8() {
    let mut store = HEADER_LINE.as_bytes().to_vec();
    store.extend_from_slice(b"q\xff,a,b,c,d,1\n");
    assert_eq!(load_data(&store), Err(StorageError::Malformed));
}

#[test]
fn load_rejects_a_table_of_five_columns() {
    let store = b"Question,Answer1,Answer2,Answer3,Correct Answer\nq,a,b,c,1\n";
    assert_eq!(
        load_data(store),
        Err(StorageError::Row { row: 0, fault: RowError::ColumnCount })
    );
}

#[test]
fn load_names_the_first_bad_row() {
    let store = store_of(&["q1,a,b,c,d,1", "q2,e,f,g,h,5", "q3,i,j,k,l,zero"]);
    assert_eq!(load_data(&store), Err(StorageError::Row { row: 1, fault: RowError::Ordinal }));
    let store = store_of(&["q1,a,b,c,d,0"]);
    assert_eq!(load_data(&store), Err(StorageError::Row { row: 0, fault: RowError::Ordinal }));
}

#[test]
fn rewrite_of_a_loaded_store_loads_the_same() {
    let store = store_of(&["\"q, one\",a,b,c,d,+1", "q2,e,f,g,h,04", "q3,\"x\"\"y\",j,k,l,2"]);
    let loaded = load_data(&store).unwrap();
    let rewritten = rewrite(&loaded).unwrap();
    assert_eq!(load_data(&rewritten), Ok(loaded));
    let again = rewrite(&load_data(&rewritten).unwrap()).unwrap();
    assert_eq!(again, rewritten);
}

#[test]
fn removal_drops_every_equal_record_and_no_other() {
    let a = question("math: 2+2?", ["3", "4", "5", "6"], 1);
    let same_text_other_answers = question("math: 2+2?", ["3", "four", "5", "6"], 1);
    let same_text_other_index = question("math: 2+2?", ["3", "4", "5", "6"], 2);
    let other = question("capital?", ["Paris", "Lyon", "Nice", "Lille"], 0);
    let all = vec![
        a.clone(),
        same_text_other_answers.clone(),
        other.clone(),
        a.clone(),
        same_text_other_index.clone(),
        a.clone(),
    ];
    let kept = without_record(&all, &a);
    assert_eq!(kept, vec![same_text_other_answers, other, same_text_other_index]);
}

#[test]
fn removal_of_an_absent_record_changes_nothing() {
    let all = vec![
        question("q1", ["a", "b", "c", "d"], 0),
        question("q2", ["e", "f", "g", "h"], 3),
    ];
    let absent = question("q1", ["a", "b", "c", "d"], 1);
    assert_eq!(without_record(&all, &absent), all);
    assert_eq!(without_record(&Vec::new(), &absent), Vec::new());
}

#[test]
fn remove_from_store_rewrites_without_the_record() {
    let store = store_of(&["q1,a,b,c,d,1", "q2,e,f,g,h,4", "q1,a,b,c,d,1", "q1,a,b,c,d,2"]);
    let target = question("q1", ["a", "b", "c", "d"], 0);
    let rewritten = remove_from_csv(&store, &target).unwrap();
    let expected = format!("{}q2,e,f,g,h,4\nq1,a,b,c,d,2\n", HEADER_LINE);
    assert_eq!(rewritten, expected.into_bytes());
}

#[test]
fn remove_from_a_bad_store_reports_the_load_error() {
    let target = question("q1", ["a", "b", "c", "d"], 0);
    let store = store_of(&["q1,a,b,c,d,1", "q2,e,f,g,h,9"]);
    assert_eq!(
        remove_from_csv(&store, &target),
        Err(StorageError::Row { row: 1, fault: RowError::Ordinal })
    );
    let store = store_of(&["q1,a,b,c,d,1", "q2,e"]);
    assert_eq!(remove_from_csv(&store, &target), Err(StorageError::Malformed));
}

#[test]
fn store_agrees_with_the_csv_reader() {
    let qs = vec![
        question("one, two", ["a", "b", "c", "d"], 2),
        question("three", ["\"e\"", "f\r\ng", "", "h"], 1),
    ];
    let bytes = rewrite(&qs).unwrap();
    let mut reader = csv::Reader::from_reader(bytes.as_slice());
    let mut rows: Vec<Vec<String>> = Vec::new();
    for record in reader.records() {
        rows.push(record.unwrap().iter().map(String::from).collect());
    }
    let expected: Vec<Vec<String>> = qs.iter().map(row_from_question).collect();
    assert_eq!(rows, expected);
}

#[test]
fn append_after_a_row_without_line_end_starts_a_new_row() {
    let mut store =
        b"Question,Answer1,Answer2,Answer3,Answer4,Correct Answer\nQ,a,b,c,d,1".to_vec();
    let q = question("R", ["a", "b", "c", "d"], 1);
    let appended = append_to_store(&store, &q).unwrap();
    assert_eq!(appended, b"\nR,a,b,c,d,2\n".to_vec());
    store.extend(appended);
    assert_eq!(
        load_data(&store),
        Ok(vec![question("Q", ["a", "b", "c", "d"], 0), question("R", ["a", "b", "c", "d"], 1)])
    );
}

#[test]
fn append_after_a_line_end_adds_the_row_alone() {
    let q = question("R", ["a", "b", "c", "d"], 1);
    let row = add_to_csv(&q).unwrap();
    assert_eq!(append_to_store(&store_of(&["Q,a,b,c,d,1"]), &q), Ok(row.clone()));
    assert_eq!(append_to_store(HEADER_LINE.as_bytes(), &q), Ok(row.clone()));
    assert_eq!(append_to_store(b"h1,h2,h3,h4,h5,h6\r\nQ,a,b,c,d,1\r\n", &q), Ok(row.clone()));
    assert_eq!(append_to_store(b"h1,h2,h3,h4,h5,h6\rQ,a,b,c,d,1\r", &q), Ok(row.clone()));
    assert_eq!(append_to_store(b"", &q), Ok(row));
}

#[test]
fn append_after_a_header_without_line_end_loads_as_one_question() {
    let mut store = b"Question,Answer1,Answer2,Answer3,Answer4,Correct Answer".to_vec();
    let q = question("R", ["a", "b", "c", "d"], 3);
    store.extend(append_to_store(&store, &q).unwrap());
    assert_eq!(load_data(&store), Ok(vec![q]));
}

#[test]
fn appending_one_by_one_equals_rewriting_all() {
    let qs = vec![
        question("one, two", ["a", "b", "c", "d"], 2),
        question("three", ["\"e\"", "f", "g", "h"], 1),
        question("four", ["i", "j", "k", "l"], 0),
    ];
    let mut store = rewrite(&Vec::new()).unwrap();
    for q in &qs {
        let appended = append_to_store(&store, q).unwrap();
        store.extend(appended);
    }
    assert_eq!(store, rewrite(&qs).unwrap());
    assert_eq!(load_data(&store), Ok(qs));
}

#[test]
fn writing_never_fails() {
    let awkward = question("\"\n,\r", ["", ",", "\"\"", "\r\n"], 0);
    assert!(add_to_csv(&awkward).is_ok());
    assert!(append_to_store(b"x", &awkward).is_ok());
    assert!(rewrite(&vec![awkward.clone(), awkward.clone()]).is_ok());
    let store = rewrite(&vec![awkward.clone()]).unwrap();
    assert_eq!(remove_from_csv(&store, &awkward), rewrite(&Vec::new()));
}
