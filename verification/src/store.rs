//! The persisted store: rows of six fields under a header row.
//!
//! A row holds the prompt, the four answers, and the ordinal of the correct
//! answer counted from 1; in memory the correct answer is an index counted
//! from 0. The functions here never touch a file: they turn the bytes of a
//! store into questions, and questions into the bytes to append or to write in
//! place of the whole store.

use vstd::prelude::*;
use vstd::string::*;
use crate::decimal::{parse_index, parse_index_spec};
use crate::question::{views, Question, QuestionView, ANSWER_COUNT};
use crate::table::{format_row, parse_table, read_rows, rows_view, written_row};
use crate::text::texts;

verus! {

/// How many fields every row has.
pub const COLUMN_COUNT: usize = 6;

/// Why one row is not a question.
#[derive(Debug, Clone, Copy, PartialEq, Eq)]
pub enum RowError {
    /// The row does not have exactly six fields.
    ColumnCount,
    /// The sixth field is not a decimal number from 1 to 4.
    Ordinal,
}

/// Why a store could not be loaded or written.
#[derive(Debug, Clone, Copy, PartialEq, Eq)]
pub enum StorageError {
    /// The bytes are not a table that the reader accepts.
    Malformed,
    /// The data row with index `row`, counted from 0 below the header, is the
    /// first that is not a question.
    Row { row: usize, fault: RowError },
    /// The table writer reported an error. Writing to memory, as this crate
    /// does, it reports none: no function here returns this.
    Unwritable,
}

/// The sixth field of a row whose correct answer has the given index.
pub open spec fn ordinal_text(index: nat) -> Seq<char> {
    if index == 0 {
        seq!['1']
    } else if index == 1 {
        seq!['2']
    } else if index == 2 {
        seq!['3']
    } else {
        seq!['4']
    }
}

/// The index that a sixth field stands for: one less than the number it
/// writes, where that number is 1, 2, 3 or 4.
pub open spec fn ordinal_index(text: Seq<char>) -> Option<nat> {
    match parse_index_spec(text) {
        Some(n) => if 1 <= n <= ANSWER_COUNT {
            Some((n - 1) as nat)
        } else {
            None
        },
        None => None,
    }
}

/// The six fields under which a question is stored.
pub open spec fn row_of(q: QuestionView) -> Seq<Seq<char>> {
    seq![q.text] + q.answers + seq![ordinal_text(q.correct_index)]
}

/// The question that a row stands for.
pub open spec fn question_of(row: Seq<Seq<char>>) -> Result<QuestionView, RowError> {
    if row.len() != COLUMN_COUNT {
        Err(RowError::ColumnCount)
    } else {
        match ordinal_index(row[5]) {
            Some(index) => Ok(
                QuestionView { text: row[0], answers: row.subrange(1, 5), correct_index: index },
            ),
            None => Err(RowError::Ordinal),
        }
    }
}

/// The index of the first row that is not a question, if there is one.
pub open spec fn first_fault(rows: Seq<Seq<Seq<char>>>) -> Option<int>
    decreases rows.len(),
{
    if rows.len() == 0 {
        None
    } else {
        match first_fault(rows.drop_last()) {
            Some(k) => Some(k),
            None => if question_of(rows.last()) is Err {
                Some(rows.len() - 1)
            } else {
                None
            },
        }
    }
}

/// What loading gives for the data rows of a store: every row as a question,
/// in order, or the fault of the first row that is none.
pub open spec fn load_rows(rows: Seq<Seq<Seq<char>>>) -> Result<Seq<QuestionView>, StorageError> {
    match first_fault(rows) {
        Some(k) => Err(StorageError::Row { row: k as usize, fault: question_of(rows[k])->Err_0 }),
        None => Ok(Seq::new(rows.len(), |i: int| question_of(rows[i])->Ok_0)),
    }
}

/// What loading gives for the bytes of a store.
pub open spec fn load_spec(data: Seq<u8>) -> Result<Seq<QuestionView>, StorageError> {
    match read_rows(data) {
        Some(rows) => load_rows(rows),
        None => Err(StorageError::Malformed),
    }
}

/// The rows under which a list of questions is stored.
pub open spec fn rows_of(questions: Seq<QuestionView>) -> Seq<Seq<Seq<char>>> {
    Seq::new(questions.len(), |i: int| row_of(questions[i]))
}

/// The header row that every rewritten store starts with.
pub open spec fn header_row() -> Seq<Seq<char>> {
    seq!["Question"@, "Answer1"@, "Answer2"@, "Answer3"@, "Answer4"@, "Correct Answer"@]
}

/// The bytes of a run of rows, one after the other.
pub open spec fn rows_image(rows: Seq<Seq<Seq<char>>>) -> Seq<u8>
    decreases rows.len(),
{
    if rows.len() == 0 {
        Seq::empty()
    } else {
        rows_image(rows.drop_last()) + written_row(rows.last())
    }
}

/// The bytes of a whole store that holds the given questions.
pub open spec fn store_image(questions: Seq<QuestionView>) -> Seq<u8> {
    written_row(header_row()) + rows_image(rows_of(questions))
}

/// The store has a last row that no line end closes.
pub open spec fn lacks_line_end(data: Seq<u8>) -> bool {
    data.len() > 0 && data.last() != 0x0a && data.last() != 0x0d
}

/// The bytes appended to the store `data` to add the question `q`: a line end
/// where the last row lacks one, then the row of `q`.
pub open spec fn appended_bytes(data: Seq<u8>, q: QuestionView) -> Seq<u8> {
    if lacks_line_end(data) {
        seq![0x0au8] + written_row(row_of(q))
    } else {
        written_row(row_of(q))
    }
}

/// The predicate "is another record than `target`".
pub open spec fn differs_from(target: QuestionView) -> spec_fn(QuestionView) -> bool {
    |q: QuestionView| q != target
}

/// The records that stay when `target` is removed: all that differ from it,
/// in their order.
pub open spec fn survivors(questions: Seq<QuestionView>, target: QuestionView) -> Seq<
    QuestionView,
> {
    questions.filter(differs_from(target))
}

/// The result of a load, as plain values.
pub open spec fn loaded_view(loaded: Result<Vec<Question>, StorageError>) -> Result<
    Seq<QuestionView>,
    StorageError,
> {
    match loaded {
        Ok(questions) => Ok(views(questions@)),
        Err(e) => Err(e),
    }
}

/// `first_fault` is the least index of a row that is no question, and `None`
/// exactly when every row is one.
pub proof fn lemma_first_fault(rows: Seq<Seq<Seq<char>>>)
    ensures
        match first_fault(rows) {
            Some(k) => {
                &&& 0 <= k < rows.len()
                &&& question_of(rows[k]) is Err
                &&& forall|j: int| 0 <= j < k ==> question_of(#[trigger] rows[j]) is Ok
            },
            None => forall|j: int| 0 <= j < rows.len() ==> question_of(#[trigger] rows[j]) is Ok,
        },
    decreases rows.len(),
{
    if rows.len() > 0 {
        let front = rows.drop_last();
        lemma_first_fault(front);
        assert(forall|j: int| 0 <= j < front.len() ==> front[j] == rows[j]);
    }
}

/// Reads the sixth field of a row: `Some(n - 1)` where the text is a decimal
/// number `n` from 1 to 4 (an optional `+`, then digits), `None` otherwise.
pub fn parse_ordinal(text: &str) -> (index: Option<usize>)
    ensures
        match index {
            Some(i) => ordinal_index(text@) == Some(i as nat),
            None => ordinal_index(text@) is None,
        },
{
    match parse_index(text) {
        Some(n) => if 1 <= n && n <= ANSWER_COUNT {
            Some(n - 1)
        } else {
            None
        },
        None => None,
    }
}

/// Writes the sixth field for a correct index.
fn ordinal_string(index: usize) -> (text: String)
    requires
        index < ANSWER_COUNT,
    ensures
        text@ == ordinal_text(index as nat),
{
    let digit: &str = if index == 0 {
        "1"
    } else if index == 1 {
        "2"
    } else if index == 2 {
        "3"
    } else {
        "4"
    };
    proof {
        reveal_strlit("1");
        reveal_strlit("2");
        reveal_strlit("3");
        reveal_strlit("4");
        assert(digit@ =~= ordinal_text(index as nat));
    }
    digit.to_owned()
}

/// Turns one row into a question: `Ok` exactly for six fields of which the
/// last is an ordinal from 1 to 4.
pub fn question_from_row(row: &Vec<String>) -> (parsed: Result<Question, RowError>)
    ensures
        match parsed {
            Ok(q) => question_of(texts(row@)) == Ok::<QuestionView, RowError>(q@),
            Err(e) => question_of(texts(row@)) == Err::<QuestionView, RowError>(e),
        },
{
    if row.len() != COLUMN_COUNT {
        return Err(RowError::ColumnCount);
    }
    match parse_ordinal(row[5].as_str()) {
        None => Err(RowError::Ordinal),
        Some(index) => {
            let mut answers: Vec<String> = Vec::new();
            answers.push(row[1].clone());
            answers.push(row[2].clone());
            answers.push(row[3].clone());
            answers.push(row[4].clone());
            assert(texts(answers@) =~= texts(row@).subrange(1, 5));
            let made = Question::new(row[0].clone(), answers, index);
            Ok(made.unwrap())
        },
    }
}

/// Turns a question into its row of six fields.
pub fn row_from_question(q: &Question) -> (row: Vec<String>)
    ensures
        texts(row@) == row_of(q@),
{
    let answers = q.answers();
    let mut row: Vec<String> = Vec::new();
    row.push(q.question().to_owned());
    row.push(answers[0].clone());
    row.push(answers[1].clone());
    row.push(answers[2].clone());
    row.push(answers[3].clone());
    row.push(ordinal_string(q.correct_answer()));
    assert(texts(row@) =~= row_of(q@));
    row
}

/// Turns the data rows of a store into questions. The first row that is no
/// question ends the load with its index and fault.
pub fn questions_from_rows(rows: &Vec<Vec<String>>) -> (loaded: Result<
    Vec<Question>,
    StorageError,
>)
    ensures
        loaded_view(loaded) == load_rows(rows_view(rows@)),
{
    let ghost all = rows_view(rows@);
    let mut questions: Vec<Question> = Vec::new();
    let mut i: usize = 0;
    proof {
        lemma_first_fault(all);
    }
    while i < rows.len()
        invariant
            i <= rows@.len(),
            all == rows_view(rows@),
            questions@.len() == i,
            forall|j: int| 0 <= j < i ==> question_of(#[trigger] all[j]) == Ok::<QuestionView, RowError>(questions@[j]@),
            match first_fault(all) {
                Some(k) => {
                    &&& 0 <= k < all.len()
                    &&& question_of(all[k]) is Err
                    &&& forall|j: int| 0 <= j < k ==> question_of(#[trigger] all[j]) is Ok
                },
                None => forall|j: int| 0 <= j < all.len() ==> question_of(#[trigger] all[j]) is Ok,
            },
        decreases rows@.len() - i,
    {
        assert(all[i as int] == texts(rows@[i as int]@));
        match question_from_row(&rows[i]) {
            Ok(q) => {
                questions.push(q);
            },
            Err(fault) => {
                assert(question_of(all[i as int]) is Err);
                assert(first_fault(all) == Some(i as int));
                return Err(StorageError::Row { row: i, fault });
            },
        }
        i = i + 1;
    }
    assert(first_fault(all) is None);
    assert(views(questions@) =~= Seq::new(all.len(), |j: int| question_of(all[j])->Ok_0));
    Ok(questions)
}

/// Loads a store from its bytes.
///
/// The first row is the header and is left out. The load fails as `Malformed`
/// where the reader rejects the table, and with the first faulty row where a
/// row is not a question; nothing is recovered from a store with a bad row.
pub fn load_data(data: &[u8]) -> (loaded: Result<Vec<Question>, StorageError>)
    ensures
        loaded_view(loaded) == load_spec(data@),
{
    match parse_table(data) {
        Ok(rows) => questions_from_rows(&rows),
        Err(_) => Err(StorageError::Malformed),
    }
}

/// The bytes of the one row under which a question is stored. This always
/// succeeds.
///
/// The row starts with the prompt: appended to a store whose last row has no
/// line end it would run into that row. `append_to_store` looks at the end of
/// the store first.
pub fn add_to_csv(q: &Question) -> (appended: Result<Vec<u8>, StorageError>)
    ensures
        appended is Ok,
        appended->Ok_0@ == written_row(row_of(q@)),
{
    let row = row_from_question(q);
    match format_row(&row) {
        Ok(bytes) => Ok(bytes),
        Err(_) => Err(StorageError::Unwritable),
    }
}

/// The bytes to append to the store `data` to add one question: a line end
/// where the store's last row has none, then exactly one row. This always
/// succeeds, and no byte of the store is rewritten.
pub fn append_to_store(data: &[u8], q: &Question) -> (appended: Result<Vec<u8>, StorageError>)
    ensures
        appended is Ok,
        appended->Ok_0@ == appended_bytes(data@, q@),
{
    let mut out: Vec<u8> = Vec::new();
    let n: usize = data.len();
    if n > 0 && data[n - 1] != 0x0au8 && data[n - 1] != 0x0du8 {
        out.push(0x0au8);
    }
    match add_to_csv(q) {
        Ok(row) => {
            let mut row = row;
            out.append(&mut row);
            assert(out@ =~= appended_bytes(data@, q@));
            Ok(out)
        },
        Err(e) => Err(e),
    }
}

/// The fields of the header row.
pub fn header() -> (row: Vec<String>)
    ensures
        texts(row@) == header_row(),
{
    let mut row: Vec<String> = Vec::new();
    row.push("Question".to_owned());
    row.push("Answer1".to_owned());
    row.push("Answer2".to_owned());
    row.push("Answer3".to_owned());
    row.push("Answer4".to_owned());
    row.push("Correct Answer".to_owned());
    assert(texts(row@) =~= header_row());
    row
}

/// The bytes of a whole store that holds the given questions: the header row,
/// then one row for each question, in the order given. This always succeeds.
pub fn rewrite(questions: &Vec<Question>) -> (written: Result<Vec<u8>, StorageError>)
    ensures
        written is Ok,
        written->Ok_0@ == store_image(views(questions@)),
{
    let ghost rows = rows_of(views(questions@));
    let mut out: Vec<u8> = match format_row(&header()) {
        Ok(bytes) => bytes,
        Err(_) => {
            return Err(StorageError::Unwritable);
        },
    };
    let mut i: usize = 0;
    while i < questions.len()
        invariant
            i <= questions@.len(),
            rows == rows_of(views(questions@)),
            out@ == written_row(header_row()) + rows_image(rows.take(i as int)),
        decreases questions@.len() - i,
    {
        let row = row_from_question(&questions[i]);
        let mut bytes: Vec<u8> = match format_row(&row) {
            Ok(bytes) => bytes,
            Err(_) => {
                return Err(StorageError::Unwritable);
            },
        };
        proof {
            let next = rows.take(i + 1);
            assert(next.drop_last() =~= rows.take(i as int));
            assert(next.last() == row_of(questions@[i as int]@));
            assert(written_row(header_row()) + rows_image(rows.take(i as int)) + bytes@
                =~= written_row(header_row()) + rows_image(next));
        }
        out.append(&mut bytes);
        i = i + 1;
    }
    assert(rows.take(i as int) =~= rows);
    Ok(out)
}

/// The records of a list without those equal to `target`, in their order.
/// Every record equal to `target` goes, not only the first.
pub fn without_record(questions: &Vec<Question>, target: &Question) -> (kept: Vec<Question>)
    ensures
        views(kept@) == survivors(views(questions@), target@),
{
    let ghost all = views(questions@);
    let ghost pred = differs_from(target@);
    let mut kept: Vec<Question> = Vec::new();
    let mut i: usize = 0;
    proof {
        reveal(Seq::filter);
        assert(views(kept@) =~= all.take(0).filter(pred));
    }
    while i < questions.len()
        invariant
            i <= questions@.len(),
            all == views(questions@),
            pred == differs_from(target@),
            views(kept@) == all.take(i as int).filter(pred),
        decreases questions@.len() - i,
    {
        let q = &questions[i];
        let ghost before = views(kept@);
        proof {
            reveal(Seq::filter);
            assert(all.take(i + 1).drop_last() =~= all.take(i as int));
            assert(all.take(i + 1).last() == q@);
        }
        if !q.same_record(target) {
            kept.push(q.clone());
            assert(views(kept@) =~= before.push(q@));
        }
        i = i + 1;
    }
    assert(all.take(i as int) =~= all);
    kept
}

/// The bytes of the store that `data` becomes when every record equal to
/// `target` is removed from it: the store is loaded, filtered and written
/// anew, header first. This succeeds exactly when the store loads; otherwise
/// the error is that of the load.
pub fn remove_from_csv(data: &[u8], target: &Question) -> (rewritten: Result<
    Vec<u8>,
    StorageError,
>)
    ensures
        rewritten is Ok <==> load_spec(data@) is Ok,
        match load_spec(data@) {
            Ok(questions) => rewritten is Ok && rewritten->Ok_0@ == store_image(
                survivors(questions, target@),
            ),
            Err(fault) => rewritten == Err::<Vec<u8>, StorageError>(fault),
        },
{
    match load_data(data) {
        Ok(questions) => rewrite(&without_record(&questions, target)),
        Err(e) => Err(e),
    }
}

} // verus!
