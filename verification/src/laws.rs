//! What holds of storing, loading and removing, and of the dialogue, whatever
//! the questions and the lines are.
//!
//! The laws speak of rows: the fields that the table reader hands over and
//! that the table writer is handed. Where a law is carried down to the bytes
//! of a store, it says so under the one condition that nothing here can
//! prove: that the reader gives back the rows that the writer wrote.

use vstd::prelude::*;
use crate::decimal::{
    all_digits, decimal_value, digit_value, digits_value, is_digit, unsigned_part,
};
use crate::question::{all_wf, QuestionView, ANSWER_COUNT};
use crate::session::{step_spec, OutcomeView, PhaseView};
use crate::store::{
    appended_bytes, differs_from, first_fault, lacks_line_end, header_row, lemma_first_fault, load_rows, load_spec, ordinal_index,
    ordinal_text, question_of, row_of, rows_image, rows_of, store_image, survivors, RowError,
    StorageError,
};
use crate::table::{read_rows, written_row};

verus! {

/// The reader gives back, for the bytes of a store written from `questions`,
/// the rows that were written below the header.
pub open spec fn reads_back(questions: Seq<QuestionView>) -> bool {
    read_rows(store_image(questions)) == Some(rows_of(questions))
}

/// A single digit writes its own value.
pub proof fn lemma_single_digit(c: char)
    requires
        is_digit(c),
    ensures
        decimal_value(seq![c]) == Some(digit_value(c)),
{
    let s = seq![c];
    assert(unsigned_part(s) == s);
    assert(all_digits(s));
    assert(s.drop_last().len() == 0);
    assert(s.last() == c);
    reveal_with_fuel(digits_value, 2);
}

/// Ordinal symmetry: the ordinal stored for a correct index, from 1 to 4,
/// reads back as that index, from 0 to 3.
pub proof fn lemma_ordinal_symmetry(index: nat)
    requires
        index < ANSWER_COUNT,
    ensures
        ordinal_index(ordinal_text(index)) == Some(index),
{
    lemma_single_digit('1');
    lemma_single_digit('2');
    lemma_single_digit('3');
    lemma_single_digit('4');
}

/// An index read from an ordinal is below four, and the ordinal written for
/// it stands for the same index as the text it was read from.
pub proof fn lemma_ordinal_index_in_range(text: Seq<char>)
    requires
        ordinal_index(text) is Some,
    ensures
        ordinal_index(text)->0 < ANSWER_COUNT,
        ordinal_index(ordinal_text(ordinal_index(text)->0)) == ordinal_index(text),
{
    lemma_ordinal_symmetry(ordinal_index(text)->0);
}

/// Round trip of one record: the row written for a well-formed question is
/// read as that question, with its prompt, its answers in their order, and
/// its correct index.
pub proof fn lemma_row_round_trip(q: QuestionView)
    requires
        q.wf(),
    ensures
        question_of(row_of(q)) == Ok::<QuestionView, RowError>(q),
{
    let row = row_of(q);
    lemma_ordinal_symmetry(q.correct_index);
    assert(row.len() == 6);
    assert(row[0] == q.text);
    assert(row[5] == ordinal_text(q.correct_index));
    assert(row.subrange(1, 5) =~= q.answers);
}

/// Every question read from a row has four answers and a correct index that
/// points at one of them.
pub proof fn lemma_row_question_is_well_formed(row: Seq<Seq<char>>)
    requires
        question_of(row) is Ok,
    ensures
        question_of(row)->Ok_0.wf(),
{
    lemma_ordinal_index_in_range(row[5]);
}

/// Every question of a loaded store is well formed, and there are as many
/// questions as data rows.
pub proof fn lemma_loaded_are_well_formed(rows: Seq<Seq<Seq<char>>>)
    requires
        load_rows(rows) is Ok,
    ensures
        all_wf(load_rows(rows)->Ok_0),
        load_rows(rows)->Ok_0.len() == rows.len(),
{
    lemma_first_fault(rows);
    let loaded = load_rows(rows)->Ok_0;
    assert forall|i: int| 0 <= i < loaded.len() implies (#[trigger] loaded[i]).wf() by {
        assert(question_of(rows[i]) is Ok);
        lemma_row_question_is_well_formed(rows[i]);
    }
}

/// A load fails exactly when some row is no question; the error then names
/// the first such row and its fault.
pub proof fn lemma_load_fails_on_first_fault(rows: Seq<Seq<Seq<char>>>, k: int)
    requires
        0 <= k < rows.len(),
        k <= usize::MAX,
        question_of(rows[k]) is Err,
        forall|j: int| 0 <= j < k ==> question_of(#[trigger] rows[j]) is Ok,
    ensures
        load_rows(rows) == Err::<Seq<QuestionView>, StorageError>(
            StorageError::Row { row: k as usize, fault: question_of(rows[k])->Err_0 },
        ),
{
    lemma_first_fault(rows);
    let found = first_fault(rows);
    assert(found is Some);
    if found->0 < k {
        assert(question_of(rows[found->0]) is Ok);
    }
}

/// Loading the rows written for well-formed questions gives back those
/// questions, in their order.
pub proof fn lemma_load_of_written_rows(questions: Seq<QuestionView>)
    requires
        all_wf(questions),
    ensures
        load_rows(rows_of(questions)) == Ok::<Seq<QuestionView>, StorageError>(questions),
{
    let rows = rows_of(questions);
    lemma_first_fault(rows);
    assert forall|i: int| 0 <= i < rows.len() implies question_of(#[trigger] rows[i]) == Ok::<
        QuestionView,
        RowError,
    >(questions[i]) by {
        assert(questions[i].wf());
        lemma_row_round_trip(questions[i]);
    }
    if first_fault(rows) is Some {
        assert(question_of(rows[first_fault(rows)->0]) is Ok);
    }
    assert(load_rows(rows)->Ok_0 =~= questions);
}

/// Round trip: a store that holds nothing but the row appended for a
/// well-formed question loads as that one question.
pub proof fn lemma_append_to_empty_round_trip(q: QuestionView)
    requires
        q.wf(),
    ensures
        load_rows(seq![row_of(q)]) == Ok::<Seq<QuestionView>, StorageError>(seq![q]),
        reads_back(seq![q]) ==> load_spec(written_row(header_row()) + written_row(row_of(q)))
            == Ok::<Seq<QuestionView>, StorageError>(seq![q]),
{
    let one = seq![q];
    assert(all_wf(one));
    lemma_load_of_written_rows(one);
    assert(rows_of(one) =~= seq![row_of(q)]);
    assert(rows_of(one).drop_last() =~= Seq::<Seq<Seq<char>>>::empty());
    reveal_with_fuel(rows_image, 2);
    assert(rows_image(rows_of(one)) =~= written_row(row_of(q)));
}

/// Appending keeps what was there: after the row of a well-formed question is
/// added to rows that load, the load gives the former questions followed by
/// the new one.
pub proof fn lemma_append_extends_load(rows: Seq<Seq<Seq<char>>>, q: QuestionView)
    requires
        q.wf(),
        load_rows(rows) is Ok,
    ensures
        load_rows(rows.push(row_of(q))) == Ok::<Seq<QuestionView>, StorageError>(
            load_rows(rows)->Ok_0.push(q),
        ),
{
    let more = rows.push(row_of(q));
    lemma_first_fault(rows);
    lemma_first_fault(more);
    lemma_row_round_trip(q);
    assert forall|i: int| 0 <= i < more.len() implies question_of(#[trigger] more[i]) is Ok by {
        if i < rows.len() {
            assert(more[i] == rows[i]);
        }
    }
    if first_fault(more) is Some {
        assert(question_of(more[first_fault(more)->0]) is Ok);
    }
    assert(load_rows(more)->Ok_0 =~= load_rows(rows)->Ok_0.push(q));
}

/// Appending writes one row after the bytes that were there and changes none
/// of them.
pub proof fn lemma_append_extends_image(questions: Seq<QuestionView>, q: QuestionView)
    ensures
        store_image(questions.push(q)) == store_image(questions) + written_row(row_of(q)),
{
    let more = rows_of(questions.push(q));
    assert(more.drop_last() =~= rows_of(questions));
    assert(more.last() == row_of(q));
    assert(store_image(questions.push(q)) =~= store_image(questions) + written_row(row_of(q)));
}

/// Every written row ends with a line end.
pub proof fn lemma_written_row_ends_line(fields: Seq<Seq<char>>)
    ensures
        written_row(fields).len() > 0,
        written_row(fields).last() == 0x0a,
{
}

/// A store written from questions ends with a line end, so that appending to
/// it adds the new row and nothing else, and gives the store written from the
/// questions with the new one at their end.
pub proof fn lemma_append_to_written_store(questions: Seq<QuestionView>, q: QuestionView)
    ensures
        !lacks_line_end(store_image(questions)),
        appended_bytes(store_image(questions), q) == written_row(row_of(q)),
        store_image(questions) + appended_bytes(store_image(questions), q) == store_image(
            questions.push(q),
        ),
{
    let rows = rows_of(questions);
    lemma_written_row_ends_line(header_row());
    if rows.len() > 0 {
        lemma_written_row_ends_line(rows.last());
    }
    assert(store_image(questions).last() == 0x0a);
    lemma_append_extends_image(questions, q);
}

/// Appending adds exactly one row and rewrites nothing: the store as it was
/// is the start of the store after the append, the row of the new question is
/// its end, and that row starts the store or follows a line end.
pub proof fn lemma_append_adds_one_row(data: Seq<u8>, q: QuestionView)
    ensures
        ({
            let after = data + appended_bytes(data, q);
            let row = written_row(row_of(q));
            let start = after.len() - row.len();
            &&& after.subrange(0, data.len() as int) == data
            &&& data.len() <= start
            &&& after.subrange(start, after.len() as int) == row
            &&& (start == 0 || after[start - 1] == 0x0a || after[start - 1] == 0x0d)
        }),
{
    let after = data + appended_bytes(data, q);
    let row = written_row(row_of(q));
    let start = after.len() - row.len();
    assert(after.subrange(0, data.len() as int) =~= data);
    assert(after.subrange(start, after.len() as int) =~= row);
    if start > 0 && !lacks_line_end(data) {
        assert(after[start - 1] == data.last());
    }
}

/// Idempotent rewrite: writing the questions of a loaded store anew and
/// loading again gives the same questions.
pub proof fn lemma_rewrite_is_idempotent(rows: Seq<Seq<Seq<char>>>)
    requires
        load_rows(rows) is Ok,
    ensures
        load_rows(rows_of(load_rows(rows)->Ok_0)) == load_rows(rows),
        reads_back(load_rows(rows)->Ok_0) ==> load_spec(store_image(load_rows(rows)->Ok_0))
            == load_rows(rows),
{
    lemma_loaded_are_well_formed(rows);
    lemma_load_of_written_rows(load_rows(rows)->Ok_0);
}

/// Removal exactness: the records that stay are those that differ from the
/// target. None equal to it stays, however often it occurs, and every other
/// record stays, also one with the same prompt but other answers or another
/// correct index.
pub proof fn lemma_removal_is_exact(questions: Seq<QuestionView>, target: QuestionView)
    ensures
        forall|q: QuestionView|
            survivors(questions, target).contains(q) <==> questions.contains(q) && q != target,
        !survivors(questions, target).contains(target),
        forall|i: int|
            0 <= i < questions.len() && (#[trigger] questions[i]).text == target.text && (
            questions[i].answers != target.answers || questions[i].correct_index
                != target.correct_index) ==> survivors(questions, target).contains(questions[i]),
{
    let pred = differs_from(target);
    let kept = survivors(questions, target);
    assert forall|q: QuestionView| kept.contains(q) <==> questions.contains(q) && q
        != target by {
        if kept.contains(q) {
            let i = choose|i: int| 0 <= i < kept.len() && kept[i] == q;
            questions.lemma_filter_pred(pred, i);
            questions.lemma_filter_contains_rev(pred, q);
        }
        if questions.contains(q) && q != target {
            let i = choose|i: int| 0 <= i < questions.len() && questions[i] == q;
            questions.lemma_filter_contains(pred, i);
        }
    }
    assert forall|i: int|
        0 <= i < questions.len() && (#[trigger] questions[i]).text == target.text && (
        questions[i].answers != target.answers || questions[i].correct_index
            != target.correct_index) implies kept.contains(questions[i]) by {
        assert(questions.contains(questions[i]));
    }
}

/// Removal keeps the order and the number of the records that stay: removing
/// from a list with one more record at its end removes from the list, then
/// keeps or drops that record.
pub proof fn lemma_removal_keeps_order(
    questions: Seq<QuestionView>,
    last: QuestionView,
    target: QuestionView,
)
    ensures
        survivors(questions.push(last), target) == if last == target {
            survivors(questions, target)
        } else {
            survivors(questions, target).push(last)
        },
{
    reveal(Seq::filter);
    assert(questions.push(last).drop_last() =~= questions);
}

/// Removing a record that the store does not hold changes nothing, and so
/// does removing a record a second time.
pub proof fn lemma_removal_of_absent(questions: Seq<QuestionView>, target: QuestionView)
    ensures
        !questions.contains(target) ==> survivors(questions, target) == questions,
        survivors(survivors(questions, target), target) == survivors(questions, target),
    decreases questions.len(),
{
    reveal(Seq::filter);
    if questions.len() > 0 {
        let front = questions.drop_last();
        let last = questions.last();
        lemma_removal_of_absent(front, target);
        lemma_removal_keeps_order(front, last, target);
        assert(front.push(last) =~= questions);
        if !questions.contains(target) {
            assert forall|i: int| 0 <= i < front.len() implies front[i] != target by {
                assert(questions[i] == front[i]);
            }
            assert(!front.contains(target));
            assert(last == questions[questions.len() - 1]);
        }
        if last != target {
            lemma_removal_keeps_order(survivors(front, target), last, target);
        }
    }
}

/// Every step of the dialogue leads from a well-formed phase to a
/// well-formed phase, and a question handed out to be appended is well formed:
/// nothing malformed is ever stored.
pub proof fn lemma_step_keeps_well_formed(
    phase: PhaseView,
    questions: Seq<QuestionView>,
    line: Seq<char>,
)
    requires
        phase.wf(),
    ensures
        step_spec(phase, questions, line).0.wf(),
        step_spec(phase, questions, line).1 matches OutcomeView::Append(q) ==> q.wf(),
{
    if let PhaseView::CollectingCorrectIndex { question, answers } = phase {
        if ordinal_index(line) is Some {
            lemma_ordinal_index_in_range(line);
        }
    }
}

/// The store is touched only on an explicit answer: a removal is asked for
/// only by the line `y` in reply to the confirmation, and then for the very
/// question that was shown; an append only by a valid ordinal after a prompt
/// and four answers.
pub proof fn lemma_store_changes_only_on_answer(
    phase: PhaseView,
    questions: Seq<QuestionView>,
    line: Seq<char>,
)
    ensures
        step_spec(phase, questions, line).1 matches OutcomeView::Remove(q) ==> line == "y"@
            && phase == (PhaseView::ConfirmingRemoval { target: q }),
        step_spec(phase, questions, line).1 is Append ==> phase is CollectingCorrectIndex
            && ordinal_index(line) is Some,
{
}

} // verus!
