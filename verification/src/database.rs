//! The lectures of a degree as rows of a table.
//!
//! The table `lectures` has the columns `title`, `url` and `degree_id`. This
//! file decides which rows are the lectures of a degree, and which statements
//! save them; running the statements is left to the caller.

use crate::datasource::ErrorKind;
use crate::datasource::LoadResult;
use crate::datasource::SourceError;
use crate::datasource::SourceErrorView;
use crate::entities::Lecture;
use crate::entities::LectureView;
use crate::entities::StaticDegree;
use crate::text::same_text;
use vstd::prelude::*;

verus! {

/// What a load says of a degree without rows.
pub const NOTHING_STORED: &'static str = "No lectures in database for degree ";

/// One row of the table.
#[derive(Debug)]
pub struct LectureRow {
    pub title: String,
    pub url: String,
    pub degree_id: String,
}

/// What a [`LectureRow`] holds, as plain text.
pub struct RowView {
    pub title: Seq<char>,
    pub url: Seq<char>,
    pub degree_id: Seq<char>,
}

impl View for LectureRow {
    type V = RowView;

    open spec fn view(&self) -> RowView {
        RowView { title: self.title@, url: self.url@, degree_id: self.degree_id@ }
    }
}

impl DeepView for LectureRow {
    type V = RowView;

    open spec fn deep_view(&self) -> RowView {
        self@
    }
}

/// A statement on the table.
#[derive(Debug)]
pub enum Statement {
    /// Removes every row of the degree.
    DeleteDegree { degree_id: String },
    /// Adds the row.
    Insert { row: LectureRow },
}

/// What a [`Statement`] holds, as plain text.
pub enum StatementView {
    DeleteDegree { degree_id: Seq<char> },
    Insert { row: RowView },
}

impl View for Statement {
    type V = StatementView;

    open spec fn view(&self) -> StatementView {
        match self {
            Statement::DeleteDegree { degree_id } => StatementView::DeleteDegree {
                degree_id: degree_id@,
            },
            Statement::Insert { row } => StatementView::Insert { row: row@ },
        }
    }
}

impl DeepView for Statement {
    type V = StatementView;

    open spec fn deep_view(&self) -> StatementView {
        self@
    }
}

/// The lecture that a row stands for. A row has no categories.
pub open spec fn record_of(row: RowView) -> LectureView {
    LectureView { title: row.title, url: row.url, categories: None }
}

/// The row that stands for a lecture of the degree `degree_id`.
pub open spec fn row_of(lecture: LectureView, degree_id: Seq<char>) -> RowView {
    RowView { title: lecture.title, url: lecture.url, degree_id }
}

/// The lectures that the rows of the degree `degree_id` stand for, in the
/// order of the rows.
pub open spec fn records_of(rows: Seq<RowView>, degree_id: Seq<char>) -> Seq<LectureView>
    decreases rows.len(),
{
    if rows.len() == 0 {
        Seq::empty()
    } else if rows.last().degree_id == degree_id {
        records_of(rows.drop_last(), degree_id).push(record_of(rows.last()))
    } else {
        records_of(rows.drop_last(), degree_id)
    }
}

/// The rows that stand for `lectures` as lectures of the degree `degree_id`.
pub open spec fn rows_of(lectures: Seq<LectureView>, degree_id: Seq<char>) -> Seq<RowView> {
    Seq::new(lectures.len(), |i: int| row_of(lectures[i], degree_id))
}

/// The statements that save `lectures` as the lectures of the degree
/// `degree_id`: the rows of the degree go, then one row comes for each
/// lecture.
pub open spec fn save_plan(lectures: Seq<LectureView>, degree_id: Seq<char>) -> Seq<
    StatementView,
> {
    Seq::new(
        lectures.len() + 1,
        |i: int|
            if i == 0 {
                StatementView::DeleteDegree { degree_id }
            } else {
                StatementView::Insert { row: row_of(lectures[i - 1], degree_id) }
            },
    )
}

/// The failure of a load for a degree without rows.
pub open spec fn nothing_stored(degree: StaticDegree) -> SourceErrorView {
    SourceErrorView {
        kind: ErrorKind::Missing,
        degree_id: degree.id@,
        message: NOTHING_STORED@ + degree.name@,
    }
}

/// The lectures of `degree` among `rows`, in the order of the rows and
/// without categories. Where no row belongs to the degree the load fails with
/// the kind `Missing`, so that the next source is asked.
pub fn lectures_from_rows(degree: &StaticDegree, rows: &Vec<LectureRow>) -> (result: LoadResult)
    ensures
        match result {
            Ok(lectures) => lectures.deep_view() == records_of(rows.deep_view(), degree.id@)
                && lectures.len() > 0,
            Err(error) => records_of(rows.deep_view(), degree.id@).len() == 0 && error@
                == nothing_stored(*degree),
        },
{
    let mut lectures: Vec<Lecture> = Vec::new();
    let mut i: usize = 0;
    proof {
        assert(rows.deep_view().take(0) =~= Seq::<RowView>::empty());
        assert(lectures.deep_view() =~= Seq::<LectureView>::empty());
    }
    while i < rows.len()
        invariant
            i <= rows.len(),
            lectures.deep_view() == records_of(rows.deep_view().take(i as int), degree.id@),
        decreases rows.len() - i,
    {
        let row = &rows[i];
        proof {
            let next = rows.deep_view().take(i + 1);
            assert(next.drop_last() =~= rows.deep_view().take(i as int));
            assert(next.last() == row@);
        }
        if same_text(row.degree_id.as_str(), degree.id) {
            let ghost before = lectures.deep_view();
            let lecture = Lecture {
                title: row.title.clone(),
                url: row.url.clone(),
                categories: None,
            };
            lectures.push(lecture);
            assert(lectures.deep_view() =~= before.push(record_of(row@)));
        }
        i = i + 1;
    }
    assert(rows.deep_view().take(i as int) =~= rows.deep_view());
    if lectures.len() == 0 {
        Err(SourceError::new(ErrorKind::Missing, degree, NOTHING_STORED, degree.name))
    } else {
        Ok(lectures)
    }
}

/// The statements that save `lectures` as the lectures of `degree`, to be
/// run in this order inside one transaction.
pub fn save_statements(degree: &StaticDegree, lectures: &[Lecture]) -> (statements: Vec<
    Statement,
>)
    ensures
        statements.deep_view() == save_plan(lectures.deep_view(), degree.id@),
{
    let mut statements: Vec<Statement> = Vec::new();
    statements.push(Statement::DeleteDegree { degree_id: String::from_str(degree.id) });
    let mut i: usize = 0;
    while i < lectures.len()
        invariant
            i <= lectures.len(),
            statements.len() == i + 1,
            forall|k: int|
                0 <= k < statements.len() ==> (#[trigger] statements@[k])@ == save_plan(
                    lectures.deep_view(),
                    degree.id@,
                )[k],
        decreases lectures.len() - i,
    {
        let row = LectureRow {
            title: lectures[i].title.clone(),
            url: lectures[i].url.clone(),
            degree_id: String::from_str(degree.id),
        };
        assert(lectures.deep_view()[i as int] == lectures[i as int]@);
        statements.push(Statement::Insert { row });
        i = i + 1;
    }
    assert(statements.deep_view() =~= save_plan(lectures.deep_view(), degree.id@));
    statements
}

/// The table after `statement`.
pub open spec fn applied(table: Seq<RowView>, statement: StatementView) -> Seq<RowView> {
    match statement {
        StatementView::DeleteDegree { degree_id } => table.filter(
            |row: RowView| row.degree_id != degree_id,
        ),
        StatementView::Insert { row } => table.push(row),
    }
}

/// The table after `statements`, run in their order.
pub open spec fn applied_all(table: Seq<RowView>, statements: Seq<StatementView>) -> Seq<RowView>
    decreases statements.len(),
{
    if statements.len() == 0 {
        table
    } else {
        applied(applied_all(table, statements.drop_last()), statements.last())
    }
}

/// `lecture` as the table keeps it: without categories.
pub open spec fn kept(lecture: LectureView) -> LectureView {
    LectureView { title: lecture.title, url: lecture.url, categories: None }
}

/// After the rows of a degree were removed, the degree has no lectures, and
/// every other degree has those that it had.
pub proof fn lemma_deleted(table: Seq<RowView>, degree_id: Seq<char>, asked: Seq<char>)
    ensures
        records_of(
            applied(table, StatementView::DeleteDegree { degree_id }),
            asked,
        ) == if asked == degree_id {
            Seq::<LectureView>::empty()
        } else {
            records_of(table, asked)
        },
    decreases table.len(),
{
    reveal(Seq::filter);
    let stays = |row: RowView| row.degree_id != degree_id;
    if table.len() > 0 {
        lemma_deleted(table.drop_last(), degree_id, asked);
        let front = table.drop_last().filter(stays);
        if stays(table.last()) {
            assert(table.filter(stays) == front.push(table.last()));
            assert(front.push(table.last()).drop_last() =~= front);
        }
    }
}

/// Saving replaces: after the statements that save `lectures` for a degree,
/// the table holds for that degree the saved lectures, in their order and
/// without categories, whatever it held before; for every other degree it
/// holds what it held.
pub proof fn lemma_saved_rows_are_loaded(
    table: Seq<RowView>,
    lectures: Seq<LectureView>,
    degree_id: Seq<char>,
    asked: Seq<char>,
)
    ensures
        records_of(applied_all(table, save_plan(lectures, degree_id)), asked) == if asked
            == degree_id {
            lectures.map_values(|lecture: LectureView| kept(lecture))
        } else {
            records_of(table, asked)
        },
    decreases lectures.len(),
{
    let plan = save_plan(lectures, degree_id);
    let saved = lectures.map_values(|lecture: LectureView| kept(lecture));
    if lectures.len() == 0 {
        assert(plan.drop_last() =~= Seq::<StatementView>::empty());
        assert(plan.last() == StatementView::DeleteDegree { degree_id });
        assert(applied_all(table, plan.drop_last()) == table);
        lemma_deleted(table, degree_id, asked);
        assert(saved =~= Seq::<LectureView>::empty());
    } else {
        let front = lectures.drop_last();
        lemma_saved_rows_are_loaded(table, front, degree_id, asked);
        assert(plan.drop_last() =~= save_plan(front, degree_id));
        let row = row_of(lectures.last(), degree_id);
        assert(plan.last() == StatementView::Insert { row });
        let rows = applied_all(table, save_plan(front, degree_id));
        assert(applied_all(table, plan) == rows.push(row));
        assert(rows.push(row).drop_last() =~= rows);
        assert(rows.push(row).last() == row);
        assert(record_of(row) == kept(lectures.last()));
        assert(saved =~= front.map_values(|lecture: LectureView| kept(lecture)).push(
            kept(lectures.last()),
        ));
    }
}

/// A load after a save gives what was saved, lecture by lecture with the same
/// address and title, where anything was saved. (After a save of no lectures
/// the load fails: a degree without rows counts as not stored.)
pub proof fn lemma_save_then_load(
    table: Seq<RowView>,
    lectures: Seq<LectureView>,
    degree_id: Seq<char>,
)
    requires
        lectures.len() > 0,
    ensures
        ({
            let loaded = records_of(
                applied_all(table, save_plan(lectures, degree_id)),
                degree_id,
            );
            &&& loaded.len() == lectures.len()
            &&& forall|i: int|
                0 <= i < lectures.len() ==> (#[trigger] loaded[i]).url == lectures[i].url
                    && loaded[i].title == lectures[i].title
        }),
{
    lemma_saved_rows_are_loaded(table, lectures, degree_id, degree_id);
}

} // verus!
