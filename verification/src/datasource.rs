//! What a data source is: something that hands out the lectures of a degree,
//! and perhaps keeps them.

use crate::entities::Lecture;
use crate::entities::LectureView;
use crate::entities::StaticDegree;
use vstd::prelude::*;

verus! {

/// The kinds of failure.
#[derive(Clone, Copy, Debug, PartialEq, Eq, Structural)]
pub enum ErrorKind {
    /// A page could not be fetched.
    Network,
    /// A page did not hold what was looked for.
    Parse,
    /// A page was not built as expected.
    Shape,
    /// Stored data could not be read as lecture records.
    Format,
    /// A file could not be read or written.
    Io,
    /// The database refused or failed.
    Db,
    /// The source has nothing for the degree. Not fatal: the next source is asked.
    Missing,
    /// Every source was asked and none had an answer.
    NoSource,
    /// A failure behind an adapter, named in the message.
    Upstream,
}

/// A failure of a data source, or of the repository.
#[derive(Debug)]
pub struct SourceError {
    pub kind: ErrorKind,
    /// The degree that was asked for.
    pub degree_id: String,
    /// The failure in words.
    pub message: String,
}

/// What a [`SourceError`] holds, as plain text.
pub struct SourceErrorView {
    pub kind: ErrorKind,
    pub degree_id: Seq<char>,
    pub message: Seq<char>,
}

impl View for SourceError {
    type V = SourceErrorView;

    open spec fn view(&self) -> SourceErrorView {
        SourceErrorView { kind: self.kind, degree_id: self.degree_id@, message: self.message@ }
    }
}

impl DeepView for SourceError {
    type V = SourceErrorView;

    open spec fn deep_view(&self) -> SourceErrorView {
        self@
    }
}

/// The name of a kind of failure.
pub open spec fn kind_name(kind: ErrorKind) -> Seq<char> {
    match kind {
        ErrorKind::Network => "network"@,
        ErrorKind::Parse => "parse"@,
        ErrorKind::Shape => "shape"@,
        ErrorKind::Format => "format"@,
        ErrorKind::Io => "io"@,
        ErrorKind::Db => "db"@,
        ErrorKind::Missing => "missing"@,
        ErrorKind::NoSource => "no-source"@,
        ErrorKind::Upstream => "upstream"@,
    }
}

impl ErrorKind {
    /// The name of the kind.
    pub fn name(&self) -> (name: &'static str)
        ensures
            name@ == kind_name(*self),
    {
        match self {
            ErrorKind::Network => "network",
            ErrorKind::Parse => "parse",
            ErrorKind::Shape => "shape",
            ErrorKind::Format => "format",
            ErrorKind::Io => "io",
            ErrorKind::Db => "db",
            ErrorKind::Missing => "missing",
            ErrorKind::NoSource => "no-source",
            ErrorKind::Upstream => "upstream",
        }
    }
}

impl SourceError {
    /// The failure for the user: its kind, the degree, and the message.
    pub open spec fn reported(&self) -> Seq<char> {
        kind_name(self.kind) + " error for degree "@ + self.degree_id@ + ": "@ + self.message@
    }

    /// The failure for the user: its kind, the degree, and the message.
    pub fn report(&self) -> (line: String)
        ensures
            line@ == self.reported(),
    {
        let line = String::from_str(self.kind.name()).concat(" error for degree ").concat(
            self.degree_id.as_str(),
        ).concat(": ").concat(self.message.as_str());
        assert(line@ =~= self.reported());
        line
    }

    /// A failure of kind `kind` for `degree`, with the message `about`
    /// followed by `detail`.
    pub fn new(kind: ErrorKind, degree: &StaticDegree, about: &str, detail: &str) -> (error: Self)
        ensures
            error@ == (SourceErrorView {
                kind,
                degree_id: degree.id@,
                message: about@ + detail@,
            }),
    {
        SourceError {
            kind,
            degree_id: String::from_str(degree.id),
            message: String::from_str(about).concat(detail),
        }
    }

    /// The failure in words.
    pub fn to_string(&self) -> (message: String)
        ensures
            message@ == self.message@,
    {
        self.message.clone()
    }
}

impl Clone for SourceError {
    fn clone(&self) -> (copy: Self)
        ensures
            copy@ == self@,
    {
        SourceError {
            kind: self.kind,
            degree_id: self.degree_id.clone(),
            message: self.message.clone(),
        }
    }
}

pub type Error = SourceError;

pub type LoadResult = Result<Vec<Lecture>, SourceError>;

pub type SaveResult = Result<(), SourceError>;

/// A source that hands out the lectures of a degree.
///
/// A source that has nothing for a degree fails; an empty list is an answer.
/// What the results of a source depend on is its own matter. A source whose
/// results are decided by what it holds states so in `may_load` and
/// `may_miss`, and the repository passes on what these say. Of a source that
/// states nothing, any result is taken to be possible.
pub trait ReadOnlyDataSource {
    /// Whether a load for the degree `degree_id` can give `lectures`, with the
    /// source as it is.
    open spec fn may_load(&self, degree_id: Seq<char>, lectures: Seq<LectureView>) -> bool {
        true
    }

    /// Whether a load for the degree `degree_id` can fail, with the source as
    /// it is.
    open spec fn may_miss(&self, degree_id: Seq<char>) -> bool {
        true
    }

    /// The lectures of `degree`.
    fn load_lectures(&self, degree: &StaticDegree) -> (result: LoadResult)
        ensures
            match result {
                Ok(lectures) => self.may_load(degree.id@, lectures.deep_view()),
                Err(_) => self.may_miss(degree.id@),
            },
    ;
}

/// A source that also keeps lectures. A save replaces what the source had for
/// the degree.
pub trait ReadWriteDataSource: ReadOnlyDataSource {
    /// Whether a save of `lectures` for the degree `degree_id` can succeed and
    /// leave the source as `after`.
    open spec fn may_keep(
        &self,
        degree_id: Seq<char>,
        lectures: Seq<LectureView>,
        after: &Self,
    ) -> bool {
        true
    }

    /// Whether a save of `lectures` for the degree `degree_id` can fail and
    /// leave the source as `after`.
    open spec fn may_refuse(
        &self,
        degree_id: Seq<char>,
        lectures: Seq<LectureView>,
        after: &Self,
    ) -> bool {
        true
    }

    /// Keeps `lectures` as the lectures of `degree`.
    fn save_lectures(&mut self, degree: &StaticDegree, lectures: &[Lecture]) -> (result:
        SaveResult)
        ensures
            match result {
                Ok(_) => old(self).may_keep(degree.id@, lectures.deep_view(), final(self)),
                Err(_) => old(self).may_refuse(degree.id@, lectures.deep_view(), final(self)),
            },
    ;
}

/// A source that reads and writes.
pub trait LectureDataSource: ReadWriteDataSource {

}

} // verus!
