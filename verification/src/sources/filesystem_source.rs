//! A data source that keeps the lectures of each degree in a JSON file.
//!
//! The files lie in one directory and are named after the degrees:
//! `<directory>/<degree id>.json`. This file decides where the file of a
//! degree lies, what is written into it and what is read out of it. Reading
//! and writing the file is left to the caller.

use crate::cache::lectures_from_json;
use crate::cache::lectures_to_json;
use crate::datasource::ErrorKind;
use crate::datasource::LoadResult;
use crate::datasource::SourceError;
use crate::datasource::SourceErrorView;
use crate::entities::Degrees;
use crate::entities::Lecture;
use crate::entities::LectureView;
use crate::entities::StaticDegree;
use crate::json::parse;
use crate::json::render;
use crate::text::ends_with;
use crate::text::same_text;
use vstd::prelude::*;

verus! {

/// The extension of a cache file.
pub const CACHE_EXTENSION: &'static str = "json";

/// How the failure of a load begins.
pub const LOAD_FAILED: &'static str = "Could not load cache for degree ";

/// How the failure of a save begins.
pub const SAVE_FAILED: &'static str = "Could not save cache for degree ";

/// What stands between the degree and the cause in a failure.
pub const DUE_TO: &'static str = " due to ";

/// The cause of a failure to read the content of a cache file as lectures.
pub const NOT_LECTURES: &'static str = "content that is no list of lectures";

/// The cause of a failure to write lectures as JSON.
pub const NOT_WRITTEN: &'static str = "lectures that cannot be written as JSON";

/// Why a cache file gave or took no lectures.
#[derive(Clone, Copy, Debug, PartialEq, Eq, Structural)]
pub enum CacheError {
    /// The file could not be read or written.
    Io,
    /// The content is no JSON list of lectures.
    Format,
}

/// `path` with the extension `extension`: unchanged where it ends with a dot
/// and the extension, else followed by them.
pub open spec fn with_extension(path: Seq<char>, extension: Seq<char>) -> Seq<char> {
    if crate::text::has_suffix(path, "."@ + extension) {
        path
    } else {
        path + "."@ + extension
    }
}

/// `name` inside the directory `directory`.
pub open spec fn joined(directory: Seq<char>, name: Seq<char>) -> Seq<char> {
    if directory.len() == 0 || crate::text::has_suffix(directory, "/"@) {
        directory + name
    } else {
        directory + "/"@ + name
    }
}

/// `path` with the extension `extension`.
pub fn ensure_extension(path: &str, extension: &str) -> (file: String)
    ensures
        file@ == with_extension(path@, extension@),
{
    let suffix = String::from_str(".").concat(extension);
    if ends_with(path, suffix.as_str()) {
        String::from_str(path)
    } else {
        String::from_str(path).concat(suffix.as_str())
    }
}

/// `name` inside the directory `directory`.
pub fn join(directory: &str, name: &str) -> (path: String)
    ensures
        path@ == joined(directory@, name@),
{
    if directory.unicode_len() == 0 || ends_with(directory, "/") {
        String::from_str(directory).concat(name)
    } else {
        String::from_str(directory).concat("/").concat(name)
    }
}

/// The lectures that the content `text` of a cache file stands for.
pub open spec fn lectures_in_text(text: Seq<char>) -> Option<Seq<LectureView>> {
    match crate::json::parsed(text) {
        Some(value) => crate::cache::lectures_in(value),
        None => None,
    }
}

/// The content of the cache file that holds `lectures`.
pub open spec fn text_of_lectures(lectures: Seq<LectureView>) -> Option<Seq<char>> {
    crate::json::rendered(crate::cache::lectures_json(lectures))
}

/// The cache file of one degree.
pub struct FileSystemCache {
    path: String,
}

impl FileSystemCache {
    /// The path of the file, the extension aside.
    pub closed spec fn path(&self) -> Seq<char> {
        self.path@
    }

    /// The cache at `path`.
    pub fn new(path: String) -> (cache: Self)
        ensures
            cache.path() == path@,
    {
        FileSystemCache { path }
    }

    /// Where the file lies.
    pub fn file_path(&self) -> (file: String)
        ensures
            file@ == with_extension(self.path(), CACHE_EXTENSION@),
    {
        ensure_extension(self.path.as_str(), CACHE_EXTENSION)
    }

    /// The lectures in the file, whose content is `content`; `None` stands
    /// for a file that could not be read.
    pub fn load_lectures(&self, content: Option<&str>) -> (result: Result<
        Vec<Lecture>,
        CacheError,
    >)
        ensures
            match content {
                None => result == Err::<Vec<Lecture>, CacheError>(CacheError::Io),
                Some(text) => match lectures_in_text(text@) {
                    Some(lectures) => result matches Ok(found) && found.deep_view() == lectures,
                    None => result == Err::<Vec<Lecture>, CacheError>(CacheError::Format),
                },
            },
    {
        let text = match content {
            Some(text) => text,
            None => {
                return Err(CacheError::Io);
            },
        };
        let value = match parse(text) {
            Some(value) => value,
            None => {
                return Err(CacheError::Format);
            },
        };
        match lectures_from_json(&value) {
            Some(lectures) => Ok(lectures),
            None => Err(CacheError::Format),
        }
    }

    /// The content to write into the file, so that it holds `lectures` and
    /// nothing else.
    pub fn save_lectures(&self, lectures: &[Lecture]) -> (content: Result<String, CacheError>)
        ensures
            match text_of_lectures(lectures.deep_view()) {
                Some(text) => content matches Ok(written) && written@ == text,
                None => content == Err::<String, CacheError>(CacheError::Format),
            },
    {
        let value = lectures_to_json(lectures);
        proof {
            crate::cache::lemma_lectures_json_is_shallow(lectures.deep_view());
            crate::json::lemma_nested_within_more(value@, 4, crate::json::DEPTH_LIMIT as nat);
        }
        match render(&value) {
            Some(text) => Ok(text),
            None => Err(CacheError::Format),
        }
    }
}

/// The caches of the degrees of the catalogue, in one directory.
pub struct FSDataSource {
    caches: Vec<FileSystemCache>,
    base_path: String,
}

impl FSDataSource {
    /// The directory of the caches.
    pub closed spec fn directory(&self) -> Seq<char> {
        self.base_path@
    }

    /// There is one cache for each degree of the catalogue, in the order
    /// of the catalogue, at its place in the directory.
    #[verifier::type_invariant]
    pub closed spec fn well_formed(&self) -> bool {
        &&& self.caches@.len() == Degrees::catalog().len()
        &&& forall|i: int|
            0 <= i < self.caches@.len() ==> (#[trigger] self.caches@[i]).path() == joined(
                self.base_path@,
                Degrees::catalog()[i].id@,
            )
    }

    /// The caches in the directory `path`.
    pub fn new(path: String) -> (source: Self)
        ensures
            source.directory() == path@,
    {
        let degrees = Degrees::all();
        let mut caches: Vec<FileSystemCache> = Vec::new();
        let mut i: usize = 0;
        while i < degrees.len()
            invariant
                i <= degrees.len(),
                degrees@ == Degrees::catalog(),
                caches@.len() == i,
                forall|k: int|
                    0 <= k < i ==> (#[trigger] caches@[k]).path() == joined(
                        path@,
                        Degrees::catalog()[k].id@,
                    ),
            decreases degrees.len() - i,
        {
            caches.push(FileSystemCache::new(join(path.as_str(), degrees[i].id)));
            i = i + 1;
        }
        FSDataSource { caches, base_path: path }
    }

    /// The cache of `degree`, which is a degree of the catalogue.
    pub fn cache_for_degree(&self, degree: &StaticDegree) -> (cache: &FileSystemCache)
        requires
            crate::entities::in_catalog(degree.id@),
        ensures
            cache.path() == joined(self.directory(), degree.id@),
    {
        proof {
            use_type_invariant(self);
            reveal(crate::entities::in_catalog);
        }
        let degrees = Degrees::all();
        let mut i: usize = 0;
        loop
            invariant
                degrees@ == Degrees::catalog(),
                self.well_formed(),
                exists|k: int|
                    i <= k < degrees.len() && (#[trigger] Degrees::catalog()[k]).id@ == degree.id@,
            decreases degrees.len() - i,
        {
            if same_text(degrees[i].id, degree.id) {
                return &self.caches[i];
            }
            i = i + 1;
        }
    }

    /// The failure of a load or save for `degree`, in words: `begin`, the id
    /// of the degree, and the cause.
    pub open spec fn failure(
        kind: ErrorKind,
        degree: StaticDegree,
        begin: Seq<char>,
        cause: Seq<char>,
    ) -> SourceErrorView {
        SourceErrorView {
            kind,
            degree_id: degree.id@,
            message: begin + degree.id@ + DUE_TO@ + cause,
        }
    }

    fn fail(kind: ErrorKind, degree: &StaticDegree, begin: &str, cause: &str) -> (error:
        SourceError)
        ensures
            error@ == Self::failure(kind, *degree, begin@, cause@),
    {
        let detail = String::from_str(degree.id).concat(DUE_TO).concat(cause);
        let error = SourceError::new(kind, degree, begin, detail.as_str());
        assert(error@.message =~= begin@ + degree.id@ + DUE_TO@ + cause@);
        error
    }

    /// The outcome of a load for `degree`, where reading its file gave
    /// `read`: the content, or the cause for which there is none.
    ///
    /// A file that could not be read fails the load with the kind `Io`,
    /// content that is no list of lectures with the kind `Format`.
    pub fn loaded(&self, degree: &StaticDegree, read: Result<&str, &str>) -> (result: LoadResult)
        ensures
            match read {
                Err(cause) => result matches Err(error) && error@ == Self::failure(
                    ErrorKind::Io,
                    *degree,
                    LOAD_FAILED@,
                    cause@,
                ),
                Ok(text) => match lectures_in_text(text@) {
                    Some(lectures) => result matches Ok(found) && found.deep_view() == lectures,
                    None => result matches Err(error) && error@ == Self::failure(
                        ErrorKind::Format,
                        *degree,
                        LOAD_FAILED@,
                        NOT_LECTURES@,
                    ),
                },
            },
    {
        let text = match read {
            Ok(text) => text,
            Err(cause) => {
                return Err(Self::fail(ErrorKind::Io, degree, LOAD_FAILED, cause));
            },
        };
        let cache = FileSystemCache { path: String::new() };
        match cache.load_lectures(Some(text)) {
            Ok(lectures) => Ok(lectures),
            Err(_) => Err(Self::fail(ErrorKind::Format, degree, LOAD_FAILED, NOT_LECTURES)),
        }
    }

    /// The content to write into the file of `degree`, so that it holds
    /// `lectures` and nothing else.
    pub fn to_save(&self, degree: &StaticDegree, lectures: &[Lecture]) -> (content: Result<
        String,
        SourceError,
    >)
        ensures
            match text_of_lectures(lectures.deep_view()) {
                Some(text) => content matches Ok(written) && written@ == text,
                None => content matches Err(error) && error@ == Self::failure(
                    ErrorKind::Format,
                    *degree,
                    SAVE_FAILED@,
                    NOT_WRITTEN@,
                ),
            },
    {
        let cache = FileSystemCache { path: String::new() };
        match cache.save_lectures(lectures) {
            Ok(text) => Ok(text),
            Err(_) => Err(Self::fail(ErrorKind::Format, degree, SAVE_FAILED, NOT_WRITTEN)),
        }
    }

    /// The failure of a save for `degree` whose file could not be written,
    /// for the cause `cause`.
    pub fn not_saved(&self, degree: &StaticDegree, cause: &str) -> (error: SourceError)
        ensures
            error@ == Self::failure(ErrorKind::Io, *degree, SAVE_FAILED@, cause@),
    {
        Self::fail(ErrorKind::Io, degree, SAVE_FAILED, cause)
    }
}

} // verus!
