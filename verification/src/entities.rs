//! Degree programs and lecture records.
//!
//! A lecture is identified by its `url`, a degree program by its `id`: the
//! equality of both types looks at nothing else.

use crate::text::same_text;
use std::hash::Hash;
use std::hash::Hasher;
use vstd::prelude::*;
use vstd::std_specs::cmp::PartialEqSpecImpl;

verus! {

/// One module of a lecture with its category labels, in page order.
#[derive(Debug)]
pub struct Module {
    pub name: String,
    pub categories: Vec<String>,
}

/// What a [`Module`] holds, as plain text.
pub struct ModuleView {
    pub name: Seq<char>,
    pub categories: Seq<Seq<char>>,
}

impl View for Module {
    type V = ModuleView;

    open spec fn view(&self) -> ModuleView {
        ModuleView { name: self.name@, categories: self.categories.deep_view() }
    }
}

impl DeepView for Module {
    type V = ModuleView;

    open spec fn deep_view(&self) -> ModuleView {
        self@
    }
}

/// Whether some entry of `entries` is named `name`.
pub open spec fn has_module(entries: Seq<ModuleView>, name: Seq<char>) -> bool {
    exists|i: int| 0 <= i < entries.len() && (#[trigger] entries[i]).name == name
}

/// Index of an entry of `entries` that is named `name`.
pub open spec fn module_index(entries: Seq<ModuleView>, name: Seq<char>) -> int {
    choose|i: int| 0 <= i < entries.len() && (#[trigger] entries[i]).name == name
}

/// No two entries of `entries` have the same name.
pub open spec fn distinct_names(entries: Seq<ModuleView>) -> bool {
    forall|i: int, j: int|
        0 <= i < j < entries.len() ==> (#[trigger] entries[i]).name != (#[trigger] entries[j]).name
}

/// `entries` after the labels `categories` were filed under `name`: appended to
/// the entry of that name, or put into a new last entry.
pub open spec fn appended(
    entries: Seq<ModuleView>,
    name: Seq<char>,
    categories: Seq<Seq<char>>,
) -> Seq<ModuleView> {
    if has_module(entries, name) {
        let i = module_index(entries, name);
        entries.update(i, ModuleView { name, categories: entries[i].categories + categories })
    } else {
        entries.push(ModuleView { name, categories })
    }
}

/// The mapping from module name to labels that `entries` stands for.
pub open spec fn mapping_of(entries: Seq<ModuleView>) -> Map<Seq<char>, Seq<Seq<char>>> {
    Map::new(
        |name: Seq<char>| has_module(entries, name),
        |name: Seq<char>| entries[module_index(entries, name)].categories,
    )
}

/// Filing labels under a name keeps the names distinct.
pub proof fn lemma_appended_distinct(
    entries: Seq<ModuleView>,
    name: Seq<char>,
    categories: Seq<Seq<char>>,
)
    requires
        distinct_names(entries),
    ensures
        distinct_names(appended(entries, name, categories)),
{
    let after = appended(entries, name, categories);
    if has_module(entries, name) {
        let k = module_index(entries, name);
        assert forall|i: int, j: int| 0 <= i < j < after.len() implies (#[trigger] after[i]).name
            != (#[trigger] after[j]).name by {
            assert(after[i].name == entries[i].name);
            assert(after[j].name == entries[j].name);
        }
    } else {
        assert forall|i: int, j: int| 0 <= i < j < after.len() implies (#[trigger] after[i]).name
            != (#[trigger] after[j]).name by {
            if j < entries.len() {
                assert(after[i] == entries[i]);
                assert(after[j] == entries[j]);
            } else {
                assert(after[i] == entries[i]);
                assert(after[j].name == name);
            }
        }
    }
}

/// The categories of a lecture: a mapping from module name to category labels
/// that remembers the order in which the modules were met.
#[derive(Debug)]
pub struct Categories {
    entries: Vec<Module>,
}

impl View for Categories {
    type V = Seq<ModuleView>;

    closed spec fn view(&self) -> Seq<ModuleView> {
        self.entries.deep_view()
    }
}

impl DeepView for Categories {
    type V = Seq<ModuleView>;

    open spec fn deep_view(&self) -> Seq<ModuleView> {
        self@
    }
}

impl Categories {
    /// Every module name occurs once.
    #[verifier::type_invariant]
    pub closed spec fn well_formed(&self) -> bool {
        distinct_names(self.entries.deep_view())
    }

    /// The mapping from module name to labels.
    pub open spec fn mapping(&self) -> Map<Seq<char>, Seq<Seq<char>>> {
        mapping_of(self@)
    }

    pub fn new() -> (categories: Self)
        ensures
            categories@ == Seq::<ModuleView>::empty(),
    {
        let categories = Categories { entries: Vec::new() };
        assert(categories.entries.deep_view() =~= Seq::<ModuleView>::empty());
        categories
    }

    /// Number of modules.
    pub fn len(&self) -> (n: usize)
        ensures
            n == self@.len(),
    {
        self.entries.len()
    }

    pub fn is_empty(&self) -> (empty: bool)
        ensures
            empty == (self@.len() == 0),
    {
        self.entries.len() == 0
    }

    /// The modules with their labels, in the order in which they were met.
    pub fn entries(&self) -> (entries: &Vec<Module>)
        ensures
            entries.deep_view() == self@,
            distinct_names(self@),
    {
        proof {
            use_type_invariant(self);
        }
        &self.entries
    }

    /// Position of the module named `module`, if there is one.
    fn position(&self, module: &str) -> (found: Option<usize>)
        ensures
            match found {
                Some(i) => i < self@.len() && self@[i as int].name == module@,
                None => !has_module(self@, module@),
            },
    {
        Self::position_in(&self.entries, module)
    }

    /// Whether a module of this name is present.
    pub fn contains_key(&self, module: &str) -> (present: bool)
        ensures
            present == self.mapping().contains_key(module@),
    {
        self.position(module).is_some()
    }

    /// The labels filed under `module`.
    pub fn get(&self, module: &str) -> (labels: Option<&Vec<String>>)
        ensures
            match labels {
                Some(found) => self.mapping().contains_key(module@) && found.deep_view()
                    == self.mapping()[module@],
                None => !self.mapping().contains_key(module@),
            },
    {
        proof {
            use_type_invariant(self);
        }
        match self.position(module) {
            Some(i) => {
                proof {
                    let k = module_index(self@, module@);
                    assert(self@[k].name == self@[i as int].name);
                }
                Some(&self.entries[i].categories)
            },
            None => None,
        }
    }

    /// Files `categories` under `module`: behind the labels that the module has
    /// already, or as a new last module.
    pub fn append(&mut self, module: String, categories: Vec<String>)
        ensures
            final(self)@ == appended(old(self)@, module@, categories.deep_view()),
    {
        proof {
            use_type_invariant(&*self);
            lemma_appended_distinct(self@, module@, categories.deep_view());
        }
        let ghost before = self@;
        let mut entries: Vec<Module> = Vec::new();
        std::mem::swap(&mut entries, &mut self.entries);
        let mut categories = categories;
        let ghost labels = categories.deep_view();
        match Self::position_in(&entries, module.as_str()) {
            Some(i) => {
                let mut entry = entries.remove(i);
                proof {
                    let k = module_index(before, module@);
                    assert(before[k].name == before[i as int].name);
                }
                let ghost had = entry.categories.deep_view();
                entry.categories.append(&mut categories);
                assert(entry.categories.deep_view() =~= had + labels);
                entries.insert(i, entry);
                assert(entries.deep_view() =~= appended(before, module@, labels));
            },
            None => {
                entries.push(Module { name: module, categories });
                assert(entries.deep_view() =~= appended(before, module@, labels));
            },
        }
        self.entries = entries;
    }

    /// The categories with the modules `entries`, in their order; `None`
    /// where two of them have the same name.
    pub fn from_entries(entries: Vec<Module>) -> (categories: Option<Self>)
        ensures
            match categories {
                Some(categories) => categories@ == entries.deep_view() && distinct_names(
                    entries.deep_view(),
                ),
                None => !distinct_names(entries.deep_view()),
            },
    {
        let mut j: usize = 0;
        while j < entries.len()
            invariant
                j <= entries.len(),
                forall|a: int, b: int|
                    0 <= a < b < j ==> (#[trigger] entries.deep_view()[a]).name != (
                    #[trigger] entries.deep_view()[b]).name,
            decreases entries.len() - j,
        {
            match Self::position_in(&entries, entries[j].name.as_str()) {
                Some(i) => {
                    if i < j {
                        assert(entries.deep_view()[i as int].name == entries.deep_view()[j as int].name);
                        return None;
                    }
                },
                None => {
                    // Not reached: the module at `j` has the name itself.
                    assert(entries.deep_view()[j as int].name == entries[j as int].name@);
                },
            }
            j = j + 1;
        }
        Some(Categories { entries })
    }

    /// First position of the module named `module`, if there is one.
    fn position_in(entries: &Vec<Module>, module: &str) -> (found: Option<usize>)
        ensures
            match found {
                Some(i) => {
                    &&& i < entries.len()
                    &&& entries.deep_view()[i as int].name == module@
                    &&& forall|k: int|
                        0 <= k < i ==> (#[trigger] entries.deep_view()[k]).name != module@
                },
                None => !has_module(entries.deep_view(), module@),
            },
    {
        let mut i: usize = 0;
        while i < entries.len()
            invariant
                i <= entries.len(),
                forall|k: int| 0 <= k < i ==> (#[trigger] entries.deep_view()[k]).name != module@,
            decreases entries.len() - i,
        {
            if same_text(entries[i].name.as_str(), module) {
                return Some(i);
            }
            i = i + 1;
        }
        None
    }
}

/// A copy of `labels`.
pub fn copy_of_labels(labels: &Vec<String>) -> (copy: Vec<String>)
    ensures
        copy.deep_view() == labels.deep_view(),
{
    let mut copy: Vec<String> = Vec::new();
    let mut i: usize = 0;
    while i < labels.len()
        invariant
            i <= labels.len(),
            copy.len() == i,
            forall|k: int| 0 <= k < i ==> (#[trigger] copy@[k])@ == labels@[k]@,
        decreases labels.len() - i,
    {
        copy.push(labels[i].clone());
        i = i + 1;
    }
    assert(copy.deep_view() =~= labels.deep_view());
    copy
}

impl Clone for Module {
    fn clone(&self) -> (copy: Self)
        ensures
            copy@ == self@,
    {
        Module { name: self.name.clone(), categories: copy_of_labels(&self.categories) }
    }
}

impl Clone for Categories {
    fn clone(&self) -> (copy: Self)
        ensures
            copy@ == self@,
    {
        proof {
            use_type_invariant(self);
        }
        let mut entries: Vec<Module> = Vec::new();
        let mut i: usize = 0;
        while i < self.entries.len()
            invariant
                i <= self.entries.len(),
                entries.len() == i,
                forall|k: int| 0 <= k < i ==> (#[trigger] entries@[k])@ == self.entries@[k]@,
            decreases self.entries.len() - i,
        {
            entries.push(self.entries[i].clone());
            i = i + 1;
        }
        assert(entries.deep_view() =~= self.entries.deep_view());
        Categories { entries }
    }
}

/// One lecture of the catalogue.
#[derive(Debug)]
pub struct Lecture {
    /// Title as shown in the listing, without surrounding whitespace.
    pub title: String,
    /// Address of the detail page; the identity of the lecture.
    pub url: String,
    /// Modules and category labels under the degree asked for, where the detail
    /// page has them.
    pub categories: Option<Categories>,
}

/// What a [`Lecture`] holds, as plain text.
pub struct LectureView {
    pub title: Seq<char>,
    pub url: Seq<char>,
    pub categories: Option<Seq<ModuleView>>,
}

impl View for Lecture {
    type V = LectureView;

    open spec fn view(&self) -> LectureView {
        LectureView {
            title: self.title@,
            url: self.url@,
            categories: match self.categories {
                Some(categories) => Some(categories@),
                None => None,
            },
        }
    }
}

impl DeepView for Lecture {
    type V = LectureView;

    open spec fn deep_view(&self) -> LectureView {
        self@
    }
}

impl PartialEq for Lecture {
    fn eq(&self, other: &Self) -> (equal: bool) {
        self.url == other.url
    }
}

impl Eq for Lecture {

}

impl PartialEqSpecImpl for Lecture {
    open spec fn obeys_eq_spec() -> bool {
        true
    }

    open spec fn eq_spec(&self, other: &Self) -> bool {
        self.url@ == other.url@
    }
}

/// Feeds `text` to the hasher by `str::hash`. Nothing is claimed of the
/// hasher afterwards.
#[verifier::external_body]
fn hash_text<H: Hasher>(text: &str, state: &mut H) {
    text.hash(state);
}

impl Hash for Lecture {
    /// Feeds the `url` to the hasher and nothing else, so that equal lectures
    /// hash alike.
    fn hash<H: Hasher>(&self, state: &mut H) {
        hash_text(self.url.as_str(), state);
    }
}

impl Clone for Lecture {
    fn clone(&self) -> (copy: Self)
        ensures
            copy@ == self@,
    {
        Lecture {
            title: self.title.clone(),
            url: self.url.clone(),
            categories: match &self.categories {
                Some(categories) => Some(categories.clone()),
                None => None,
            },
        }
    }
}

/// A copy of `lectures`.
pub fn copy_of_lectures(lectures: &[Lecture]) -> (copy: Vec<Lecture>)
    ensures
        copy.deep_view() == lectures.deep_view(),
{
    let mut copy: Vec<Lecture> = Vec::new();
    let mut i: usize = 0;
    while i < lectures.len()
        invariant
            i <= lectures.len(),
            copy.len() == i,
            forall|k: int| 0 <= k < i ==> (#[trigger] copy@[k])@ == lectures@[k]@,
        decreases lectures.len() - i,
    {
        copy.push(lectures[i].clone());
        i = i + 1;
    }
    assert(copy.deep_view() =~= lectures.deep_view());
    copy
}


/// Level of a degree program.
#[derive(Clone, Copy, Debug, PartialEq, Eq, Structural)]
pub enum DegreeLevel {
    Bachelor,
    Master,
}

/// Language in which a degree program is taught.
#[derive(Clone, Copy, Debug, PartialEq, Eq, Structural)]
pub enum Language {
    German,
    English,
}

/// What a degree program holds, as plain text.
pub struct DegreeView {
    pub name: Seq<char>,
    pub level: DegreeLevel,
    pub url: Seq<char>,
    pub language: Language,
    pub id: Seq<char>,
}

/// A degree program of the built-in catalogue.
#[derive(Clone, Copy, Debug)]
pub struct StaticDegree {
    /// The section headline as found in the module overview of a lecture.
    pub name: &'static str,
    pub level: DegreeLevel,
    /// Address of the listing page of this degree.
    pub url: &'static str,
    pub language: Language,
    /// Short stable name; the identity of the degree.
    pub id: &'static str,
}

impl View for StaticDegree {
    type V = DegreeView;

    open spec fn view(&self) -> DegreeView {
        DegreeView {
            name: self.name@,
            level: self.level,
            url: self.url@,
            language: self.language,
            id: self.id@,
        }
    }
}

impl PartialEq for StaticDegree {
    fn eq(&self, other: &Self) -> (equal: bool) {
        same_text(self.id, other.id)
    }
}

impl Eq for StaticDegree {

}

impl PartialEqSpecImpl for StaticDegree {
    open spec fn obeys_eq_spec() -> bool {
        true
    }

    open spec fn eq_spec(&self, other: &Self) -> bool {
        self.id@ == other.id@
    }
}

impl Hash for StaticDegree {
    /// Feeds the `id` to the hasher and nothing else, so that equal degrees
    /// hash alike.
    fn hash<H: Hasher>(&self, state: &mut H) {
        hash_text(self.id, state);
    }
}

impl StaticDegree {
    /// Whether the degree has no listing page yet.
    pub open spec fn is_placeholder(&self) -> bool {
        self.url@ == PLACEHOLDER_URL@
    }

    /// The same degree with texts of its own.
    pub fn to_degree(&self) -> (degree: Degree)
        ensures
            degree@ == self@,
    {
        Degree {
            name: String::from_str(self.name),
            level: self.level,
            url: String::from_str(self.url),
            language: self.language,
            id: String::from_str(self.id),
        }
    }
}

/// The address that a degree without a listing page carries.
pub const PLACEHOLDER_URL: &'static str = "tbd";

/// The degree programs that the library knows.
pub struct Degrees {
    #[allow(dead_code)]
    no_instance: (),
}

impl Degrees {
    pub open spec fn spec_itse_ba() -> StaticDegree {
        StaticDegree {
            name: "IT-Systems Engineering BA",
            level: DegreeLevel::Bachelor,
            language: Language::German,
            url: "https://hpi.de/studium/im-studium/lehrveranstaltungen/it-systems-engineering-ba.html",
            id: "itse-ba",
        }
    }

    /// IT-Systems Engineering, bachelor.
    pub fn itse_ba() -> (degree: StaticDegree)
        ensures
            degree == Self::spec_itse_ba(),
    {
        StaticDegree {
            name: "IT-Systems Engineering BA",
            level: DegreeLevel::Bachelor,
            language: Language::German,
            url: "https://hpi.de/studium/im-studium/lehrveranstaltungen/it-systems-engineering-ba.html",
            id: "itse-ba",
        }
    }

    pub open spec fn spec_itse_ma() -> StaticDegree {
        StaticDegree {
            name: "IT-Systems Engineering MA",
            level: DegreeLevel::Master,
            language: Language::German,
            url: "https://hpi.de/studium/im-studium/lehrveranstaltungen/it-systems-engineering-ma.html",
            id: "itse-ma",
        }
    }

    /// IT-Systems Engineering, master.
    pub fn itse_ma() -> (degree: StaticDegree)
        ensures
            degree == Self::spec_itse_ma(),
    {
        StaticDegree {
            name: "IT-Systems Engineering MA",
            level: DegreeLevel::Master,
            language: Language::German,
            url: "https://hpi.de/studium/im-studium/lehrveranstaltungen/it-systems-engineering-ma.html",
            id: "itse-ma",
        }
    }

    pub open spec fn spec_de_ma() -> StaticDegree {
        StaticDegree {
            name: "Data Engineering MA",
            level: DegreeLevel::Master,
            language: Language::German,
            url: "https://hpi.de/studium/im-studium/lehrveranstaltungen/data-engineering-ma.html",
            id: "de-ma",
        }
    }

    /// Data Engineering, master.
    pub fn de_ma() -> (degree: StaticDegree)
        ensures
            degree == Self::spec_de_ma(),
    {
        StaticDegree {
            name: "Data Engineering MA",
            level: DegreeLevel::Master,
            language: Language::German,
            url: "https://hpi.de/studium/im-studium/lehrveranstaltungen/data-engineering-ma.html",
            id: "de-ma",
        }
    }

    pub open spec fn spec_dh_ma() -> StaticDegree {
        StaticDegree {
            name: "Digital Health MA",
            level: DegreeLevel::Master,
            language: Language::English,
            url: "https://hpi.de/studium/im-studium/lehrveranstaltungen/digital-health-ma.html",
            id: "dh-ma",
        }
    }

    /// Digital Health, master.
    pub fn dh_ma() -> (degree: StaticDegree)
        ensures
            degree == Self::spec_dh_ma(),
    {
        StaticDegree {
            name: "Digital Health MA",
            level: DegreeLevel::Master,
            language: Language::English,
            url: "https://hpi.de/studium/im-studium/lehrveranstaltungen/digital-health-ma.html",
            id: "dh-ma",
        }
    }

    pub open spec fn spec_cs_ma() -> StaticDegree {
        StaticDegree {
            name: "Cybersecurity MA",
            level: DegreeLevel::Master,
            language: Language::English,
            url: "https://hpi.de/studium/im-studium/lehrveranstaltungen/cybersecurity-ma.html",
            id: "cs-ma",
        }
    }

    /// Cybersecurity, master.
    pub fn cs_ma() -> (degree: StaticDegree)
        ensures
            degree == Self::spec_cs_ma(),
    {
        StaticDegree {
            name: "Cybersecurity MA",
            level: DegreeLevel::Master,
            language: Language::English,
            url: "https://hpi.de/studium/im-studium/lehrveranstaltungen/cybersecurity-ma.html",
            id: "cs-ma",
        }
    }

    pub open spec fn spec_sse_ma() -> StaticDegree {
        StaticDegree {
            name: "Software Systems Engineering",
            level: DegreeLevel::Master,
            language: Language::English,
            url: "tbd",
            id: "tbd",
        }
    }

    /// Software Systems Engineering, master: announced, with no listing page yet; not part of the catalogue.
    pub fn sse_ma() -> (degree: StaticDegree)
        ensures
            degree == Self::spec_sse_ma(),
    {
        StaticDegree {
            name: "Software Systems Engineering",
            level: DegreeLevel::Master,
            language: Language::English,
            url: "tbd",
            id: "tbd",
        }
    }

    /// The catalogue: the degrees that can be asked for, in their fixed order.
    pub open spec fn catalog() -> Seq<StaticDegree> {
        seq![
            Self::spec_itse_ba(),
            Self::spec_itse_ma(),
            Self::spec_de_ma(),
            Self::spec_dh_ma(),
            Self::spec_cs_ma(),
        ]
    }

    /// The catalogue.
    pub fn all() -> (degrees: Vec<StaticDegree>)
        ensures
            degrees@ == Self::catalog(),
    {
        let mut degrees: Vec<StaticDegree> = Vec::new();
        degrees.push(Self::itse_ba());
        degrees.push(Self::itse_ma());
        degrees.push(Self::de_ma());
        degrees.push(Self::dh_ma());
        degrees.push(Self::cs_ma());
        assert(degrees@ =~= Self::catalog());
        degrees
    }
}

/// Whether the catalogue has a degree with this id.
#[verifier::opaque]
pub open spec fn in_catalog(id: Seq<char>) -> bool {
    exists|i: int| 0 <= i < Degrees::catalog().len() && (#[trigger] Degrees::catalog()[i]).id@ == id
}

/// The degree of the catalogue with the id `id`.
pub fn find_degree(id: &str) -> (found: Option<StaticDegree>)
    ensures
        match found {
            Some(degree) => degree.id@ == id@ && Degrees::catalog().contains(degree),
            None => !in_catalog(id@),
        },
{
    let degrees = Degrees::all();
    let mut i: usize = 0;
    while i < degrees.len()
        invariant
            i <= degrees.len(),
            degrees@ == Degrees::catalog(),
            forall|k: int| 0 <= k < i ==> (#[trigger] Degrees::catalog()[k]).id@ != id@,
        decreases degrees.len() - i,
    {
        if same_text(degrees[i].id, id) {
            return Some(degrees[i]);
        }
        i = i + 1;
    }
    proof {
        reveal(in_catalog);
    }
    None
}

/// A degree of the catalogue has an id of the catalogue.
pub proof fn lemma_in_catalog(i: int)
    requires
        0 <= i < Degrees::catalog().len(),
    ensures
        in_catalog(Degrees::catalog()[i].id@),
{
    reveal(in_catalog);
}

/// A degree program described at run time.
#[derive(Debug)]
pub struct Degree {
    /// The section headline as found in the module overview of a lecture.
    pub name: String,
    pub level: DegreeLevel,
    /// Address of the listing page of this degree.
    pub url: String,
    pub language: Language,
    /// Short stable name; the identity of the degree.
    pub id: String,
}

impl View for Degree {
    type V = DegreeView;

    open spec fn view(&self) -> DegreeView {
        DegreeView {
            name: self.name@,
            level: self.level,
            url: self.url@,
            language: self.language,
            id: self.id@,
        }
    }
}

impl PartialEq for Degree {
    fn eq(&self, other: &Self) -> (equal: bool) {
        self.id == other.id
    }
}

impl Eq for Degree {

}

impl PartialEqSpecImpl for Degree {
    open spec fn obeys_eq_spec() -> bool {
        true
    }

    open spec fn eq_spec(&self, other: &Self) -> bool {
        self.id@ == other.id@
    }
}

impl Hash for Degree {
    /// Feeds the `id` to the hasher and nothing else, so that equal degrees
    /// hash alike.
    fn hash<H: Hasher>(&self, state: &mut H) {
        hash_text(self.id.as_str(), state);
    }
}

/// Lectures are the same where their addresses are, whatever else they hold:
/// `==` says so, and in a set or a map that is keyed by the address of a
/// lecture two such lectures take one place.
pub proof fn lemma_lecture_identity(a: Lecture, b: Lecture)
    ensures
        vstd::std_specs::cmp::PartialEqSpec::eq_spec(&a, &b) <==> a.url@ == b.url@,
        a.url@ == b.url@ ==> Set::<Seq<char>>::empty().insert(a.url@).insert(b.url@).len() == 1,
        a.url@ == b.url@ ==> Map::<Seq<char>, LectureView>::empty().insert(a.url@, a@).insert(
            b.url@,
            b@,
        ) == Map::<Seq<char>, LectureView>::empty().insert(a.url@, b@),
        a.url@ != b.url@ ==> Set::<Seq<char>>::empty().insert(a.url@).insert(b.url@).len() == 2,
{
    let one = Set::<Seq<char>>::empty().insert(a.url@);
    assert(one.len() == 1);
    if a.url@ == b.url@ {
        assert(one.insert(b.url@) =~= one);
        assert(Map::<Seq<char>, LectureView>::empty().insert(a.url@, a@).insert(b.url@, b@)
            =~= Map::<Seq<char>, LectureView>::empty().insert(a.url@, b@));
    }
}

/// Degrees are the same where their ids are, whatever else they hold.
pub proof fn lemma_degree_identity(a: StaticDegree, b: StaticDegree)
    ensures
        vstd::std_specs::cmp::PartialEqSpec::eq_spec(&a, &b) <==> a.id@ == b.id@,
{
}

/// The degrees of the catalogue have ids of their own: no two have the same.
pub proof fn lemma_catalog_ids_differ()
    ensures
        forall|i: int, j: int|
            0 <= i < j < Degrees::catalog().len() ==> (#[trigger] Degrees::catalog()[i]).id@ != (
            #[trigger] Degrees::catalog()[j]).id@,
        forall|i: int|
            0 <= i < Degrees::catalog().len() ==> !(#[trigger] Degrees::catalog()[i]).is_placeholder(),
{
    reveal_strlit("itse-ba");
    reveal_strlit("itse-ma");
    reveal_strlit("de-ma");
    reveal_strlit("dh-ma");
    reveal_strlit("cs-ma");
    reveal_strlit("tbd");
    reveal_strlit(
        "https://hpi.de/studium/im-studium/lehrveranstaltungen/it-systems-engineering-ba.html",
    );
    reveal_strlit(
        "https://hpi.de/studium/im-studium/lehrveranstaltungen/it-systems-engineering-ma.html",
    );
    reveal_strlit("https://hpi.de/studium/im-studium/lehrveranstaltungen/data-engineering-ma.html");
    reveal_strlit("https://hpi.de/studium/im-studium/lehrveranstaltungen/digital-health-ma.html");
    reveal_strlit("https://hpi.de/studium/im-studium/lehrveranstaltungen/cybersecurity-ma.html");
    let catalog = Degrees::catalog();
    assert(catalog[0].id@[5] == 'b');
    assert(catalog[1].id@[5] == 'm');
    assert(catalog[2].id@[1] == 'e');
    assert(catalog[3].id@[1] == 'h');
    assert(catalog[4].id@[0] == 'c');
    assert(catalog[0].url@.len() > 3);
    assert(catalog[1].url@.len() > 3);
    assert(catalog[2].url@.len() > 3);
    assert(catalog[3].url@.len() > 3);
    assert(catalog[4].url@.len() > 3);
}

} // verus!
