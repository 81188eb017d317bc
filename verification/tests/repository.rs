use dachterasse::client::LectureClient;
use dachterasse::cooperative::SyncSession;
use dachterasse::cooperative::SyncStep;
use dachterasse::datasource::ErrorKind;
use dachterasse::datasource::LoadResult;
use dachterasse::datasource::ReadOnlyDataSource;
use dachterasse::datasource::ReadWriteDataSource;
use dachterasse::datasource::SaveResult;
use dachterasse::datasource::SourceError;
use dachterasse::entities::Categories;
use dachterasse::entities::Degrees;
use dachterasse::entities::Lecture;
use dachterasse::entities::StaticDegree;
use dachterasse::repository::LectureRepository;
use dachterasse::repository::Place;
use dachterasse::sources::Either;
use dachterasse::sources::InMemoryDataSource;
use std::cell::RefCell;
use std::rc::Rc;

fn lecture(title: &str, url: &str) -> Lecture {
    Lecture { title: title.to_string(), url: url.to_string(), categories: None }
}

fn same(a: &[Lecture], b: &[Lecture]) -> bool {
    a.len() == b.len()
        && a.iter().zip(b.iter()).all(|(x, y)| {
            x.title == y.title
                && x.url == y.url
                && x.categories.is_some() == y.categories.is_some()
        })
}

/// A read-only source with a fixed answer that counts how often it is asked.
struct Stub {
    answer: Option<Vec<Lecture>>,
    asked: Rc<RefCell<Vec<String>>>,
    name: &'static str,
}

impl Stub {
    fn new(name: &'static str, answer: Option<Vec<Lecture>>, asked: &Rc<RefCell<Vec<String>>>) -> Self {
        Stub { answer, asked: asked.clone(), name }
    }
}

impl ReadOnlyDataSource for Stub {
    fn load_lectures(&self, degree: &StaticDegree) -> LoadResult {
        self.asked.borrow_mut().push(format!("load {} {}", self.name, degree.id));
        match &self.answer {
            Some(lectures) => Ok(lectures.clone()),
            None => Err(SourceError::new(ErrorKind::Missing, degree, "nothing in ", self.name)),
        }
    }
}

/// A writable source that records what happens to it and can refuse to save.
struct Recorder {
    held: Option<Vec<Lecture>>,
    refuses: bool,
    log: Rc<RefCell<Vec<String>>>,
    name: &'static str,
}

impl Recorder {
    fn new(name: &'static str, held: Option<Vec<Lecture>>, refuses: bool, log: &Rc<RefCell<Vec<String>>>) -> Self {
        Recorder { held, refuses, log: log.clone(), name }
    }
}

impl ReadOnlyDataSource for Recorder {
    fn load_lectures(&self, degree: &StaticDegree) -> LoadResult {
        self.log.borrow_mut().push(format!("load {} {}", self.name, degree.id));
        match &self.held {
            Some(lectures) => Ok(lectures.clone()),
            None => Err(SourceError::new(ErrorKind::Missing, degree, "nothing in ", self.name)),
        }
    }
}

impl ReadWriteDataSource for Recorder {
    fn save_lectures(&mut self, degree: &StaticDegree, lectures: &[Lecture]) -> SaveResult {
        let urls: Vec<&str> = lectures.iter().map(|lecture| lecture.url.as_str()).collect();
        self.log.borrow_mut().push(format!("save {} {} {:?}", self.name, degree.id, urls));
        if self.refuses {
            Err(SourceError::new(ErrorKind::Io, degree, "cannot write to ", self.name))
        } else {
            self.held = Some(lectures.to_vec());
            Ok(())
        }
    }
}

#[test]
fn memory_source_hands_out_what_was_saved() {
    let degree = Degrees::itse_ma();
    let other = Degrees::de_ma();
    let mut source = InMemoryDataSource::new();
    let missing = source.load_lectures(&degree).unwrap_err();
    assert_eq!(missing.kind, ErrorKind::Missing);
    assert_eq!(missing.degree_id, "itse-ma");
    assert_eq!(missing.to_string(), "No cached lectures for degree IT-Systems Engineering MA");
    let first = vec![lecture("A", "https://hpi.de/a.html"), lecture("B", "https://hpi.de/b.html")];
    source.save_lectures(&degree, &first).unwrap();
    assert!(same(&source.load_lectures(&degree).unwrap(), &first));
    assert!(source.load_lectures(&other).is_err());
    let second = vec![lecture("C", "https://hpi.de/c.html")];
    source.save_lectures(&degree, &second).unwrap();
    assert!(same(&source.load_lectures(&degree).unwrap(), &second));
    source.save_lectures(&degree, &second).unwrap();
    assert!(same(&source.load_lectures(&degree).unwrap(), &second));
    source.save_lectures(&other, &first).unwrap();
    assert!(same(&source.load_lectures(&degree).unwrap(), &second));
    assert!(same(&source.load_lectures(&other).unwrap(), &first));
}

#[test]
fn memory_source_keeps_an_empty_list() {
    let degree = Degrees::cs_ma();
    let mut source = InMemoryDataSource::default();
    source.save_lectures(&degree, &[]).unwrap();
    assert_eq!(source.load_lectures(&degree).unwrap().len(), 0);
}

#[test]
fn memory_source_keeps_categories() {
    let degree = Degrees::dh_ma();
    let mut categories = Categories::new();
    categories.append("Mod".to_string(), vec!["Cat".to_string()]);
    let mut saved = lecture("A", "https://hpi.de/a.html");
    saved.categories = Some(categories);
    let mut source = InMemoryDataSource::new();
    source.save_lectures(&degree, &[saved]).unwrap();
    let loaded = source.load_lectures(&degree).unwrap();
    assert_eq!(loaded[0].categories.as_ref().unwrap().get("Mod").unwrap(), &vec!["Cat".to_string()]);
}

#[test]
fn load_falls_back_to_the_read_only_source_and_writes_through() {
    let degree = Degrees::itse_ma();
    let asked = Rc::new(RefCell::new(Vec::new()));
    let answer = vec![lecture("A", "https://hpi.de/a.html")];
    let mut repository = LectureRepository::new()
        .source(InMemoryDataSource::new())
        .readonly_source(Stub::new("stub", Some(answer.clone()), &asked));
    let lectures = repository.synchronized_load(&degree).unwrap();
    assert!(same(&lectures, &answer));
    let memory = &repository.writable_sources()[0];
    assert!(same(&memory.load_lectures(&degree).unwrap(), &answer));
    assert_eq!(repository.save_failures().len(), 0);
    assert_eq!(*asked.borrow(), vec!["load stub itse-ma"]);
    let again = repository.synchronized_load(&degree).unwrap();
    assert!(same(&again, &answer));
    assert_eq!(asked.borrow().len(), 1);
}

#[test]
fn load_saves_to_every_writable_source() {
    let degree = Degrees::itse_ma();
    let log = Rc::new(RefCell::new(Vec::new()));
    let x = vec![lecture("X", "https://hpi.de/x.html")];
    let mut repository: LectureRepository<Recorder, Stub> = LectureRepository::new();
    repository.add_source(Recorder::new("first", None, false, &log));
    repository.add_source(Recorder::new("second", Some(x.clone()), false, &log));
    repository.add_readonly_source(Stub::new("never", Some(Vec::new()), &log));
    let lectures = repository.synchronized_load(&degree).unwrap();
    assert!(same(&lectures, &x));
    assert_eq!(
        *log.borrow(),
        vec![
            "load first itse-ma",
            "load second itse-ma",
            "save first itse-ma [\"https://hpi.de/x.html\"]",
            "save second itse-ma [\"https://hpi.de/x.html\"]",
        ]
    );
    assert!(same(repository.writable_sources()[0].held.as_ref().unwrap(), &x));
}

#[test]
fn load_without_an_answer_names_the_degree() {
    let degree = Degrees::de_ma();
    let log = Rc::new(RefCell::new(Vec::new()));
    let mut repository: LectureRepository<Recorder, Stub> = LectureRepository::new();
    repository.add_source(Recorder::new("w", None, false, &log));
    repository.add_readonly_source(Stub::new("r1", None, &log));
    repository.add_readonly_source(Stub::new("r2", None, &log));
    let error = repository.synchronized_load(&degree).unwrap_err();
    assert_eq!(error.kind, ErrorKind::NoSource);
    assert_eq!(error.degree_id, "de-ma");
    assert_eq!(error.to_string(), "No source returned lectures for degree Data Engineering MA");
    assert_eq!(*log.borrow(), vec!["load w de-ma", "load r1 de-ma", "load r2 de-ma"]);
    assert_eq!(repository.save_failures().len(), 0);
}

#[test]
fn load_without_sources_fails() {
    let mut repository: LectureRepository<InMemoryDataSource, Stub> = LectureRepository::new();
    let error = repository.synchronized_load(&Degrees::cs_ma()).unwrap_err();
    assert_eq!(error.kind, ErrorKind::NoSource);
}

#[test]
fn writable_sources_are_asked_first_and_in_order() {
    let degree = Degrees::dh_ma();
    let log = Rc::new(RefCell::new(Vec::new()));
    let from_read_only = vec![lecture("R", "https://hpi.de/r.html")];
    let from_second = vec![lecture("S", "https://hpi.de/s.html")];
    let from_third = vec![lecture("T", "https://hpi.de/t.html")];
    let repository = LectureRepository::new()
        .readonly_source(Stub::new("r", Some(from_read_only), &log))
        .source(Recorder::new("w1", None, false, &log))
        .source(Recorder::new("w2", Some(from_second.clone()), false, &log))
        .source(Recorder::new("w3", Some(from_third), false, &log));
    let (place, lectures) = repository.first_answer(&degree).unwrap();
    assert_eq!(place, Place::Writable(1));
    assert!(same(&lectures, &from_second));
    assert_eq!(*log.borrow(), vec!["load w1 dh-ma", "load w2 dh-ma"]);
    assert!(same(&repository.try_loading(&degree).unwrap(), &from_second));
}

#[test]
fn an_empty_answer_is_an_answer() {
    let degree = Degrees::dh_ma();
    let log = Rc::new(RefCell::new(Vec::new()));
    let mut repository = LectureRepository::new()
        .source(Recorder::new("w", None, false, &log))
        .readonly_source(Stub::new("empty", Some(Vec::new()), &log))
        .readonly_source(Stub::new("full", Some(vec![lecture("F", "https://hpi.de/f.html")]), &log));
    assert_eq!(repository.synchronized_load(&degree).unwrap().len(), 0);
    assert_eq!(*log.borrow(), vec!["load w dh-ma", "load empty dh-ma", "save w dh-ma []"]);
}

#[test]
fn a_failed_save_is_put_on_record_and_the_others_are_made() {
    let degree = Degrees::itse_ba();
    let log = Rc::new(RefCell::new(Vec::new()));
    let answer = vec![lecture("A", "https://hpi.de/a.html")];
    let mut repository = LectureRepository::new()
        .source(Recorder::new("w1", None, false, &log))
        .source(Recorder::new("w2", None, true, &log))
        .source(Recorder::new("w3", None, false, &log))
        .readonly_source(Stub::new("r", Some(answer.clone()), &log));
    let lectures = repository.synchronized_load(&degree).unwrap();
    assert!(same(&lectures, &answer));
    assert_eq!(repository.save_failures().len(), 1);
    let failure = &repository.save_failures()[0];
    assert_eq!(failure.source, 1);
    assert_eq!(failure.degree_id, "itse-ba");
    assert_eq!(failure.error.kind, ErrorKind::Io);
    assert_eq!(failure.error.to_string(), "cannot write to w2");
    assert!(same(repository.writable_sources()[0].held.as_ref().unwrap(), &answer));
    assert!(repository.writable_sources()[1].held.is_none());
    assert!(same(repository.writable_sources()[2].held.as_ref().unwrap(), &answer));
    repository.write_through(&degree, &answer);
    assert_eq!(repository.save_failures().len(), 2);
    assert_eq!(repository.readonly_sources().len(), 1);
}

fn run_session(
    degree: &StaticDegree,
    writable: &mut Vec<Recorder>,
    read_only: &Vec<Stub>,
) -> (Result<Vec<Lecture>, SourceError>, usize, Vec<SyncStep>) {
    let mut session = SyncSession::begin(degree, writable.len(), read_only.len());
    let mut steps = Vec::new();
    loop {
        let step = session.step();
        steps.push(step);
        match step {
            SyncStep::Load(Place::Writable(i)) => session.loaded(writable[i].load_lectures(degree)),
            SyncStep::Load(Place::ReadOnly(i)) => session.loaded(read_only[i].load_lectures(degree)),
            SyncStep::Save(i) => {
                let answer = session.lectures().unwrap().clone();
                session.saved(writable[i].save_lectures(degree, &answer));
            }
            SyncStep::Done => break,
        }
    }
    let (result, failures) = session.finish().unwrap();
    (result, failures.len(), steps)
}

#[test]
fn session_takes_the_steps_of_the_repository() {
    let degree = Degrees::itse_ma();
    let log = Rc::new(RefCell::new(Vec::new()));
    let answer = vec![lecture("A", "https://hpi.de/a.html")];
    let mut writable = vec![
        Recorder::new("w1", None, true, &log),
        Recorder::new("w2", None, false, &log),
    ];
    let read_only = vec![
        Stub::new("r1", None, &log),
        Stub::new("r2", Some(answer.clone()), &log),
        Stub::new("r3", Some(Vec::new()), &log),
    ];
    let (result, failures, steps) = run_session(&degree, &mut writable, &read_only);
    assert!(same(&result.unwrap(), &answer));
    assert_eq!(failures, 1);
    assert_eq!(
        steps,
        vec![
            SyncStep::Load(Place::Writable(0)),
            SyncStep::Load(Place::Writable(1)),
            SyncStep::Load(Place::ReadOnly(0)),
            SyncStep::Load(Place::ReadOnly(1)),
            SyncStep::Save(0),
            SyncStep::Save(1),
            SyncStep::Done,
        ]
    );
    assert!(same(writable[1].held.as_ref().unwrap(), &answer));
}

#[test]
fn session_without_an_answer_fails_and_saves_nothing() {
    let degree = Degrees::cs_ma();
    let log = Rc::new(RefCell::new(Vec::new()));
    let mut writable = vec![Recorder::new("w1", None, false, &log)];
    let read_only = vec![Stub::new("r1", None, &log)];
    let (result, failures, steps) = run_session(&degree, &mut writable, &read_only);
    let error = result.unwrap_err();
    assert_eq!(error.kind, ErrorKind::NoSource);
    assert_eq!(error.to_string(), "No source returned lectures for degree Cybersecurity MA");
    assert_eq!(failures, 0);
    assert_eq!(
        steps,
        vec![SyncStep::Load(Place::Writable(0)), SyncStep::Load(Place::ReadOnly(0)), SyncStep::Done]
    );
    assert_eq!(*log.borrow(), vec!["load w1 cs-ma", "load r1 cs-ma"]);
}

#[test]
fn session_ignores_what_it_did_not_ask_for() {
    let degree = Degrees::cs_ma();
    let mut session = SyncSession::begin(&degree, 0, 1);
    assert_eq!(session.step(), SyncStep::Load(Place::ReadOnly(0)));
    session.saved(Ok(()));
    assert_eq!(session.step(), SyncStep::Load(Place::ReadOnly(0)));
    assert!(session.lectures().is_none());
    session.loaded(Ok(vec![lecture("A", "https://hpi.de/a.html")]));
    assert_eq!(session.step(), SyncStep::Done);
    session.loaded(Ok(Vec::new()));
    assert_eq!(session.lectures().unwrap().len(), 1);
    let begun = SyncSession::begin(&degree, 1, 0);
    assert!(begun.finish().is_none());
    let none = SyncSession::begin(&degree, 0, 0);
    assert_eq!(none.step(), SyncStep::Done);
    assert!(none.finish().unwrap().0.is_err());
}

#[test]
fn client_keeps_what_was_loaded() {
    let log = Rc::new(RefCell::new(Vec::new()));
    let mut categories = Categories::new();
    categories.append("Professional Skills".to_string(), vec!["Management".to_string()]);
    let mut filed = lecture("Filed", "https://hpi.de/filed.html");
    filed.categories = Some(categories);
    let mut elsewhere = Categories::new();
    elsewhere.append("Other".to_string(), vec!["Thing".to_string()]);
    let mut other = lecture("Other", "https://hpi.de/other.html");
    other.categories = Some(elsewhere);
    let answer = vec![lecture("Bare", "https://hpi.de/bare.html"), filed, other];
    let repository = LectureRepository::new()
        .source(InMemoryDataSource::new())
        .readonly_source(Stub::new("r", Some(answer.clone()), &log));
    let mut client = LectureClient::new(repository);
    let degree = Degrees::itse_ma();
    assert_eq!(client.lectures(&degree).len(), 0);
    assert_eq!(client.filter_lectures(vec!["Professional Skills"], &degree).len(), 0);
    client.init().unwrap();
    assert!(same(client.lectures(&degree), &answer));
    assert!(same(client.lectures(&Degrees::cs_ma()), &answer));
    assert_eq!(client.lectures(&Degrees::sse_ma()).len(), 0);
    assert_eq!(log.borrow().len(), 5);
    let found = client.filter_lectures(vec!["Nothing", "Professional Skills"], &degree);
    assert_eq!(found.len(), 1);
    assert_eq!(found[0].title, "Filed");
    let both = client.filter_lectures(vec!["Other", "Professional Skills"], &degree);
    let titles: Vec<&str> = both.iter().map(|lecture| lecture.title.as_str()).collect();
    assert_eq!(titles, vec!["Filed", "Other"]);
    assert_eq!(client.filter_lectures(vec!["Management"], &degree).len(), 0);
    assert_eq!(client.filter_lectures(Vec::new(), &degree).len(), 0);
    assert_eq!(client.repository().writable_sources().len(), 1);
}

#[test]
fn client_init_stops_at_the_first_failure() {
    let log = Rc::new(RefCell::new(Vec::new()));
    let repository: LectureRepository<InMemoryDataSource, Stub> =
        LectureRepository::new().readonly_source(Stub::new("r", None, &log));
    let mut client = LectureClient::new(repository);
    let error = client.init().unwrap_err();
    assert_eq!(error.kind, ErrorKind::NoSource);
    assert_eq!(error.degree_id, "itse-ba");
    assert_eq!(log.borrow().len(), 1);
    let client = client.initialized();
    assert_eq!(client.lectures(&Degrees::itse_ba()).len(), 0);
    let mut client = client;
    assert!(client.load_lectures(&Degrees::de_ma()).is_err());
}

#[test]
fn a_repository_holds_sources_of_different_kinds() {
    let degree = Degrees::de_ma();
    let log = Rc::new(RefCell::new(Vec::new()));
    let answer = vec![lecture("A", "https://hpi.de/a.html")];
    let mut repository: LectureRepository<Either<InMemoryDataSource, Recorder>, Either<Stub, InMemoryDataSource>> =
        LectureRepository::new();
    repository.add_source(Either::Left(InMemoryDataSource::new()));
    repository.add_source(Either::Right(Recorder::new("w", None, false, &log)));
    repository.add_readonly_source(Either::Right(InMemoryDataSource::new()));
    repository.add_readonly_source(Either::Left(Stub::new("r", Some(answer.clone()), &log)));
    let lectures = repository.synchronized_load(&degree).unwrap();
    assert!(same(&lectures, &answer));
    assert_eq!(
        *log.borrow(),
        vec!["load w de-ma", "load r de-ma", "save w de-ma [\"https://hpi.de/a.html\"]"]
    );
    match &repository.writable_sources()[0] {
        Either::Left(memory) => assert!(same(&memory.load_lectures(&degree).unwrap(), &answer)),
        Either::Right(_) => panic!("the first source is the one in memory"),
    }
    let (place, _) = repository.first_answer(&degree).unwrap();
    assert_eq!(place, Place::Writable(0));
}
