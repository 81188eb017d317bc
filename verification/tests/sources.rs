use dachterasse::cache::lecture_from_json;
use dachterasse::cache::lectures_from_json;
use dachterasse::cache::lectures_to_json;
use dachterasse::database::lectures_from_rows;
use dachterasse::database::save_statements;
use dachterasse::database::LectureRow;
use dachterasse::database::Statement;
use dachterasse::datasource::ErrorKind;
use dachterasse::entities::Categories;
use dachterasse::entities::Degrees;
use dachterasse::entities::Lecture;
use dachterasse::json::Json;
use dachterasse::json::Member;
use dachterasse::scrape::ScrapeError;
use dachterasse::scrape::ScrapeSession;
use dachterasse::sources::filesystem_source::ensure_extension;
use dachterasse::sources::filesystem_source::join;
use dachterasse::sources::filesystem_source::CacheError;
use dachterasse::sources::scraper_source::scraped;
use dachterasse::sources::scraper_source::upstream;
use dachterasse::sources::FSDataSource;
use dachterasse::sources::FileSystemCache;

fn lecture(title: &str, url: &str, categories: Option<Vec<(&str, Vec<&str>)>>) -> Lecture {
    Lecture {
        title: title.to_string(),
        url: url.to_string(),
        categories: categories.map(|modules| {
            let mut filed = Categories::new();
            for (name, labels) in modules {
                filed.append(name.to_string(), labels.iter().map(|label| label.to_string()).collect());
            }
            filed
        }),
    }
}

fn assert_same(a: &[Lecture], b: &[Lecture]) {
    assert_eq!(a.len(), b.len());
    for (x, y) in a.iter().zip(b.iter()) {
        assert_eq!(x.title, y.title);
        assert_eq!(x.url, y.url);
        match (&x.categories, &y.categories) {
            (None, None) => {}
            (Some(p), Some(q)) => {
                assert_eq!(p.len(), q.len());
                for module in p.entries() {
                    assert_eq!(q.get(&module.name), Some(&module.categories));
                }
            }
            _ => panic!("categories differ"),
        }
    }
}

fn sample() -> Vec<Lecture> {
    vec![
        lecture("Foo \"quoted\"", "https://hpi.de/studium/foo.html", None),
        lecture(
            "Bär",
            "https://hpi.de/studium/bar.html",
            Some(vec![("Zeta", vec!["z1", "z2"]), ("Alpha", vec![]), ("Mid", vec!["m"])]),
        ),
        lecture("Empty", "https://hpi.de/studium/empty.html", Some(vec![])),
    ]
}

#[test]
fn cache_file_lies_in_the_directory_under_the_degree_id() {
    let source = FSDataSource::new("/tmp/c".to_string());
    assert_eq!(source.cache_for_degree(&Degrees::itse_ma()).file_path(), "/tmp/c/itse-ma.json");
    assert_eq!(source.cache_for_degree(&Degrees::cs_ma()).file_path(), "/tmp/c/cs-ma.json");
    let nested = FSDataSource::new("cache/lecture_cache.json".to_string());
    assert_eq!(
        nested.cache_for_degree(&Degrees::de_ma()).file_path(),
        "cache/lecture_cache.json/de-ma.json"
    );
    let slash = FSDataSource::new("cache/".to_string());
    assert_eq!(slash.cache_for_degree(&Degrees::dh_ma()).file_path(), "cache/dh-ma.json");
    let here = FSDataSource::new(String::new());
    assert_eq!(here.cache_for_degree(&Degrees::itse_ba()).file_path(), "itse-ba.json");
}

#[test]
fn paths_are_joined_and_extended() {
    assert_eq!(join("a", "b"), "a/b");
    assert_eq!(join("a/", "b"), "a/b");
    assert_eq!(join("", "b"), "b");
    assert_eq!(join("/", "b"), "/b");
    assert_eq!(ensure_extension("a/b", "json"), "a/b.json");
    assert_eq!(ensure_extension("a/b.json", "json"), "a/b.json");
    assert_eq!(ensure_extension("a/bjson", "json"), "a/bjson.json");
    assert_eq!(ensure_extension("a/b.txt", "json"), "a/b.txt.json");
    assert_eq!(FileSystemCache::new("x".to_string()).file_path(), "x.json");
}

#[test]
fn what_is_saved_to_a_cache_file_is_loaded_from_it() {
    let cache = FileSystemCache::new("/tmp/c/itse-ma".to_string());
    let lectures = sample();
    let content = cache.save_lectures(&lectures).unwrap();
    let loaded = cache.load_lectures(Some(&content)).unwrap();
    assert_same(&loaded, &lectures);
    let again = cache.save_lectures(&loaded).unwrap();
    assert_eq!(again, content);
    let none = cache.save_lectures(&[]).unwrap();
    assert_eq!(none, "[]");
    assert_eq!(cache.load_lectures(Some("[]")).unwrap().len(), 0);
}

#[test]
fn cache_content_is_a_json_array_of_objects() {
    let cache = FileSystemCache::new("c".to_string());
    let content = cache
        .save_lectures(&[lecture("T", "https://hpi.de/u.html", Some(vec![("M", vec!["a", "b"])]))])
        .unwrap();
    let value: serde_json::Value = serde_json::from_str(&content).unwrap();
    let object = value.as_array().unwrap()[0].as_object().unwrap();
    assert_eq!(object.len(), 3);
    assert_eq!(object["title"], "T");
    assert_eq!(object["url"], "https://hpi.de/u.html");
    assert_eq!(object["categories"]["M"][1], "b");
    let bare = cache.save_lectures(&[lecture("T", "u", None)]).unwrap();
    let value: serde_json::Value = serde_json::from_str(&bare).unwrap();
    assert!(value[0]["categories"].is_null());
}

#[test]
fn cache_file_of_another_writer_is_read() {
    let cache = FileSystemCache::new("c".to_string());
    let text = r#"[
        {"url": "https://hpi.de/a.html", "extra": {"deep": [1, 2.5, true]}, "title": "A",
         "categories": {"Mod": ["x", "y"], "Second": []}},
        {"title": "B", "url": "https://hpi.de/b.html", "categories": null},
        {"title": "C", "url": "https://hpi.de/c.html"}
    ]"#;
    let lectures = cache.load_lectures(Some(text)).unwrap();
    assert_eq!(lectures.len(), 3);
    assert_eq!(lectures[0].title, "A");
    let categories = lectures[0].categories.as_ref().unwrap();
    assert_eq!(categories.get("Mod").unwrap(), &vec!["x".to_string(), "y".to_string()]);
    assert_eq!(categories.get("Second").unwrap().len(), 0);
    assert!(lectures[1].categories.is_none());
    assert!(lectures[2].categories.is_none());
}

#[test]
fn cache_file_that_is_no_list_of_lectures_is_a_format_error() {
    let cache = FileSystemCache::new("c".to_string());
    for text in [
        "",
        "not json",
        "{}",
        "[1]",
        r#"[{"title": "A"}]"#,
        r#"[{"url": "u"}]"#,
        r#"[{"title": 1, "url": "u"}]"#,
        r#"[{"title": "A", "url": "u", "categories": []}]"#,
        r#"[{"title": "A", "url": "u", "categories": {"M": "x"}}]"#,
        r#"[{"title": "A", "url": "u", "categories": {"M": [1]}}]"#,
        r#"[{"title": "A", "url": "u"}, null]"#,
        r#"[{"title": "A", "url": "u"}"#,
    ] {
        assert_eq!(cache.load_lectures(Some(text)).unwrap_err(), CacheError::Format, "{}", text);
    }
    assert_eq!(cache.load_lectures(None).unwrap_err(), CacheError::Io);
}

#[test]
fn file_source_wraps_failures_with_the_degree() {
    let degree = Degrees::itse_ma();
    let source = FSDataSource::new("/tmp/c".to_string());
    let unread = source.loaded(&degree, Err("No such file or directory")).unwrap_err();
    assert_eq!(unread.kind, ErrorKind::Io);
    assert_eq!(unread.degree_id, "itse-ma");
    assert_eq!(
        unread.to_string(),
        "Could not load cache for degree itse-ma due to No such file or directory"
    );
    let malformed = source.loaded(&degree, Ok("{")).unwrap_err();
    assert_eq!(malformed.kind, ErrorKind::Format);
    assert_eq!(
        malformed.to_string(),
        "Could not load cache for degree itse-ma due to content that is no list of lectures"
    );
    let lectures = sample();
    let content = source.to_save(&degree, &lectures).unwrap();
    assert_same(&source.loaded(&degree, Ok(&content)).unwrap(), &lectures);
    let unwritten = source.not_saved(&degree, "disk full");
    assert_eq!(unwritten.kind, ErrorKind::Io);
    assert_eq!(unwritten.to_string(), "Could not save cache for degree itse-ma due to disk full");
}

#[test]
fn lectures_are_read_from_json_values() {
    let text = |s: &str| Json::Text(s.to_string());
    let member = |name: &str, value: Json| Member { name: name.to_string(), value };
    let object = Json::Object(vec![
        member("other", Json::Array(vec![Json::Null, Json::Bool(true)])),
        member("url", text("u")),
        member("title", text("t")),
        member("title", Json::Null),
        member("categories", Json::Object(vec![member("M", Json::Array(vec![text("a")]))])),
    ]);
    let lecture = lecture_from_json(&object).unwrap();
    assert_eq!(lecture.title, "t");
    assert_eq!(lecture.url, "u");
    assert_eq!(lecture.categories.unwrap().get("M").unwrap(), &vec!["a".to_string()]);
    let twice = Json::Object(vec![
        member("url", text("u")),
        member("title", text("t")),
        member(
            "categories",
            Json::Object(vec![member("M", Json::Array(vec![])), member("M", Json::Array(vec![]))]),
        ),
    ]);
    assert!(lecture_from_json(&twice).is_none());
    assert!(lecture_from_json(&Json::Array(vec![])).is_none());
    assert!(lectures_from_json(&Json::Null).is_none());
    let written = lectures_to_json(&sample());
    assert_same(&lectures_from_json(&written).unwrap(), &sample());
    match written {
        Json::Array(items) => match &items[0] {
            Json::Object(members) => {
                let names: Vec<&str> = members.iter().map(|member| member.name.as_str()).collect();
                assert_eq!(names, vec!["title", "url", "categories"]);
            }
            _ => panic!("no object"),
        },
        _ => panic!("no array"),
    }
}

fn row(title: &str, url: &str, degree_id: &str) -> LectureRow {
    LectureRow { title: title.to_string(), url: url.to_string(), degree_id: degree_id.to_string() }
}

#[test]
fn rows_of_the_degree_are_its_lectures() {
    let degree = Degrees::itse_ma();
    let rows = vec![
        row("A", "https://hpi.de/a.html", "itse-ma"),
        row("X", "https://hpi.de/x.html", "de-ma"),
        row("B", "https://hpi.de/b.html", "itse-ma"),
    ];
    let lectures = lectures_from_rows(&degree, &rows).unwrap();
    assert_eq!(lectures.len(), 2);
    assert_eq!(lectures[0].title, "A");
    assert_eq!(lectures[1].url, "https://hpi.de/b.html");
    assert!(lectures.iter().all(|lecture| lecture.categories.is_none()));
}

#[test]
fn a_degree_without_rows_is_missing() {
    let degree = Degrees::cs_ma();
    let error = lectures_from_rows(&degree, &Vec::new()).unwrap_err();
    assert_eq!(error.kind, ErrorKind::Missing);
    assert_eq!(error.degree_id, "cs-ma");
    assert_eq!(error.to_string(), "No lectures in database for degree Cybersecurity MA");
    let others = vec![row("X", "https://hpi.de/x.html", "de-ma")];
    assert_eq!(lectures_from_rows(&degree, &others).unwrap_err().kind, ErrorKind::Missing);
}

fn apply(table: &mut Vec<LectureRow>, statements: Vec<Statement>) {
    for statement in statements {
        match statement {
            Statement::DeleteDegree { degree_id } => table.retain(|row| row.degree_id != degree_id),
            Statement::Insert { row } => table.push(row),
        }
    }
}

#[test]
fn saving_rows_replaces_the_rows_of_the_degree() {
    let degree = Degrees::itse_ma();
    let mut table = vec![
        row("Old", "https://hpi.de/old.html", "itse-ma"),
        row("X", "https://hpi.de/x.html", "de-ma"),
    ];
    let lectures = vec![
        lecture("A", "https://hpi.de/a.html", Some(vec![("M", vec!["c"])])),
        lecture("B", "https://hpi.de/b.html", None),
    ];
    let statements = save_statements(&degree, &lectures);
    assert_eq!(statements.len(), 3);
    assert!(matches!(&statements[0], Statement::DeleteDegree { degree_id } if degree_id == "itse-ma"));
    assert!(matches!(&statements[2], Statement::Insert { row }
        if row.title == "B" && row.url == "https://hpi.de/b.html" && row.degree_id == "itse-ma"));
    apply(&mut table, statements);
    let loaded = lectures_from_rows(&degree, &table).unwrap();
    let titles: Vec<&str> = loaded.iter().map(|lecture| lecture.title.as_str()).collect();
    assert_eq!(titles, vec!["A", "B"]);
    assert!(loaded == lectures);
    apply(&mut table, save_statements(&degree, &lectures));
    assert_eq!(lectures_from_rows(&degree, &table).unwrap().len(), 2);
    assert_eq!(lectures_from_rows(&Degrees::de_ma(), &table).unwrap().len(), 1);
    apply(&mut table, save_statements(&degree, &[]));
    assert!(lectures_from_rows(&degree, &table).is_err());
}

#[test]
fn scrape_failures_come_from_upstream() {
    let degree = Degrees::dh_ma();
    let error = upstream(&degree, ScrapeError::Network);
    assert_eq!(error.kind, ErrorKind::Upstream);
    assert_eq!(error.degree_id, "dh-ma");
    assert_eq!(error.to_string(), "Could not scrape the lectures: network failure");
    assert_eq!(
        scraped(&degree, Err(ScrapeError::Parse)).unwrap_err().to_string(),
        "Could not scrape the lectures: parse failure"
    );
    assert_eq!(
        scraped(&degree, Err(ScrapeError::Shape)).unwrap_err().to_string(),
        "Could not scrape the lectures: shape failure"
    );
    let lectures = scraped(&degree, Ok(sample())).unwrap();
    assert_same(&lectures, &sample());
}

const LISTING: &str = "<html><body>\
    <a class=\"courselink\" href=\"/studium/one.html\">One</a>\
    <a class=\"courselink\" href=\"/studium/two.html\">Two</a>\
    </body></html>";

fn detail(heading: &str, module: &str) -> String {
    format!(
        "<div class=\"tx_dscclipclap\"><div class=\"tx_dscclipclap_header\">{}</div>\
         <ul><li>{}<ul><li>Cat</li></ul></li></ul></div>",
        heading, module
    )
}

#[test]
fn scrape_asks_for_the_listing_and_then_for_each_lecture() {
    let degree = Degrees::itse_ma();
    let mut session = ScrapeSession::begin(&degree);
    assert_eq!(session.request().as_deref(), Some(degree.url));
    session.fetched(Some(LISTING));
    assert_eq!(session.request().as_deref(), Some("https://hpi.de/studium/one.html"));
    session.fetched(Some(&detail("IT-Systems Engineering MA", "First")));
    assert_eq!(session.request().as_deref(), Some("https://hpi.de/studium/two.html"));
    session.fetched(Some(&detail("IT-Systems Engineering BA", "Second")));
    assert!(session.request().is_none());
    session.fetched(Some(LISTING));
    let lectures = session.finish().unwrap().unwrap();
    assert_eq!(lectures.len(), 2);
    assert_eq!(lectures[0].title, "One");
    assert_eq!(lectures[0].categories.as_ref().unwrap().get("First").unwrap(), &vec!["Cat".to_string()]);
    assert_eq!(lectures[1].url, "https://hpi.de/studium/two.html");
    assert!(lectures[1].categories.is_none());
}

#[test]
fn scrape_of_an_empty_listing_is_finished() {
    let mut session = ScrapeSession::begin(&Degrees::de_ma());
    session.fetched(Some("<html></html>"));
    assert!(session.request().is_none());
    assert_eq!(session.finish().unwrap().unwrap().len(), 0);
}

#[test]
fn scrape_hands_out_no_lectures_after_a_failure() {
    let degree = Degrees::itse_ma();
    let mut session = ScrapeSession::begin(&degree);
    session.fetched(None);
    assert!(session.request().is_none());
    assert_eq!(session.finish().unwrap().unwrap_err(), ScrapeError::Network);

    let mut session = ScrapeSession::begin(&degree);
    session.fetched(Some(LISTING));
    session.fetched(Some(&detail("IT-Systems Engineering MA", "First")));
    session.fetched(None);
    assert!(session.request().is_none());
    assert_eq!(session.finish().unwrap().unwrap_err(), ScrapeError::Network);

    let mut session = ScrapeSession::begin(&degree);
    session.fetched(Some(LISTING));
    session.fetched(Some(
        "<div class=\"tx_dscclipclap\"><div class=\"tx_dscclipclap_header\">\
         IT-Systems Engineering MA</div><ul><li></li></ul></div>",
    ));
    assert!(session.request().is_none());
    assert_eq!(session.finish().unwrap().unwrap_err(), ScrapeError::Shape);

    let mut session = ScrapeSession::begin(&degree);
    session.fetched(Some("<a class=\"courselink\" href=\"/nowhere\">Lost</a>"));
    assert_eq!(session.finish().unwrap().unwrap_err(), ScrapeError::Parse);

    let mut session = ScrapeSession::begin(&degree);
    session.fetched(Some(LISTING));
    assert!(session.finish().is_none());
}

#[test]
fn scrape_of_a_degree_without_listing_page_fetches_nothing() {
    let session = ScrapeSession::begin(&Degrees::sse_ma());
    assert!(session.request().is_none());
    assert_eq!(session.finish().unwrap().unwrap_err(), ScrapeError::Parse);
}
