use dachterasse::config::Config;
use dachterasse::entities::find_degree;
use dachterasse::entities::Categories;
use dachterasse::entities::Degree;
use dachterasse::entities::DegreeLevel;
use dachterasse::entities::Degrees;
use dachterasse::entities::Language;
use dachterasse::entities::Lecture;
use dachterasse::entities::Module;
use dachterasse::text::ends_with;
use dachterasse::text::is_whitespace;
use dachterasse::text::same_text;
use dachterasse::text::trim;
use std::collections::HashSet;

#[test]
fn lectures_are_equal_by_url() {
    let mut categories = Categories::new();
    categories.append("M".to_string(), vec!["c".to_string()]);
    let a = Lecture {
        title: "A".to_string(),
        url: "https://hpi.de/x.html".to_string(),
        categories: Some(categories),
    };
    let b = Lecture { title: "B".to_string(), url: "https://hpi.de/x.html".to_string(), categories: None };
    let c = Lecture { title: "A".to_string(), url: "https://hpi.de/y.html".to_string(), categories: None };
    assert!(a == b);
    assert!(a != c);
    let mut set = HashSet::new();
    assert!(set.insert(a.clone()));
    assert!(!set.insert(b));
    assert!(set.insert(c));
    assert_eq!(set.len(), 2);
    let copy = a.clone();
    assert_eq!(copy.title, "A");
    assert_eq!(copy.categories.unwrap().get("M").unwrap(), &vec!["c".to_string()]);
}

#[test]
fn degrees_are_equal_by_id() {
    let mut other = Degrees::itse_ma();
    other.name = "renamed";
    other.url = "elsewhere";
    assert!(other == Degrees::itse_ma());
    assert!(Degrees::itse_ma() != Degrees::itse_ba());
    let mut set = HashSet::new();
    assert!(set.insert(Degrees::itse_ma()));
    assert!(!set.insert(other));
    let owned: Degree = Degrees::dh_ma().to_degree();
    assert_eq!(owned.id, "dh-ma");
    assert_eq!(owned.name, "Digital Health MA");
    assert_eq!(owned.level, DegreeLevel::Master);
    assert_eq!(owned.language, Language::English);
    let mut renamed = Degrees::dh_ma().to_degree();
    renamed.name = "x".to_string();
    assert!(renamed == owned);
    let mut owned_set = HashSet::new();
    assert!(owned_set.insert(owned));
    assert!(!owned_set.insert(renamed));
}

#[test]
fn catalogue_has_five_degrees_in_order() {
    let all = Degrees::all();
    let ids: Vec<&str> = all.iter().map(|degree| degree.id).collect();
    assert_eq!(ids, vec!["itse-ba", "itse-ma", "de-ma", "dh-ma", "cs-ma"]);
    assert_eq!(all[0].level, DegreeLevel::Bachelor);
    assert_eq!(all[1].language, Language::German);
    assert_eq!(
        all[1].url,
        "https://hpi.de/studium/im-studium/lehrveranstaltungen/it-systems-engineering-ma.html"
    );
    assert_eq!(all[4].name, "Cybersecurity MA");
    assert!(all.iter().all(|degree| degree.url.starts_with("https://hpi.de/")));
    assert_eq!(Degrees::sse_ma().url, "tbd");
}

#[test]
fn find_degree_by_id() {
    assert_eq!(find_degree("de-ma").unwrap().name, "Data Engineering MA");
    assert!(find_degree("tbd").is_none());
    assert!(find_degree("DE-MA").is_none());
    assert!(find_degree("").is_none());
}

#[test]
fn categories_file_labels_by_module() {
    let mut categories = Categories::new();
    assert!(categories.is_empty());
    categories.append("A".to_string(), vec!["1".to_string()]);
    categories.append("B".to_string(), vec!["2".to_string()]);
    categories.append("A".to_string(), vec!["3".to_string(), "1".to_string()]);
    assert_eq!(categories.len(), 2);
    assert!(categories.contains_key("A"));
    assert!(!categories.contains_key("a"));
    assert_eq!(
        categories.get("A").unwrap(),
        &vec!["1".to_string(), "3".to_string(), "1".to_string()]
    );
    assert!(categories.get("C").is_none());
    let names: Vec<&str> = categories.entries().iter().map(|module| module.name.as_str()).collect();
    assert_eq!(names, vec!["A", "B"]);
    let copy = categories.clone();
    assert_eq!(copy.get("B").unwrap(), &vec!["2".to_string()]);
}

#[test]
fn categories_from_entries_wants_different_names() {
    let module = |name: &str| Module { name: name.to_string(), categories: vec![name.to_string()] };
    let categories = Categories::from_entries(vec![module("A"), module("B"), module("C")]).unwrap();
    assert_eq!(categories.len(), 3);
    assert!(Categories::from_entries(vec![module("A"), module("B"), module("A")]).is_none());
    assert!(Categories::from_entries(vec![module("A"), module("A")]).is_none());
    assert!(Categories::from_entries(Vec::new()).unwrap().is_empty());
}

#[test]
fn config_names_the_cache() {
    assert!(Config::new().get_cache_path().is_none());
    assert!(Config::default().cache_path.is_none());
    assert_eq!(
        Config::with_cache().get_cache_path().as_deref(),
        Some("cache/lecture_cache.json")
    );
    let config = Config::new().cache_path("a".to_string()).cache_path("b/c".to_string());
    assert_eq!(config.get_cache_path().as_deref(), Some("b/c"));
}

#[test]
fn trim_removes_surrounding_whitespace() {
    assert_eq!(trim("  \n Foo bar\t "), "Foo bar");
    assert_eq!(trim("Foo"), "Foo");
    assert_eq!(trim(""), "");
    assert_eq!(trim(" \t\r\n"), "");
    assert_eq!(trim("\u{a0}\u{2003}Grüße \u{3000}"), "Grüße");
    assert_eq!(trim("\u{200b}x\u{200b}"), "\u{200b}x\u{200b}");
    assert_eq!(trim(" a  b "), "a  b");
}

#[test]
fn whitespace_is_what_the_standard_library_says() {
    for code in 0u32..0x3100 {
        if let Some(c) = char::from_u32(code) {
            assert_eq!(is_whitespace(c), c.is_whitespace(), "U+{:04X}", code);
        }
    }
    assert!(!is_whitespace('\u{feff}'));
    assert!(!is_whitespace('\u{10000}'));
}

#[test]
fn trim_is_what_the_standard_library_says() {
    for text in ["", " ", "a", " a", "a ", " a b ", "\n\ta\u{85}", "\u{1680}x\u{2028}\u{2029}", "日本 語 "] {
        assert_eq!(trim(text), text.trim());
    }
}

#[test]
fn texts_compare_by_characters() {
    assert!(same_text("abc", "abc"));
    assert!(!same_text("abc", "abd"));
    assert!(!same_text("abc", "ab"));
    assert!(same_text("", ""));
    assert!(ends_with("cache.json", ".json"));
    assert!(ends_with("cache.json", ""));
    assert!(!ends_with("json", ".json"));
    assert!(!ends_with("cache.jsonx", ".json"));
    assert!(ends_with("grüße", "üße"));
}
