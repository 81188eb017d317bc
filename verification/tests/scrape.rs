use dachterasse::entities::Lecture;
use dachterasse::markup::Element;
use dachterasse::scrape::categories_from_items;
use dachterasse::scrape::clean;
use dachterasse::scrape::heading_matches;
use dachterasse::scrape::labels_from_items;
use dachterasse::scrape::lecture_from_anchor;
use dachterasse::scrape::parse_details;
use dachterasse::scrape::parse_listing;
use dachterasse::scrape::scrape_modules;
use dachterasse::scrape::ScrapeError;

fn element(texts: &[&str], html: &str, inner_html: &str) -> Element {
    Element {
        texts: texts.iter().map(|text| text.to_string()).collect(),
        html: html.to_string(),
        inner_html: inner_html.to_string(),
    }
}

fn urls(lectures: &[Lecture]) -> Vec<String> {
    lectures.iter().map(|lecture| lecture.url.clone()).collect()
}

fn titles(lectures: &[Lecture]) -> Vec<String> {
    lectures.iter().map(|lecture| lecture.title.clone()).collect()
}

#[test]
fn lib_it_works() {
    let result = 2 + 2;
    assert_eq!(result, 4);
}

#[test]
fn listing_with_two_course_links() {
    let page = "<html><body><p>Lectures</p>\
        <a class=\"courselink\" href=\"/studium/foo.html\">Foo</a>\
        <a class=\"other\" href=\"/studium/skipped.html\">Skipped</a>\
        <a class=\"courselink\" href=\"/studium/bar.html\">Foo</a>\
        </body></html>";
    let lectures = parse_listing(page).unwrap();
    assert_eq!(lectures.len(), 2);
    assert_eq!(
        urls(&lectures),
        vec!["https://hpi.de/studium/foo.html", "https://hpi.de/studium/bar.html"]
    );
    assert_eq!(titles(&lectures), vec!["Foo", "Foo"]);
    assert!(lectures.iter().all(|lecture| lecture.categories.is_none()));
}

#[test]
fn listing_keeps_document_order() {
    let page = "<ul>\
        <li><a class=\"courselink\" href=\"/studium/c.html\"> Third letter </a></li>\
        <li><a class=\"courselink\" href=\"/studium/a.html\">First letter</a></li>\
        <li><a class=\"courselink\" href=\"/studium/b.html\">\n Second letter\n</a></li>\
        </ul>";
    let lectures = parse_listing(page).unwrap();
    assert_eq!(titles(&lectures), vec!["Third letter", "First letter", "Second letter"]);
    assert_eq!(
        urls(&lectures),
        vec![
            "https://hpi.de/studium/c.html",
            "https://hpi.de/studium/a.html",
            "https://hpi.de/studium/b.html"
        ]
    );
}

#[test]
fn listing_without_course_links_is_empty() {
    let lectures = parse_listing("<html><body><a href=\"/studium/x.html\">X</a></body></html>");
    assert_eq!(lectures.unwrap().len(), 0);
    assert_eq!(parse_listing("").unwrap().len(), 0);
}

#[test]
fn listing_link_without_path_is_a_parse_error() {
    let page = "<a class=\"courselink\" href=\"/studium/ok.html\">Fine</a>\
        <a class=\"courselink\" href=\"/elsewhere/page.html\">Lost</a>";
    assert_eq!(parse_listing(page).unwrap_err(), ScrapeError::Parse);
}

#[test]
fn listing_link_without_text_is_a_shape_error() {
    let page = "<a class=\"courselink\" href=\"/studium/ok.html\"></a>";
    assert_eq!(parse_listing(page).unwrap_err(), ScrapeError::Shape);
}

#[test]
fn listing_link_with_blank_title_is_a_parse_error() {
    let page = "<a class=\"courselink\" href=\"/studium/ok.html\">  \n </a>";
    assert_eq!(parse_listing(page).unwrap_err(), ScrapeError::Parse);
}

#[test]
fn listing_takes_the_first_text_node_as_title() {
    let page = "<a class=\"courselink\" href=\"/studium/ok.html\"> Algorithms <b>new</b></a>";
    let lectures = parse_listing(page).unwrap();
    assert_eq!(titles(&lectures), vec!["Algorithms"]);
}

#[test]
fn anchor_becomes_a_lecture() {
    let anchor = element(&["  Foo "], "<a href=\"/studium/foo.html\">  Foo </a>", "  Foo ");
    let lecture = lecture_from_anchor(&anchor, Some("/studium/foo.html".to_string())).unwrap();
    assert_eq!(lecture.title, "Foo");
    assert_eq!(lecture.url, "https://hpi.de/studium/foo.html");
    assert!(lecture.categories.is_none());
    assert_eq!(lecture_from_anchor(&anchor, None).unwrap_err(), ScrapeError::Parse);
    let empty = element(&[], "<a></a>", "");
    assert_eq!(
        lecture_from_anchor(&empty, Some("/studium/foo.html".to_string())).unwrap_err(),
        ScrapeError::Shape
    );
}

#[test]
fn clean_trims_the_first_text_node() {
    let texts = vec![" \t Mod1\n".to_string(), "CatA".to_string()];
    assert_eq!(clean(&texts).unwrap(), "Mod1");
    assert_eq!(clean(&vec!["a  b".to_string()]).unwrap(), "a  b");
    assert_eq!(clean(&Vec::new()).unwrap_err(), ScrapeError::Shape);
}

fn detail_page(heading: &str, list: &str) -> String {
    format!(
        "<html><body><h1>Lecture</h1>\
         <div class=\"tx_dscclipclap\"><div class=\"tx_dscclipclap_header\">Other degree</div>\
         <ul><li>Wrong<ul><li>Nope</li></ul></li></ul></div>\
         <div class=\"tx_dscclipclap\"><div class=\"tx_dscclipclap_header\">{}</div>\
         <div class=\"tx_dscclipclap_content\"><ul>{}</ul></div></div>\
         </body></html>",
        heading, list
    )
}

#[test]
fn details_with_an_empty_module() {
    let page = detail_page(
        "IT-Systems Engineering MA",
        "<li>Mod1<ul><li>CatA</li><li>CatB</li></ul></li><li>Mod2<ul></ul></li>",
    );
    let categories = parse_details(&page, "IT-Systems Engineering MA").unwrap().unwrap();
    assert_eq!(categories.len(), 1);
    assert_eq!(
        categories.get("Mod1").unwrap(),
        &vec!["CatA".to_string(), "CatB".to_string()]
    );
    assert!(!categories.contains_key("Mod2"));
    assert!(!categories.contains_key("CatA"));
}

#[test]
fn details_merge_modules_of_the_same_name() {
    let page = detail_page(
        "Data Engineering MA",
        "<li> A <ul><li>one</li></ul></li><li>B<ul><li>two</li></ul></li>\
         <li>A<ul><li>three</li><li>four</li></ul></li>",
    );
    let categories = parse_details(&page, "Data Engineering MA").unwrap().unwrap();
    assert_eq!(categories.len(), 2);
    let names: Vec<String> =
        categories.entries().iter().map(|module| module.name.clone()).collect();
    assert_eq!(names, vec!["A", "B"]);
    assert_eq!(
        categories.get("A").unwrap(),
        &vec!["one".to_string(), "three".to_string(), "four".to_string()]
    );
    assert_eq!(categories.get("B").unwrap(), &vec!["two".to_string()]);
}

#[test]
fn details_heading_matches_after_trimming_only() {
    let list = "<li>M<ul><li>c</li></ul></li>";
    let padded = detail_page(" \n Digital Health MA\t ", list);
    assert!(parse_details(&padded, "Digital Health MA").unwrap().is_some());
    let longer = detail_page("Digital Health MA (new)", list);
    assert!(parse_details(&longer, "Digital Health MA").unwrap().is_none());
    let other_case = detail_page("digital health ma", list);
    assert!(parse_details(&other_case, "Digital Health MA").unwrap().is_none());
    let inner_space = detail_page("Digital  Health MA", list);
    assert!(parse_details(&inner_space, "Digital Health MA").unwrap().is_none());
}

#[test]
fn details_without_the_block_have_no_categories() {
    let page = detail_page("Cybersecurity MA", "<li>M<ul><li>c</li></ul></li>");
    assert!(parse_details(&page, "IT-Systems Engineering BA").unwrap().is_none());
    assert!(parse_details("<html><body><p>nothing</p></body></html>", "Cybersecurity MA")
        .unwrap()
        .is_none());
    assert!(scrape_modules(&page, "IT-Systems Engineering BA").unwrap().is_none());
}

#[test]
fn details_block_without_modules_has_empty_categories() {
    let page = detail_page("Cybersecurity MA", "");
    let categories = parse_details(&page, "Cybersecurity MA").unwrap().unwrap();
    assert!(categories.is_empty());
}

#[test]
fn details_list_item_without_text_is_a_shape_error() {
    let page = detail_page("Cybersecurity MA", "<li><ul></ul></li>");
    assert_eq!(parse_details(&page, "Cybersecurity MA").unwrap_err(), ScrapeError::Shape);
}

#[test]
fn scrape_modules_gives_the_inner_markup_of_the_first_matching_block() {
    let page = "<div class=\"tx_dscclipclap\"><div class=\"tx_dscclipclap_header\">X</div><i>1</i></div>\
        <div class=\"tx_dscclipclap\"><div class=\"tx_dscclipclap_header\"> X </div><i>2</i></div>";
    let markup = scrape_modules(page, "X").unwrap().unwrap();
    assert_eq!(markup, "<div class=\"tx_dscclipclap_header\">X</div><i>1</i>");
}

#[test]
fn heading_matches_any_heading_of_the_block() {
    let headers = vec![
        element(&[], "<div></div>", ""),
        element(&["Other"], "<div>Other</div>", "Other"),
        element(&[" Wanted "], "<div> Wanted </div>", " Wanted "),
    ];
    assert!(heading_matches(&headers, "Wanted"));
    assert!(!heading_matches(&headers, " Wanted "));
    assert!(!heading_matches(&headers, "Want"));
    assert!(!heading_matches(&Vec::new(), "Wanted"));
}

#[test]
fn labels_come_from_the_items_in_order() {
    let items = vec![
        element(&[" CatA "], "<li> CatA </li>", " CatA "),
        element(&["CatB", "more"], "<li>CatB<b>more</b></li>", "CatB<b>more</b>"),
    ];
    assert_eq!(labels_from_items(&items).unwrap(), vec!["CatA", "CatB"]);
    let broken = vec![element(&["CatA"], "<li>CatA</li>", "CatA"), element(&[], "<li></li>", "")];
    assert_eq!(labels_from_items(&broken).unwrap_err(), ScrapeError::Shape);
}

#[test]
fn items_inside_a_module_are_no_modules() {
    let items = vec![
        element(
            &["Mod1", "CatA", "Deep"],
            "<li>Mod1<ul><li>CatA<ul><li>Deep</li></ul></li></ul></li>",
            "Mod1<ul><li>CatA<ul><li>Deep</li></ul></li></ul>",
        ),
        element(&["CatA", "Deep"], "<li>CatA<ul><li>Deep</li></ul></li>", "CatA<ul><li>Deep</li></ul>"),
        element(&["Deep"], "<li>Deep</li>", "Deep"),
        element(&["Mod2", "CatB"], "<li>Mod2<ul><li>CatB</li></ul></li>", "Mod2<ul><li>CatB</li></ul>"),
        element(&["CatB"], "<li>CatB</li>", "CatB"),
    ];
    let categories = categories_from_items(&items).unwrap();
    assert_eq!(categories.len(), 2);
    assert_eq!(
        categories.get("Mod1").unwrap(),
        &vec!["CatA".to_string(), "Deep".to_string()]
    );
    assert_eq!(categories.get("Mod2").unwrap(), &vec!["CatB".to_string()]);
    assert!(!categories.contains_key("CatA"));
}
