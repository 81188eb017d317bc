//! From pages to lecture records.
//!
//! A listing page names the lectures of a degree: every anchor of the class
//! `courselink` is one lecture. The detail page of a lecture files it under
//! modules and categories, in one block for each degree.
//!
//! The pages are handed in as text. What the HTML parser and the
//! regular-expression engine make of them is a named result (see
//! [`crate::markup`]); this file states and proves what the library makes of
//! those results.

use crate::entities::Categories;
use crate::entities::Lecture;
use crate::entities::LectureView;
use crate::entities::DegreeView;
use crate::entities::ModuleView;
use crate::entities::StaticDegree;
use crate::entities::PLACEHOLDER_URL;
use crate::markup::find_first;
use crate::markup::select_in_document;
use crate::markup::select_in_fragment;
use crate::markup::Element;
use crate::markup::ElementView;
use crate::text::same_text;
use crate::text::trim;
use vstd::prelude::*;

verus! {

/// Scheme and host that every lecture address starts with.
pub const SITE_ORIGIN: &'static str = "https://hpi.de";

/// Selector of the anchors of a listing page that stand for lectures.
pub const COURSE_LINK_SELECTOR: &'static str = "a.courselink";

/// Pattern of the path of a detail page inside the markup of an anchor.
pub const LINK_PATTERN: &'static str = "/studium.*\\.html";

/// Selector of the collapsible blocks of a detail page, one for each degree.
pub const MODULE_BLOCK_SELECTOR: &'static str = "div.tx_dscclipclap";

/// Selector of the heading of such a block, which holds the name of the degree.
pub const MODULE_HEADER_SELECTOR: &'static str = "div.tx_dscclipclap_header";

/// Selector of the list items of such a block.
pub const LIST_ITEM_SELECTOR: &'static str = "li";

/// Why a scrape gave no records.
#[derive(Clone, Copy, Debug, PartialEq, Eq, Structural)]
pub enum ScrapeError {
    /// A page could not be fetched.
    Network,
    /// A page was read, and what was looked for is not in it: an anchor
    /// without a link of the expected form or with a blank title, or a selector
    /// or pattern that was not accepted.
    Parse,
    /// A page was read, and an element is not built as expected: it has no
    /// text node where a text is required.
    Shape,
}

/// What `outcome` holds, as plain text.
pub open spec fn outcome_view<T: DeepView>(outcome: Result<T, ScrapeError>) -> Result<
    T::V,
    ScrapeError,
> {
    match outcome {
        Ok(value) => Ok(value.deep_view()),
        Err(error) => Err(error),
    }
}

/// `each` applied to the items in order: all the values, or the error of the
/// first item that has one.
pub open spec fn collected<A, B>(
    items: Seq<A>,
    each: spec_fn(A) -> Result<B, ScrapeError>,
) -> Result<Seq<B>, ScrapeError>
    decreases items.len(),
{
    if items.len() == 0 {
        Ok(Seq::empty())
    } else {
        match collected(items.drop_last(), each) {
            Err(error) => Err(error),
            Ok(before) => match each(items.last()) {
                Err(error) => Err(error),
                Ok(value) => Ok(before.push(value)),
            },
        }
    }
}

/// Where all items have a value, the values stand in the order of the items.
pub proof fn lemma_collected_in_order<A, B>(
    items: Seq<A>,
    each: spec_fn(A) -> Result<B, ScrapeError>,
)
    ensures
        collected(items, each) matches Ok(values) ==> {
            &&& values.len() == items.len()
            &&& forall|i: int| 0 <= i < items.len() ==> each(#[trigger] items[i]) == Ok::<
                B,
                ScrapeError,
            >(values[i])
        },
        collected(items, each) is Ok <==> forall|i: int|
            0 <= i < items.len() ==> each(#[trigger] items[i]) is Ok,
    decreases items.len(),
{
    if items.len() > 0 {
        let front = items.drop_last();
        lemma_collected_in_order(front, each);
        assert forall|i: int| 0 <= i < front.len() implies front[i] == items[i] by {}
        if collected(front, each) is Ok && each(items.last()) is Ok {
            let values = collected(items, each)->Ok_0;
            assert forall|i: int| 0 <= i < items.len() implies each(#[trigger] items[i]) == Ok::<
                B,
                ScrapeError,
            >(values[i]) by {
                if i < front.len() {
                    assert(front[i] == items[i]);
                }
            }
        } else if collected(front, each) is Ok {
            assert(each(items[items.len() - 1]) is Err);
        } else {
            let i = choose|i: int| 0 <= i < front.len() && !(each(#[trigger] front[i]) is Ok);
            assert(front[i] == items[i]);
        }
    }
}

/// The error of the first item without a value is the error of the whole.
pub proof fn lemma_collected_first_error<A, B>(
    items: Seq<A>,
    each: spec_fn(A) -> Result<B, ScrapeError>,
    k: int,
)
    requires
        0 <= k < items.len(),
        collected(items.take(k), each) is Ok,
        each(items[k]) is Err,
    ensures
        collected(items, each) == Err::<Seq<B>, ScrapeError>(each(items[k])->Err_0),
    decreases items.len(),
{
    let front = items.drop_last();
    if k == items.len() - 1 {
        assert(front =~= items.take(k));
    } else {
        assert(front.take(k) =~= items.take(k));
        lemma_collected_first_error(front, each, k);
    }
}

/// One more item with a value extends the values by it.
pub proof fn lemma_collected_step<A, B>(
    items: Seq<A>,
    each: spec_fn(A) -> Result<B, ScrapeError>,
    k: int,
)
    requires
        0 <= k < items.len(),
        collected(items.take(k), each) is Ok,
        each(items[k]) is Ok,
    ensures
        collected(items.take(k + 1), each) == Ok::<Seq<B>, ScrapeError>(
            collected(items.take(k), each)->Ok_0.push(each(items[k])->Ok_0),
        ),
{
    assert(items.take(k + 1).drop_last() =~= items.take(k));
}

/// The text of an element: its first text node without surrounding
/// whitespace. An element without a text node has none.
pub open spec fn cleaned(texts: Seq<Seq<char>>) -> Result<Seq<char>, ScrapeError> {
    if texts.len() == 0 {
        Err(ScrapeError::Shape)
    } else {
        Ok(crate::text::trimmed(texts[0]))
    }
}

/// The text of an element, from its text nodes.
pub fn clean(texts: &Vec<String>) -> (text: Result<String, ScrapeError>)
    ensures
        outcome_view(text) == cleaned(texts.deep_view()),
{
    if texts.len() == 0 {
        Err(ScrapeError::Shape)
    } else {
        Ok(trim(texts[0].as_str()))
    }
}

/// The lecture that an anchor of a listing page stands for, where `found` is
/// what the link pattern matches in the markup of the anchor.
pub open spec fn anchor_lecture(anchor: ElementView, found: Option<Seq<char>>) -> Result<
    LectureView,
    ScrapeError,
> {
    match cleaned(anchor.texts) {
        Err(error) => Err(error),
        Ok(title) => if title.len() == 0 {
            Err(ScrapeError::Parse)
        } else {
            match found {
                None => Err(ScrapeError::Parse),
                Some(path) => Ok(LectureView { title, url: SITE_ORIGIN@ + path, categories: None }),
            }
        },
    }
}

/// The lecture that `anchor` stands for: its text as the title, and the site
/// origin followed by the matched path `found` as the address.
pub fn lecture_from_anchor(anchor: &Element, found: Option<String>) -> (lecture: Result<
    Lecture,
    ScrapeError,
>)
    ensures
        outcome_view(lecture) == anchor_lecture(anchor@, found.deep_view()),
{
    let title = match clean(&anchor.texts) {
        Ok(title) => title,
        Err(error) => {
            return Err(error);
        },
    };
    if title.as_str().unicode_len() == 0 {
        return Err(ScrapeError::Parse);
    }
    match found {
        None => Err(ScrapeError::Parse),
        Some(path) => Ok(
            Lecture {
                title,
                url: String::from_str(SITE_ORIGIN).concat(path.as_str()),
                categories: None,
            },
        ),
    }
}

/// The lecture that an anchor stands for.
pub open spec fn entry_of(anchor: ElementView) -> Result<LectureView, ScrapeError> {
    match crate::markup::first_match(LINK_PATTERN@, anchor.html) {
        None => Err(ScrapeError::Parse),
        Some(found) => anchor_lecture(anchor, found),
    }
}

/// The lectures that the anchors stand for, in the order of the anchors.
pub open spec fn entries_of(anchors: Seq<ElementView>) -> Result<Seq<LectureView>, ScrapeError> {
    collected(anchors, |anchor: ElementView| entry_of(anchor))
}

/// The lectures of a listing page.
pub open spec fn listing(document: Seq<char>) -> Result<Seq<LectureView>, ScrapeError> {
    match crate::markup::document_selection(document, COURSE_LINK_SELECTOR@) {
        None => Err(ScrapeError::Parse),
        Some(anchors) => entries_of(anchors),
    }
}

/// Reads a listing page: one lecture for each course link, in the order of
/// the links, without categories. A page without course links has no
/// lectures. The first link that stands for no lecture fails the page.
pub fn parse_listing(document: &str) -> (lectures: Result<Vec<Lecture>, ScrapeError>)
    ensures
        outcome_view(lectures) == listing(document@),
{
    let anchors = match select_in_document(document, COURSE_LINK_SELECTOR) {
        Some(anchors) => anchors,
        None => {
            return Err(ScrapeError::Parse);
        },
    };
    let ghost each = |anchor: ElementView| entry_of(anchor);
    let mut lectures: Vec<Lecture> = Vec::new();
    let mut i: usize = 0;
    proof {
        assert(anchors.deep_view().take(0) =~= Seq::<ElementView>::empty());
        assert(lectures.deep_view() =~= Seq::<LectureView>::empty());
    }
    while i < anchors.len()
        invariant
            i <= anchors.len(),
            each == (|anchor: ElementView| entry_of(anchor)),
            crate::markup::document_selection(document@, COURSE_LINK_SELECTOR@) == Some(
                anchors.deep_view(),
            ),
            collected(anchors.deep_view().take(i as int), each) == Ok::<
                Seq<LectureView>,
                ScrapeError,
            >(lectures.deep_view()),
        decreases anchors.len() - i,
    {
        let anchor = &anchors[i];
        assert(anchors.deep_view()[i as int] == anchor@);
        let found = match find_first(LINK_PATTERN, anchor.html.as_str()) {
            Some(found) => found,
            None => {
                proof {
                    lemma_collected_first_error(anchors.deep_view(), each, i as int);
                }
                return Err(ScrapeError::Parse);
            },
        };
        match lecture_from_anchor(anchor, found) {
            Ok(lecture) => {
                proof {
                    lemma_collected_step(anchors.deep_view(), each, i as int);
                }
                let ghost before = lectures.deep_view();
                lectures.push(lecture);
                assert(lectures.deep_view() =~= before.push(lecture@));
            },
            Err(error) => {
                proof {
                    lemma_collected_first_error(anchors.deep_view(), each, i as int);
                }
                return Err(error);
            },
        }
        i = i + 1;
    }
    assert(anchors.deep_view().take(i as int) =~= anchors.deep_view());
    Ok(lectures)
}

/// Whether one of the headings `headers` of a block reads `degree_name`,
/// whitespace around the heading aside.
pub open spec fn names_degree(headers: Seq<ElementView>, degree_name: Seq<char>) -> bool {
    exists|i: int|
        0 <= i < headers.len() && cleaned((#[trigger] headers[i]).texts) == Ok::<
            Seq<char>,
            ScrapeError,
        >(degree_name)
}

/// Whether one of the headings of a block reads `degree_name`. A heading
/// without text reads nothing.
pub fn heading_matches(headers: &Vec<Element>, degree_name: &str) -> (matches: bool)
    ensures
        matches == names_degree(headers.deep_view(), degree_name@),
{
    let mut i: usize = 0;
    while i < headers.len()
        invariant
            i <= headers.len(),
            forall|k: int|
                0 <= k < i ==> cleaned((#[trigger] headers.deep_view()[k]).texts) != Ok::<
                    Seq<char>,
                    ScrapeError,
                >(degree_name@),
        decreases headers.len() - i,
    {
        assert(headers.deep_view()[i as int] == headers[i as int]@);
        match clean(&headers[i].texts) {
            Ok(heading) => {
                if same_text(heading.as_str(), degree_name) {
                    return true;
                }
            },
            Err(_) => {},
        }
        i = i + 1;
    }
    false
}

/// Whether `block` is the block of the degree named `degree_name`.
pub open spec fn block_names_degree(block: ElementView, degree_name: Seq<char>) -> Result<
    bool,
    ScrapeError,
> {
    match crate::markup::fragment_selection(block.inner_html, MODULE_HEADER_SELECTOR@) {
        None => Err(ScrapeError::Parse),
        Some(headers) => Ok(names_degree(headers, degree_name)),
    }
}

/// The inner markup of the first of `blocks` that is the block of the degree.
pub open spec fn module_block(blocks: Seq<ElementView>, degree_name: Seq<char>) -> Result<
    Option<Seq<char>>,
    ScrapeError,
>
    decreases blocks.len(),
{
    if blocks.len() == 0 {
        Ok(None)
    } else {
        match block_names_degree(blocks[0], degree_name) {
            Err(error) => Err(error),
            Ok(true) => Ok(Some(blocks[0].inner_html)),
            Ok(false) => module_block(blocks.drop_first(), degree_name),
        }
    }
}

/// The inner markup of the block of a detail page that belongs to the degree.
pub open spec fn modules_markup(document: Seq<char>, degree_name: Seq<char>) -> Result<
    Option<Seq<char>>,
    ScrapeError,
> {
    match crate::markup::document_selection(document, MODULE_BLOCK_SELECTOR@) {
        None => Err(ScrapeError::Parse),
        Some(blocks) => module_block(blocks, degree_name),
    }
}

/// Finds in a detail page the block whose heading reads `degree`, and gives
/// its inner markup; `None` where the page has no such block.
pub fn scrape_modules(document: &str, degree: &str) -> (markup: Result<
    Option<String>,
    ScrapeError,
>)
    ensures
        outcome_view(markup) == modules_markup(document@, degree@),
{
    let mut blocks = match select_in_document(document, MODULE_BLOCK_SELECTOR) {
        Some(blocks) => blocks,
        None => {
            return Err(ScrapeError::Parse);
        },
    };
    let ghost all = blocks.deep_view();
    let mut i: usize = 0;
    assert(all.skip(0) =~= all);
    while i < blocks.len()
        invariant
            i <= blocks.len(),
            blocks.deep_view() == all,
            crate::markup::document_selection(document@, MODULE_BLOCK_SELECTOR@) == Some(all),
            module_block(all.skip(i as int), degree@) == module_block(all, degree@),
        decreases blocks.len() - i,
    {
        let ghost rest = all.skip(i as int);
        assert(rest[0] == blocks[i as int]@);
        assert(rest.drop_first() =~= all.skip(i + 1));
        let headers = match select_in_fragment(
            blocks[i].inner_html.as_str(),
            MODULE_HEADER_SELECTOR,
        ) {
            Some(headers) => headers,
            None => {
                return Err(ScrapeError::Parse);
            },
        };
        if heading_matches(&headers, degree) {
            let block = blocks.swap_remove(i);
            return Ok(Some(block.inner_html));
        }
        i = i + 1;
    }
    Ok(None)
}

/// The labels that the items `nested` of a module stand for.
pub open spec fn labels_of(nested: Seq<ElementView>) -> Result<Seq<Seq<char>>, ScrapeError> {
    collected(nested, |item: ElementView| cleaned(item.texts))
}

/// The labels of a module, one from the text of each of its items.
pub fn labels_from_items(nested: &Vec<Element>) -> (labels: Result<Vec<String>, ScrapeError>)
    ensures
        outcome_view(labels) == labels_of(nested.deep_view()),
{
    let ghost each = |item: ElementView| cleaned(item.texts);
    let mut labels: Vec<String> = Vec::new();
    let mut i: usize = 0;
    proof {
        assert(nested.deep_view().take(0) =~= Seq::<ElementView>::empty());
        assert(labels.deep_view() =~= Seq::<Seq<char>>::empty());
    }
    while i < nested.len()
        invariant
            i <= nested.len(),
            each == (|item: ElementView| cleaned(item.texts)),
            collected(nested.deep_view().take(i as int), each) == Ok::<
                Seq<Seq<char>>,
                ScrapeError,
            >(labels.deep_view()),
        decreases nested.len() - i,
    {
        assert(nested.deep_view()[i as int] == nested[i as int]@);
        match clean(&nested[i].texts) {
            Ok(label) => {
                proof {
                    lemma_collected_step(nested.deep_view(), each, i as int);
                }
                let ghost before = labels.deep_view();
                labels.push(label);
                assert(labels.deep_view() =~= before.push(label@));
            },
            Err(error) => {
                proof {
                    lemma_collected_first_error(nested.deep_view(), each, i as int);
                }
                return Err(error);
            },
        }
        i = i + 1;
    }
    assert(nested.deep_view().take(i as int) =~= nested.deep_view());
    Ok(labels)
}

/// The module that a list item stands for: its text as the name, and the
/// items inside it as the labels.
pub open spec fn module_of(item: ElementView) -> Result<ModuleView, ScrapeError> {
    match cleaned(item.texts) {
        Err(error) => Err(error),
        Ok(name) => match crate::markup::fragment_selection(item.inner_html, LIST_ITEM_SELECTOR@) {
            None => Err(ScrapeError::Parse),
            Some(nested) => match labels_of(nested) {
                Err(error) => Err(error),
                Ok(labels) => Ok(ModuleView { name, categories: labels }),
            },
        },
    }
}

/// How many of the items after the first one of `items` lie inside it, where
/// it has `labels` labels.
pub open spec fn inside(items: Seq<ElementView>, labels: nat) -> int {
    if labels <= items.len() - 1 {
        labels as int
    } else {
        items.len() - 1
    }
}

/// The modules that the list items `items` of a block add to `so_far`.
///
/// The items come in document order, each followed by the items inside it. An
/// item on the top level is a module; the items inside it are its labels and
/// no modules of their own. A module without labels is left out; labels of a
/// module that was met before go behind those that it has.
pub open spec fn filed(items: Seq<ElementView>, so_far: Seq<ModuleView>) -> Result<
    Seq<ModuleView>,
    ScrapeError,
>
    decreases items.len(),
{
    if items.len() == 0 {
        Ok(so_far)
    } else {
        match module_of(items[0]) {
            Err(error) => Err(error),
            Ok(module) => filed(
                items.skip(1 + inside(items, module.categories.len())),
                if module.categories.len() == 0 {
                    so_far
                } else {
                    crate::entities::appended(so_far, module.name, module.categories)
                },
            ),
        }
    }
}

/// The categories that the list items of a block stand for.
pub open spec fn categories_of(items: Seq<ElementView>) -> Result<Seq<ModuleView>, ScrapeError> {
    filed(items, Seq::empty())
}

/// The categories that the list items of the block of a degree stand for.
pub fn categories_from_items(items: &Vec<Element>) -> (categories: Result<
    Categories,
    ScrapeError,
>)
    ensures
        outcome_view(categories) == categories_of(items.deep_view()),
{
    let ghost all = items.deep_view();
    let mut categories = Categories::new();
    let mut i: usize = 0;
    assert(all.skip(0) =~= all);
    while i < items.len()
        invariant
            i <= items.len(),
            items.deep_view() == all,
            filed(all.skip(i as int), categories@) == categories_of(all),
        decreases items.len() - i,
    {
        let ghost rest = all.skip(i as int);
        let item = &items[i];
        assert(rest[0] == item@);
        let name = match clean(&item.texts) {
            Ok(name) => name,
            Err(error) => {
                return Err(error);
            },
        };
        let nested = match select_in_fragment(item.inner_html.as_str(), LIST_ITEM_SELECTOR) {
            Some(nested) => nested,
            None => {
                return Err(ScrapeError::Parse);
            },
        };
        let labels = match labels_from_items(&nested) {
            Ok(labels) => labels,
            Err(error) => {
                return Err(error);
            },
        };
        let count: usize = labels.len();
        let left: usize = items.len() - 1 - i;
        let step: usize = if count <= left {
            count
        } else {
            left
        };
        assert(step == inside(rest, labels.deep_view().len()));
        assert(rest.skip(1 + step) =~= all.skip(i + 1 + step));
        if count > 0 {
            categories.append(name, labels);
        }
        i = i + 1 + step;
    }
    Ok(categories)
}

/// The categories of a lecture under a degree, from its detail page: absent
/// where the page has no block for the degree.
pub open spec fn page_categories(document: Seq<char>, degree_name: Seq<char>) -> Result<
    Option<Seq<ModuleView>>,
    ScrapeError,
> {
    match modules_markup(document, degree_name) {
        Err(error) => Err(error),
        Ok(None) => Ok(None),
        Ok(Some(markup)) => match crate::markup::fragment_selection(markup, LIST_ITEM_SELECTOR@) {
            None => Err(ScrapeError::Parse),
            Some(items) => match categories_of(items) {
                Err(error) => Err(error),
                Ok(categories) => Ok(Some(categories)),
            },
        },
    }
}

/// Reads the detail page of a lecture: the modules and labels in the block
/// whose heading reads `degree_name`, or `None` where there is no such block.
pub fn parse_details(document: &str, degree_name: &str) -> (categories: Result<
    Option<Categories>,
    ScrapeError,
>)
    ensures
        outcome_view(categories) == page_categories(document@, degree_name@),
{
    let markup = match scrape_modules(document, degree_name) {
        Ok(Some(markup)) => markup,
        Ok(None) => {
            return Ok(None);
        },
        Err(error) => {
            return Err(error);
        },
    };
    let items = match select_in_fragment(markup.as_str(), LIST_ITEM_SELECTOR) {
        Some(items) => items,
        None => {
            return Err(ScrapeError::Parse);
        },
    };
    match categories_from_items(&items) {
        Ok(categories) => Ok(Some(categories)),
        Err(error) => Err(error),
    }
}

/// The lectures of a listing page stand in the order of its course links:
/// there is one lecture for each link, and the lecture at a place is the one
/// that the link at that place stands for.
pub proof fn lemma_listing_in_document_order(document: Seq<char>)
    ensures
        listing(document) matches Ok(lectures) ==> {
            &&& crate::markup::document_selection(document, COURSE_LINK_SELECTOR@) matches Some(
                anchors,
            )
            &&& lectures.len() == anchors.len()
            &&& forall|i: int|
                0 <= i < anchors.len() ==> entry_of(#[trigger] anchors[i]) == Ok::<
                    LectureView,
                    ScrapeError,
                >(lectures[i])
        },
{
    match crate::markup::document_selection(document, COURSE_LINK_SELECTOR@) {
        Some(anchors) => {
            lemma_collected_in_order(anchors, |anchor: ElementView| entry_of(anchor));
        },
        None => {},
    }
}

/// A listing page without course links has no lectures, and is no failure.
pub proof fn lemma_listing_without_links(document: Seq<char>)
    requires
        crate::markup::document_selection(document, COURSE_LINK_SELECTOR@) == Some(
            Seq::<ElementView>::empty(),
        ),
    ensures
        listing(document) == Ok::<Seq<LectureView>, ScrapeError>(Seq::empty()),
{
}

/// Every lecture of a listing page has a title that is not empty and an
/// address that begins with the site origin, and no categories yet.
pub proof fn lemma_listing_entries(document: Seq<char>)
    ensures
        listing(document) matches Ok(lectures) ==> forall|i: int|
            0 <= i < lectures.len() ==> {
                &&& (#[trigger] lectures[i]).title.len() > 0
                &&& SITE_ORIGIN@.is_prefix_of(lectures[i].url)
                &&& lectures[i].categories is None
            },
{
    lemma_listing_in_document_order(document);
    match listing(document) {
        Ok(lectures) => {
            let anchors = crate::markup::document_selection(
                document,
                COURSE_LINK_SELECTOR@,
            )->Some_0;
            assert forall|i: int| 0 <= i < lectures.len() implies {
                &&& (#[trigger] lectures[i]).title.len() > 0
                &&& SITE_ORIGIN@.is_prefix_of(lectures[i].url)
                &&& lectures[i].categories is None
            } by {
                assert(entry_of(anchors[i]) == Ok::<LectureView, ScrapeError>(lectures[i]));
                let path = lectures[i].url.subrange(
                    SITE_ORIGIN@.len() as int,
                    lectures[i].url.len() as int,
                );
                assert(lectures[i].url =~= SITE_ORIGIN@ + path);
            }
        },
        Err(_) => {},
    }
}

/// Whether `text` is `name` with nothing but whitespace before and after it.
pub open spec fn is_padded(text: Seq<char>, name: Seq<char>) -> bool {
    exists|before: Seq<char>, after: Seq<char>|
        {
            &&& #[trigger] (before + name + after) == text
            &&& forall|k: int| 0 <= k < before.len() ==> crate::text::is_space(#[trigger] before[k])
            &&& forall|k: int| 0 <= k < after.len() ==> crate::text::is_space(#[trigger] after[k])
        }
}

/// A heading names the degree where its text is the name of the degree with
/// whitespace around it, and only there: a heading whose text differs from
/// the name in anything else does not. (A name that itself begins or ends
/// with whitespace is named by no heading.)
pub proof fn lemma_heading_match(headers: Seq<ElementView>, degree_name: Seq<char>)
    requires
        degree_name.len() > 0 ==> !crate::text::is_space(degree_name[0]) && !crate::text::is_space(
            degree_name.last(),
        ),
    ensures
        names_degree(headers, degree_name) <==> exists|k: int|
            0 <= k < headers.len() && (#[trigger] headers[k]).texts.len() > 0 && is_padded(
                headers[k].texts[0],
                degree_name,
            ),
{
    if names_degree(headers, degree_name) {
        let k = choose|k: int|
            0 <= k < headers.len() && cleaned((#[trigger] headers[k]).texts) == Ok::<
                Seq<char>,
                ScrapeError,
            >(degree_name);
        assert(headers[k].texts.len() > 0);
        let text = headers[k].texts[0];
        crate::text::lemma_trimmed_is_bare(text);
        let before = crate::text::trimmed_before(text);
        let after = crate::text::trimmed_after(text);
        assert(before + degree_name + after == text);
        assert(is_padded(text, degree_name));
    }
    if exists|k: int|
        0 <= k < headers.len() && (#[trigger] headers[k]).texts.len() > 0 && is_padded(
            headers[k].texts[0],
            degree_name,
        ) {
        let k = choose|k: int|
            0 <= k < headers.len() && (#[trigger] headers[k]).texts.len() > 0 && is_padded(
                headers[k].texts[0],
                degree_name,
            );
        let text = headers[k].texts[0];
        let (before, after) = choose|before: Seq<char>, after: Seq<char>|
            {
                &&& #[trigger] (before + degree_name + after) == text
                &&& forall|i: int|
                    0 <= i < before.len() ==> crate::text::is_space(#[trigger] before[i])
                &&& forall|i: int|
                    0 <= i < after.len() ==> crate::text::is_space(#[trigger] after[i])
            };
        crate::text::lemma_trim_padded(degree_name, before, after);
        assert(cleaned(headers[k].texts) == Ok::<Seq<char>, ScrapeError>(degree_name));
    }
}

/// Where no block of the page is the block of the degree, the first such
/// block is none.
pub proof fn lemma_no_block(blocks: Seq<ElementView>, degree_name: Seq<char>)
    requires
        forall|i: int|
            0 <= i < blocks.len() ==> block_names_degree(#[trigger] blocks[i], degree_name) == Ok::<
                bool,
                ScrapeError,
            >(false),
    ensures
        module_block(blocks, degree_name) == Ok::<Option<Seq<char>>, ScrapeError>(None),
    decreases blocks.len(),
{
    if blocks.len() > 0 {
        let rest = blocks.drop_first();
        assert forall|i: int| 0 <= i < rest.len() implies block_names_degree(
            #[trigger] rest[i],
            degree_name,
        ) == Ok::<bool, ScrapeError>(false) by {
            assert(rest[i] == blocks[i + 1]);
        }
        lemma_no_block(rest, degree_name);
    }
}

/// A detail page without a block for the degree gives the lecture no
/// categories: they are absent, not empty.
pub proof fn lemma_no_block_no_categories(document: Seq<char>, degree_name: Seq<char>)
    requires
        crate::markup::document_selection(document, MODULE_BLOCK_SELECTOR@) matches Some(blocks)
            && forall|i: int|
            0 <= i < blocks.len() ==> block_names_degree(#[trigger] blocks[i], degree_name) == Ok::<
                bool,
                ScrapeError,
            >(false),
    ensures
        page_categories(document, degree_name) == Ok::<Option<Seq<ModuleView>>, ScrapeError>(None),
{
    let blocks = crate::markup::document_selection(document, MODULE_BLOCK_SELECTOR@)->Some_0;
    lemma_no_block(blocks, degree_name);
}

/// Where the scrape of a degree stands.
#[derive(Clone, Copy, Debug, PartialEq, Eq, Structural)]
pub enum ScrapePhase {
    /// The listing page is wanted.
    Listing,
    /// The detail page of the lecture at this place is wanted.
    Detail(usize),
    /// No page is wanted any more.
    Finished,
}

/// The scrape of a degree, page by page.
///
/// Fetching pages is the caller's work. The session names the address of
/// the page that it wants, takes the page, and goes on: first the listing
/// page of the degree, then the detail page of each of its lectures, in
/// their order. A page that cannot be fetched or read ends the scrape with a
/// failure, and no lectures are handed out.
pub struct ScrapeSession {
    degree: StaticDegree,
    phase: ScrapePhase,
    lectures: Vec<Lecture>,
    failure: Option<ScrapeError>,
}

/// What a [`ScrapeSession`] holds, as plain values.
pub struct ScrapeView {
    pub degree: DegreeView,
    pub phase: ScrapePhase,
    pub lectures: Seq<LectureView>,
    pub failure: Option<ScrapeError>,
}

/// The phase in which the detail page of the lecture at place `i` of `count`
/// lectures is wanted; `Finished` behind the last lecture.
pub open spec fn detail_phase(i: int, count: nat) -> ScrapePhase {
    if 0 <= i < count {
        ScrapePhase::Detail(i as usize)
    } else {
        ScrapePhase::Finished
    }
}

/// `session` ended by `error`: nothing is wanted, and no lectures are kept.
pub open spec fn failed(session: ScrapeView, error: ScrapeError) -> ScrapeView {
    ScrapeView {
        phase: ScrapePhase::Finished,
        lectures: Seq::empty(),
        failure: Some(error),
        ..session
    }
}

/// The scrape of `degree` at its start. A degree without a listing page
/// fails at once, with the kind `Parse`, and no page is asked for.
pub open spec fn scrape_begun(degree: DegreeView) -> ScrapeView {
    let session = ScrapeView {
        degree,
        phase: ScrapePhase::Listing,
        lectures: Seq::empty(),
        failure: None,
    };
    if degree.url == PLACEHOLDER_URL@ {
        failed(session, ScrapeError::Parse)
    } else {
        session
    }
}

/// The address of the page that `session` wants.
pub open spec fn wanted(session: ScrapeView) -> Option<Seq<char>> {
    match session.phase {
        ScrapePhase::Listing => Some(session.degree.url),
        ScrapePhase::Detail(i) => Some(session.lectures[i as int].url),
        ScrapePhase::Finished => None,
    }
}

/// `lecture` with the categories `categories`.
pub open spec fn with_categories(
    lecture: LectureView,
    categories: Option<Seq<ModuleView>>,
) -> LectureView {
    LectureView { categories, ..lecture }
}

/// `session` after the page that it wanted came as `page`; `None` stands for
/// a page that could not be fetched. A session that wanted no page is as
/// before.
pub open spec fn after_page(session: ScrapeView, page: Option<Seq<char>>) -> ScrapeView {
    match session.phase {
        ScrapePhase::Finished => session,
        ScrapePhase::Listing => match page {
            None => failed(session, ScrapeError::Network),
            Some(text) => match listing(text) {
                Err(error) => failed(session, error),
                Ok(lectures) => ScrapeView {
                    lectures,
                    phase: detail_phase(0, lectures.len()),
                    ..session
                },
            },
        },
        ScrapePhase::Detail(i) => match page {
            None => failed(session, ScrapeError::Network),
            Some(text) => match page_categories(text, session.degree.name) {
                Err(error) => failed(session, error),
                Ok(categories) => ScrapeView {
                    lectures: session.lectures.update(
                        i as int,
                        with_categories(session.lectures[i as int], categories),
                    ),
                    phase: detail_phase(i + 1, session.lectures.len()),
                    ..session
                },
            },
        },
    }
}

/// What a finished `session` hands out.
pub open spec fn scrape_outcome(session: ScrapeView) -> Result<Seq<LectureView>, ScrapeError> {
    match session.failure {
        Some(error) => Err(error),
        None => Ok(session.lectures),
    }
}

impl View for ScrapeSession {
    type V = ScrapeView;

    closed spec fn view(&self) -> ScrapeView {
        ScrapeView {
            degree: self.degree@,
            phase: self.phase,
            lectures: self.lectures.deep_view(),
            failure: self.failure,
        }
    }
}

impl ScrapeSession {
    /// A detail page is wanted only for a lecture that there is.
    #[verifier::type_invariant]
    pub closed spec fn well_formed(&self) -> bool {
        self.phase matches ScrapePhase::Detail(i) ==> i < self.lectures.len()
    }

    /// The scrape of `degree`.
    pub fn begin(degree: &StaticDegree) -> (session: Self)
        ensures
            session@ == scrape_begun(degree@),
    {
        let placeholder = same_text(degree.url, PLACEHOLDER_URL);
        let session = ScrapeSession {
            degree: *degree,
            phase: if placeholder {
                ScrapePhase::Finished
            } else {
                ScrapePhase::Listing
            },
            lectures: Vec::new(),
            failure: if placeholder {
                Some(ScrapeError::Parse)
            } else {
                None
            },
        };
        assert(session.lectures.deep_view() =~= Seq::<LectureView>::empty());
        session
    }

    /// The address of the page to fetch next; `None` where the scrape is
    /// finished.
    pub fn request(&self) -> (address: Option<String>)
        ensures
            address.deep_view() == wanted(self@),
    {
        proof {
            use_type_invariant(self);
        }
        match self.phase {
            ScrapePhase::Listing => Some(String::from_str(self.degree.url)),
            ScrapePhase::Detail(i) => {
                assert(self.lectures.deep_view()[i as int] == self.lectures[i as int]@);
                Some(self.lectures[i].url.clone())
            },
            ScrapePhase::Finished => None,
        }
    }

    /// Takes the page that the session asked for; `None` stands for a page
    /// that could not be fetched.
    pub fn fetched(&mut self, page: Option<&str>)
        ensures
            final(self)@ == after_page(old(self)@, page.deep_view()),
    {
        proof {
            use_type_invariant(&*self);
        }
        match self.phase {
            ScrapePhase::Finished => {},
            ScrapePhase::Listing => {
                let parsed = match page {
                    Some(text) => parse_listing(text),
                    None => Err(ScrapeError::Network),
                };
                match parsed {
                    Ok(lectures) => {
                        let more = lectures.len() > 0;
                        self.lectures = lectures;
                        if more {
                            self.phase = ScrapePhase::Detail(0);
                        } else {
                            self.phase = ScrapePhase::Finished;
                        }
                    },
                    Err(error) => {
                        self.fail(error);
                    },
                }
            },
            ScrapePhase::Detail(i) => {
                let parsed = match page {
                    Some(text) => parse_details(text, self.degree.name),
                    None => Err(ScrapeError::Network),
                };
                match parsed {
                    Ok(categories) => {
                        let ghost before = self.lectures.deep_view();
                        let mut lectures: Vec<Lecture> = Vec::new();
                        self.phase = ScrapePhase::Finished;
                        std::mem::swap(&mut lectures, &mut self.lectures);
                        let lecture = Lecture {
                            title: lectures[i].title.clone(),
                            url: lectures[i].url.clone(),
                            categories,
                        };
                        assert(before[i as int] == lectures[i as int]@);
                        lectures.set(i, lecture);
                        assert(lectures.deep_view() =~= before.update(
                            i as int,
                            with_categories(before[i as int], categories.deep_view()),
                        ));
                        let more = i + 1 < lectures.len();
                        self.lectures = lectures;
                        if more {
                            self.phase = ScrapePhase::Detail(i + 1);
                        }
                    },
                    Err(error) => {
                        self.fail(error);
                    },
                }
            },
        }
    }

    fn fail(&mut self, error: ScrapeError)
        ensures
            final(self)@ == failed(old(self)@, error),
    {
        self.phase = ScrapePhase::Finished;
        self.lectures = Vec::new();
        self.failure = Some(error);
        assert(self.lectures.deep_view() =~= Seq::<LectureView>::empty());
    }

    /// The lectures of a finished scrape, or its failure. A scrape that is
    /// not finished hands out nothing.
    pub fn finish(self) -> (outcome: Option<Result<Vec<Lecture>, ScrapeError>>)
        ensures
            match outcome {
                Some(result) => self@.phase is Finished && outcome_view(result) == scrape_outcome(
                    self@,
                ),
                None => !(self@.phase is Finished),
            },
    {
        match self.phase {
            ScrapePhase::Finished => match self.failure {
                Some(error) => Some(Err(error)),
                None => Some(Ok(self.lectures)),
            },
            _ => None,
        }
    }
}

/// A scrape never hands out a part of the lectures: once a page fails, the
/// scrape is finished, wants no page, and its outcome is the failure,
/// whatever pages come after.
pub proof fn lemma_scrape_failure_is_final(
    session: ScrapeView,
    error: ScrapeError,
    page: Option<Seq<char>>,
)
    ensures
        wanted(failed(session, error)) is None,
        scrape_outcome(failed(session, error)) == Err::<Seq<LectureView>, ScrapeError>(error),
        after_page(failed(session, error), page) == failed(session, error),
        session.phase !is Finished ==> after_page(session, None) == failed(
            session,
            ScrapeError::Network,
        ),
{
}

/// A degree without a listing page is never fetched: its scrape fails at
/// once.
pub proof fn lemma_placeholder_is_not_fetched(degree: DegreeView)
    requires
        degree.url == PLACEHOLDER_URL@,
    ensures
        wanted(scrape_begun(degree)) is None,
        scrape_outcome(scrape_begun(degree)) is Err,
{
}

/// `session` after the pages `pages` came in, one after the other.
pub open spec fn after_pages(session: ScrapeView, pages: Seq<Option<Seq<char>>>) -> ScrapeView
    decreases pages.len(),
{
    if pages.len() == 0 {
        session
    } else {
        after_page(after_pages(session, pages.drop_last()), pages.last())
    }
}

/// `lecture` with the categories that its detail page `page` gives it under
/// the degree named `degree_name`; `None` stands for a page that could not be
/// fetched.
pub open spec fn detailed(
    lecture: LectureView,
    page: Option<Seq<char>>,
    degree_name: Seq<char>,
) -> Result<LectureView, ScrapeError> {
    match page {
        None => Err(ScrapeError::Network),
        Some(text) => match page_categories(text, degree_name) {
            Err(error) => Err(error),
            Ok(categories) => Ok(with_categories(lecture, categories)),
        },
    }
}

/// The lectures `lectures`, each with its detail page from `pages`.
pub open spec fn paired(lectures: Seq<LectureView>, pages: Seq<Option<Seq<char>>>) -> Seq<
    (LectureView, Option<Seq<char>>),
> {
    Seq::new(lectures.len(), |i: int| (lectures[i], pages[i]))
}

/// The lectures of a degree, from its listing page and the detail pages of
/// its lectures, which come in the order of the lectures: every lecture of
/// the listing with the categories of its detail page, or the failure of the
/// first page that has one.
pub open spec fn scraped_from(
    degree: DegreeView,
    listing_page: Option<Seq<char>>,
    detail_pages: Seq<Option<Seq<char>>>,
) -> Result<Seq<LectureView>, ScrapeError> {
    if degree.url == PLACEHOLDER_URL@ {
        Err(ScrapeError::Parse)
    } else {
        match listing_page {
            None => Err(ScrapeError::Network),
            Some(text) => match listing(text) {
                Err(error) => Err(error),
                Ok(lectures) => collected(
                    paired(lectures, detail_pages),
                    |pair: (LectureView, Option<Seq<char>>)| detailed(pair.0, pair.1, degree.name),
                ),
            },
        }
    }
}

/// A session that waits for detail pages, after the first `k` of them came:
/// the first `k` lectures are `done`, the others are as they were.
pub open spec fn midway(start: ScrapeView, done: Seq<LectureView>, k: int) -> ScrapeView {
    ScrapeView {
        lectures: Seq::new(
            start.lectures.len(),
            |i: int|
                if i < k {
                    done[i]
                } else {
                    start.lectures[i]
                },
        ),
        phase: detail_phase(k, start.lectures.len()),
        ..start
    }
}

/// Pages that come one after the other can be taken in two parts.
pub proof fn lemma_after_pages_in_parts(
    session: ScrapeView,
    first: Seq<Option<Seq<char>>>,
    second: Seq<Option<Seq<char>>>,
)
    ensures
        after_pages(session, first + second) == after_pages(after_pages(session, first), second),
    decreases second.len(),
{
    if second.len() == 0 {
        assert(first + second =~= first);
    } else {
        lemma_after_pages_in_parts(session, first, second.drop_last());
        assert((first + second).drop_last() =~= first + second.drop_last());
        assert((first + second).last() == second.last());
    }
}

/// A finished session is the same after any pages.
pub proof fn lemma_finished_stays(session: ScrapeView, pages: Seq<Option<Seq<char>>>)
    requires
        session.phase is Finished,
    ensures
        after_pages(session, pages) == session,
    decreases pages.len(),
{
    if pages.len() > 0 {
        lemma_finished_stays(session, pages.drop_last());
    }
}

/// The session that waits for the detail pages of its lectures, after the
/// first `k` of them came.
pub proof fn lemma_details_so_far(start: ScrapeView, pages: Seq<Option<Seq<char>>>, k: int)
    requires
        start.lectures.len() <= usize::MAX,
        start.phase == detail_phase(0, start.lectures.len()),
        start.failure is None,
        pages.len() == start.lectures.len(),
        0 <= k <= pages.len(),
    ensures
        ({
            let each = |pair: (LectureView, Option<Seq<char>>)|
                detailed(pair.0, pair.1, start.degree.name);
            match collected(paired(start.lectures, pages).take(k), each) {
                Ok(done) => done.len() == k && after_pages(start, pages.take(k)) == midway(
                    start,
                    done,
                    k,
                ),
                Err(error) => after_pages(start, pages.take(k)) == failed(start, error),
            }
        }),
    decreases k,
{
    let each = |pair: (LectureView, Option<Seq<char>>)| detailed(pair.0, pair.1, start.degree.name);
    let pairs = paired(start.lectures, pages);
    if k == 0 {
        assert(pairs.take(0) =~= Seq::empty());
        assert(pages.take(0) =~= Seq::empty());
        let done = Seq::<LectureView>::empty();
        assert(midway(start, done, 0).lectures =~= start.lectures);
    } else {
        lemma_details_so_far(start, pages, k - 1);
        assert(pairs.take(k).drop_last() =~= pairs.take(k - 1));
        assert(pairs.take(k).last() == pairs[k - 1]);
        assert(pages.take(k).drop_last() =~= pages.take(k - 1));
        assert(pages.take(k).last() == pages[k - 1]);
        let before = after_pages(start, pages.take(k - 1));
        assert(after_pages(start, pages.take(k)) == after_page(before, pages[k - 1]));
        match collected(pairs.take(k - 1), each) {
            Ok(done) => {
                assert(before == midway(start, done, k - 1));
                assert(before.phase == ScrapePhase::Detail((k - 1) as usize));
                assert(before.lectures[k - 1] == start.lectures[k - 1]);
                match each(pairs[k - 1]) {
                    Ok(lecture) => {
                        let more = done.push(lecture);
                        assert(after_page(before, pages[k - 1]).lectures =~= midway(
                            start,
                            more,
                            k,
                        ).lectures);
                    },
                    Err(error) => {},
                }
            },
            Err(error) => {},
        }
    }
}

/// The scrape of a degree, page by page, gives what its pages say: with the
/// listing page and then the detail page of each lecture of the listing, in
/// their order, the session is finished, and its outcome is every lecture of
/// the listing with the categories of its detail page, or the failure of the
/// first page that has one.
pub proof fn lemma_scrape_of_pages(
    degree: DegreeView,
    listing_page: Option<Seq<char>>,
    detail_pages: Seq<Option<Seq<char>>>,
)
    requires
        degree.url != PLACEHOLDER_URL@ && listing_page is Some && listing(listing_page->Some_0)
            is Ok ==> detail_pages.len() == listing(listing_page->Some_0)->Ok_0.len()
            && detail_pages.len() <= usize::MAX,
    ensures
        ({
            let end = after_pages(scrape_begun(degree), seq![listing_page] + detail_pages);
            &&& end.phase is Finished
            &&& scrape_outcome(end) == scraped_from(degree, listing_page, detail_pages)
        }),
{
    let begun = scrape_begun(degree);
    let first = seq![listing_page];
    lemma_after_pages_in_parts(begun, first, detail_pages);
    assert(first.drop_last() =~= Seq::empty());
    assert(after_pages(begun, first.drop_last()) == begun);
    assert(first.last() == listing_page);
    assert(after_pages(begun, first) == after_page(begun, listing_page));
    let start = after_page(begun, listing_page);
    if degree.url != PLACEHOLDER_URL@ && listing_page is Some && listing(listing_page->Some_0)
        is Ok {
        lemma_details_so_far(start, detail_pages, detail_pages.len() as int);
        assert(detail_pages.take(detail_pages.len() as int) =~= detail_pages);
        let pairs = paired(start.lectures, detail_pages);
        assert(pairs.take(detail_pages.len() as int) =~= pairs);
        let each = |pair: (LectureView, Option<Seq<char>>)|
            detailed(pair.0, pair.1, start.degree.name);
        match collected(pairs, each) {
            Ok(done) => {
                assert(midway(start, done, detail_pages.len() as int).lectures =~= done);
            },
            Err(error) => {},
        }
    } else {
        lemma_finished_stays(start, detail_pages);
    }
}

} // verus!
