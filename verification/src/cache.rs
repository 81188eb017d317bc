//! Lecture records as JSON.
//!
//! The lectures of a degree are cached as a JSON array of objects. Each
//! object has the members `title` and `url`, which are strings, and
//! `categories`, which is `null` or an object that maps module names to
//! arrays of strings. Members of other names are ignored on reading and never
//! written.

use crate::entities::Categories;
use crate::entities::Lecture;
use crate::entities::LectureView;
use crate::entities::Module;
use crate::entities::ModuleView;
use crate::json::Json;
use crate::json::JsonView;
use crate::json::Member;
use crate::json::MemberView;
use crate::text::same_text;
use vstd::prelude::*;

verus! {

pub const TITLE_MEMBER: &'static str = "title";

pub const URL_MEMBER: &'static str = "url";

pub const CATEGORIES_MEMBER: &'static str = "categories";

/// The array of strings that stands for `labels`.
pub open spec fn labels_json(labels: Seq<Seq<char>>) -> JsonView {
    JsonView::Array(Seq::new(labels.len(), |i: int| JsonView::Text(labels[i])))
}

/// The member that stands for `module`.
pub open spec fn module_json(module: ModuleView) -> MemberView {
    MemberView { name: module.name, value: labels_json(module.categories) }
}

/// The value that stands for the categories of a lecture.
pub open spec fn categories_json(categories: Option<Seq<ModuleView>>) -> JsonView {
    match categories {
        None => JsonView::Null,
        Some(modules) => JsonView::Object(
            Seq::new(modules.len(), |i: int| module_json(modules[i])),
        ),
    }
}

/// The object that stands for `lecture`.
pub open spec fn lecture_json(lecture: LectureView) -> JsonView {
    JsonView::Object(
        seq![
            MemberView { name: TITLE_MEMBER@, value: JsonView::Text(lecture.title) },
            MemberView { name: URL_MEMBER@, value: JsonView::Text(lecture.url) },
            MemberView { name: CATEGORIES_MEMBER@, value: categories_json(lecture.categories) },
        ],
    )
}

/// The array that stands for `lectures`.
pub open spec fn lectures_json(lectures: Seq<LectureView>) -> JsonView {
    JsonView::Array(Seq::new(lectures.len(), |i: int| lecture_json(lectures[i])))
}

/// The text that `value` is, where it is a string.
pub open spec fn text_in(value: JsonView) -> Option<Seq<char>> {
    match value {
        JsonView::Text(text) => Some(text),
        _ => None,
    }
}

/// The labels that `value` stands for: it is an array of strings.
pub open spec fn labels_in(value: JsonView) -> Option<Seq<Seq<char>>> {
    match value {
        JsonView::Array(items) => if forall|i: int|
            0 <= i < items.len() ==> text_in(#[trigger] items[i]) is Some {
            Some(Seq::new(items.len(), |i: int| text_in(items[i])->Some_0))
        } else {
            None
        },
        _ => None,
    }
}

/// The modules that the members of an object stand for: the value of each is
/// an array of strings.
pub open spec fn modules_in(members: Seq<MemberView>) -> Option<Seq<ModuleView>> {
    if forall|i: int| 0 <= i < members.len() ==> labels_in((#[trigger] members[i]).value) is Some {
        Some(
            Seq::new(
                members.len(),
                |i: int|
                    ModuleView {
                        name: members[i].name,
                        categories: labels_in(members[i].value)->Some_0,
                    },
            ),
        )
    } else {
        None
    }
}

/// The categories that `value` stands for: none where it is `null`, else it
/// is an object whose members stand for modules of different names.
pub open spec fn categories_in(value: JsonView) -> Option<Option<Seq<ModuleView>>> {
    match value {
        JsonView::Null => Some(None),
        JsonView::Object(members) => match modules_in(members) {
            Some(modules) => if crate::entities::distinct_names(modules) {
                Some(Some(modules))
            } else {
                None
            },
            None => None,
        },
        _ => None,
    }
}

/// Whether `i` is the place of the first of `members` that is named `name`.
pub open spec fn is_first_member(members: Seq<MemberView>, name: Seq<char>, i: int) -> bool {
    &&& 0 <= i < members.len()
    &&& members[i].name == name
    &&& forall|j: int| 0 <= j < i ==> (#[trigger] members[j]).name != name
}

/// The value of the first of `members` that is named `name`.
pub open spec fn member_value(members: Seq<MemberView>, name: Seq<char>) -> Option<JsonView> {
    if exists|i: int| is_first_member(members, name, i) {
        Some(members[choose|i: int| is_first_member(members, name, i)].value)
    } else {
        None
    }
}

/// The lecture that `value` stands for: it is an object with a string named
/// `title`, a string named `url` and, where it has a member named
/// `categories`, categories under it.
pub open spec fn lecture_in(value: JsonView) -> Option<LectureView> {
    match value {
        JsonView::Object(members) => {
            let title = match member_value(members, TITLE_MEMBER@) {
                Some(value) => text_in(value),
                None => None,
            };
            let url = match member_value(members, URL_MEMBER@) {
                Some(value) => text_in(value),
                None => None,
            };
            let categories = match member_value(members, CATEGORIES_MEMBER@) {
                Some(value) => categories_in(value),
                None => Some(None),
            };
            if title is Some && url is Some && categories is Some {
                Some(
                    LectureView {
                        title: title->Some_0,
                        url: url->Some_0,
                        categories: categories->Some_0,
                    },
                )
            } else {
                None
            }
        },
        _ => None,
    }
}

/// The lectures that `value` stands for: it is an array of lectures.
pub open spec fn lectures_in(value: JsonView) -> Option<Seq<LectureView>> {
    match value {
        JsonView::Array(items) => if forall|i: int|
            0 <= i < items.len() ==> lecture_in(#[trigger] items[i]) is Some {
            Some(Seq::new(items.len(), |i: int| lecture_in(items[i])->Some_0))
        } else {
            None
        },
        _ => None,
    }
}

/// The array of strings for `labels`.
pub fn labels_to_json(labels: &Vec<String>) -> (json: Json)
    ensures
        json@ == labels_json(labels.deep_view()),
{
    let mut items: Vec<Json> = Vec::new();
    let mut i: usize = 0;
    while i < labels.len()
        invariant
            i <= labels.len(),
            items.len() == i,
            forall|k: int| 0 <= k < i ==> (#[trigger] items@[k])@ == JsonView::Text(labels@[k]@),
        decreases labels.len() - i,
    {
        items.push(Json::Text(labels[i].clone()));
        i = i + 1;
    }
    proof {
        crate::json::lemma_array_view(items);
        assert(items.deep_view() =~= labels_json(labels.deep_view())->Array_0);
    }
    Json::Array(items)
}

/// The value for the categories of a lecture.
pub fn categories_to_json(categories: &Option<Categories>) -> (json: Json)
    ensures
        json@ == categories_json(categories.deep_view()),
{
    match categories {
        None => Json::Null,
        Some(categories) => {
            let modules = categories.entries();
            let mut members: Vec<Member> = Vec::new();
            let mut i: usize = 0;
            while i < modules.len()
                invariant
                    i <= modules.len(),
                    members.len() == i,
                    forall|k: int|
                        0 <= k < i ==> (#[trigger] members@[k])@ == module_json(modules@[k]@),
                decreases modules.len() - i,
            {
                members.push(
                    Member {
                        name: modules[i].name.clone(),
                        value: labels_to_json(&modules[i].categories),
                    },
                );
                i = i + 1;
            }
            proof {
                crate::json::lemma_object_view(members);
                assert(members.deep_view() =~= categories_json(Some(modules.deep_view()))->Object_0);
            }
            Json::Object(members)
        },
    }
}

/// The object for `lecture`.
pub fn lecture_to_json(lecture: &Lecture) -> (json: Json)
    ensures
        json@ == lecture_json(lecture@),
{
    let mut members: Vec<Member> = Vec::new();
    members.push(
        Member { name: String::from_str(TITLE_MEMBER), value: Json::Text(lecture.title.clone()) },
    );
    members.push(
        Member { name: String::from_str(URL_MEMBER), value: Json::Text(lecture.url.clone()) },
    );
    members.push(
        Member {
            name: String::from_str(CATEGORIES_MEMBER),
            value: categories_to_json(&lecture.categories),
        },
    );
    proof {
        crate::json::lemma_object_view(members);
        assert(members.deep_view() =~= lecture_json(lecture@)->Object_0);
    }
    Json::Object(members)
}

/// The array for `lectures`.
pub fn lectures_to_json(lectures: &[Lecture]) -> (json: Json)
    ensures
        json@ == lectures_json(lectures.deep_view()),
{
    let mut items: Vec<Json> = Vec::new();
    let mut i: usize = 0;
    while i < lectures.len()
        invariant
            i <= lectures.len(),
            items.len() == i,
            forall|k: int| 0 <= k < i ==> (#[trigger] items@[k])@ == lecture_json(lectures@[k]@),
        decreases lectures.len() - i,
    {
        items.push(lecture_to_json(&lectures[i]));
        i = i + 1;
    }
    proof {
        crate::json::lemma_array_view(items);
        assert(items.deep_view() =~= lectures_json(lectures.deep_view())->Array_0);
    }
    Json::Array(items)
}

/// The text that `value` is, where it is a string.
pub fn text_from_json(value: &Json) -> (text: Option<String>)
    ensures
        text.deep_view() == text_in(value@),
{
    match value {
        Json::Text(text) => Some(text.clone()),
        _ => None,
    }
}

/// The labels that `value` stands for.
pub fn labels_from_json(value: &Json) -> (labels: Option<Vec<String>>)
    ensures
        labels.deep_view() == labels_in(value@),
{
    match value {
        Json::Array(items) => {
            proof {
                crate::json::lemma_array_view(*items);
            }
            let mut labels: Vec<String> = Vec::new();
            let mut i: usize = 0;
            while i < items.len()
                invariant
                    i <= items.len(),
                    labels.len() == i,
                    value@ == JsonView::Array(items.deep_view()),
                    forall|k: int|
                        0 <= k < i ==> text_in(#[trigger] items.deep_view()[k]) == Some(
                            labels@[k]@,
                        ),
                decreases items.len() - i,
            {
                assert(items.deep_view()[i as int] == items[i as int]@);
                match text_from_json(&items[i]) {
                    Some(label) => {
                        labels.push(label);
                    },
                    None => {
                        return None;
                    },
                }
                i = i + 1;
            }
            assert(labels.deep_view() =~= labels_in(value@)->Some_0);
            Some(labels)
        },
        _ => None,
    }
}

/// The categories that `value` stands for.
pub fn categories_from_json(value: &Json) -> (categories: Option<Option<Categories>>)
    ensures
        categories.deep_view() == categories_in(value@),
{
    match value {
        Json::Null => Some(None),
        Json::Object(members) => {
            proof {
                crate::json::lemma_object_view(*members);
            }
            let mut modules: Vec<Module> = Vec::new();
            let mut i: usize = 0;
            while i < members.len()
                invariant
                    i <= members.len(),
                    modules.len() == i,
                    value@ == JsonView::Object(members.deep_view()),
                    forall|k: int|
                        0 <= k < i ==> labels_in((#[trigger] members.deep_view()[k]).value) == Some(
                            modules@[k].categories.deep_view(),
                        ) && members.deep_view()[k].name == modules@[k].name@,
                decreases members.len() - i,
            {
                assert(members.deep_view()[i as int] == members[i as int]@);
                match labels_from_json(&members[i].value) {
                    Some(labels) => {
                        modules.push(Module { name: members[i].name.clone(), categories: labels });
                    },
                    None => {
                        return None;
                    },
                }
                i = i + 1;
            }
            assert(modules.deep_view() =~= modules_in(members.deep_view())->Some_0);
            match Categories::from_entries(modules) {
                Some(categories) => Some(Some(categories)),
                None => None,
            }
        },
        _ => None,
    }
}

/// The first of `members` that is named `name`.
pub fn find_member<'a>(members: &'a Vec<Member>, name: &str) -> (value: Option<&'a Json>)
    ensures
        value.deep_view() == member_value(members.deep_view(), name@),
{
    let mut i: usize = 0;
    while i < members.len()
        invariant
            i <= members.len(),
            forall|k: int| 0 <= k < i ==> (#[trigger] members.deep_view()[k]).name != name@,
        decreases members.len() - i,
    {
        if same_text(members[i].name.as_str(), name) {
            proof {
                let views = members.deep_view();
                assert(is_first_member(views, name@, i as int));
                let chosen = choose|k: int| is_first_member(views, name@, k);
                assert(chosen == i) by {
                    if chosen < i {
                        assert(views[chosen].name != name@);
                    } else if i < chosen {
                        assert(views[i as int].name != name@);
                    }
                }
            }
            return Some(&members[i].value);
        }
        i = i + 1;
    }
    proof {
        let views = members.deep_view();
        assert forall|k: int| !is_first_member(views, name@, k) by {
            if 0 <= k < views.len() {
                assert(views[k].name != name@);
            }
        }
    }
    None
}

/// The lecture that `value` stands for.
pub fn lecture_from_json(value: &Json) -> (lecture: Option<Lecture>)
    ensures
        lecture.deep_view() == lecture_in(value@),
{
    match value {
        Json::Object(members) => {
            proof {
                crate::json::lemma_object_view(*members);
            }
            let title = match find_member(members, TITLE_MEMBER) {
                Some(value) => text_from_json(value),
                None => None,
            };
            let url = match find_member(members, URL_MEMBER) {
                Some(value) => text_from_json(value),
                None => None,
            };
            let categories = match find_member(members, CATEGORIES_MEMBER) {
                Some(value) => categories_from_json(value),
                None => Some(None),
            };
            match (title, url, categories) {
                (Some(title), Some(url), Some(categories)) => Some(
                    Lecture { title, url, categories },
                ),
                _ => None,
            }
        },
        _ => None,
    }
}

/// The lectures that `value` stands for.
pub fn lectures_from_json(value: &Json) -> (lectures: Option<Vec<Lecture>>)
    ensures
        lectures.deep_view() == lectures_in(value@),
{
    match value {
        Json::Array(items) => {
            proof {
                crate::json::lemma_array_view(*items);
            }
            let mut lectures: Vec<Lecture> = Vec::new();
            let mut i: usize = 0;
            while i < items.len()
                invariant
                    i <= items.len(),
                    lectures.len() == i,
                    value@ == JsonView::Array(items.deep_view()),
                    forall|k: int|
                        0 <= k < i ==> lecture_in(#[trigger] items.deep_view()[k]) == Some(
                            lectures@[k]@,
                        ),
                decreases items.len() - i,
            {
                assert(items.deep_view()[i as int] == items[i as int]@);
                match lecture_from_json(&items[i]) {
                    Some(lecture) => {
                        lectures.push(lecture);
                    },
                    None => {
                        return None;
                    },
                }
                i = i + 1;
            }
            assert(lectures.deep_view() =~= lectures_in(value@)->Some_0);
            Some(lectures)
        },
        _ => None,
    }
}

/// Labels that were written are read back.
pub proof fn lemma_labels_round_trip(labels: Seq<Seq<char>>)
    ensures
        labels_in(labels_json(labels)) == Some(labels),
{
    let items = labels_json(labels)->Array_0;
    assert forall|i: int| 0 <= i < items.len() implies text_in(#[trigger] items[i]) is Some by {}
    assert(labels_in(labels_json(labels))->Some_0 =~= labels);
}

/// Categories that were written are read back.
pub proof fn lemma_categories_round_trip(categories: Option<Seq<ModuleView>>)
    requires
        categories matches Some(modules) ==> crate::entities::distinct_names(modules),
    ensures
        categories_in(categories_json(categories)) == Some(categories),
{
    match categories {
        None => {},
        Some(modules) => {
            let members = categories_json(categories)->Object_0;
            assert forall|i: int| 0 <= i < members.len() implies labels_in(
                (#[trigger] members[i]).value,
            ) == Some(modules[i].categories) by {
                lemma_labels_round_trip(modules[i].categories);
            }
            assert(modules_in(members)->Some_0 =~= modules);
        },
    }
}

/// A lecture that was written is read back.
pub proof fn lemma_lecture_round_trip(lecture: LectureView)
    requires
        lecture.categories matches Some(modules) ==> crate::entities::distinct_names(modules),
    ensures
        lecture_in(lecture_json(lecture)) == Some(lecture),
{
    reveal_strlit("title");
    reveal_strlit("url");
    reveal_strlit("categories");
    let members = lecture_json(lecture)->Object_0;
    assert(TITLE_MEMBER@.len() == 5);
    assert(URL_MEMBER@.len() == 3);
    assert(CATEGORIES_MEMBER@.len() == 10);
    assert(is_first_member(members, TITLE_MEMBER@, 0));
    assert(is_first_member(members, URL_MEMBER@, 1));
    assert(is_first_member(members, CATEGORIES_MEMBER@, 2));
    assert forall|i: int| is_first_member(members, TITLE_MEMBER@, i) implies i == 0 by {}
    assert forall|i: int| is_first_member(members, URL_MEMBER@, i) implies i == 1 by {}
    assert forall|i: int| is_first_member(members, CATEGORIES_MEMBER@, i) implies i == 2 by {}
    lemma_categories_round_trip(lecture.categories);
}

/// What is written to the cache is what is read from it: lectures that were
/// turned into JSON are read back as they were, title by title, address by
/// address and label by label.
pub proof fn lemma_round_trip(lectures: Seq<LectureView>)
    requires
        forall|i: int|
            0 <= i < lectures.len() ==> ((#[trigger] lectures[i]).categories matches Some(modules)
                ==> crate::entities::distinct_names(modules)),
    ensures
        lectures_in(lectures_json(lectures)) == Some(lectures),
{
    let items = lectures_json(lectures)->Array_0;
    assert forall|i: int| 0 <= i < items.len() implies lecture_in(#[trigger] items[i]) == Some(
        lectures[i],
    ) by {
        lemma_lecture_round_trip(lectures[i]);
    }
    assert(lectures_in(lectures_json(lectures))->Some_0 =~= lectures);
}

/// Members that the library does not know are ignored: a lecture is read
/// the same with a member of another name in front of the others.
pub proof fn lemma_unknown_member_is_ignored(members: Seq<MemberView>, unknown: MemberView)
    requires
        unknown.name != TITLE_MEMBER@,
        unknown.name != URL_MEMBER@,
        unknown.name != CATEGORIES_MEMBER@,
    ensures
        lecture_in(JsonView::Object(seq![unknown] + members)) == lecture_in(
            JsonView::Object(members),
        ),
{
    let longer = seq![unknown] + members;
    assert forall|name: Seq<char>| name != unknown.name implies member_value(longer, name)
        == member_value(members, name) by {
        assert forall|i: int| is_first_member(members, name, i) == is_first_member(
            longer,
            name,
            i + 1,
        ) by {
            if is_first_member(members, name, i) {
                assert forall|j: int| 0 <= j < i + 1 implies (#[trigger] longer[j]).name
                    != name by {
                    if j > 0 {
                        assert(longer[j] == members[j - 1]);
                    }
                }
                assert(longer[i + 1] == members[i]);
            }
            if is_first_member(longer, name, i + 1) {
                assert(longer[i + 1] == members[i]);
                assert forall|j: int| 0 <= j < i implies (#[trigger] members[j]).name != name by {
                    assert(longer[j + 1] == members[j]);
                }
            }
        }
        assert(!is_first_member(longer, name, 0));
        if exists|i: int| is_first_member(members, name, i) {
            let i = choose|i: int| is_first_member(members, name, i);
            assert(is_first_member(longer, name, i + 1));
            let k = choose|k: int| is_first_member(longer, name, k);
            assert(k == i + 1) by {
                if k < i + 1 {
                    assert(longer[k].name != name);
                } else if k > i + 1 {
                    assert(longer[i + 1].name != name);
                }
            }
            assert(longer[k] == members[i]);
        } else {
            assert forall|k: int| !is_first_member(longer, name, k) by {
                if is_first_member(longer, name, k) {
                    assert(k != 0);
                    assert(is_first_member(members, name, k - 1) == is_first_member(
                        longer,
                        name,
                        (k - 1) + 1,
                    ));
                }
            }
        }
    }
}

/// A list of lectures as JSON is four levels deep: the list, a lecture, its
/// categories, and the labels of a module.
pub proof fn lemma_lectures_json_is_shallow(lectures: Seq<LectureView>)
    ensures
        crate::json::nested_within(lectures_json(lectures), 4),
{
    let items = lectures_json(lectures)->Array_0;
    assert forall|i: int| 0 <= i < items.len() implies crate::json::nested_within(
        #[trigger] items[i],
        3,
    ) by {
        let members = items[i]->Object_0;
        assert forall|j: int| 0 <= j < members.len() implies crate::json::nested_within(
            (#[trigger] members[j]).value,
            2,
        ) by {
            match members[j].value {
                JsonView::Object(modules) => {
                    assert forall|k: int| 0 <= k < modules.len() implies crate::json::nested_within(
                        (#[trigger] modules[k]).value,
                        1,
                    ) by {
                        let labels = modules[k].value->Array_0;
                        assert forall|l: int| 0 <= l < labels.len() implies crate::json::nested_within(
                            #[trigger] labels[l],
                            0,
                        ) by {}
                    }
                },
                _ => {},
            }
        }
    }
}

} // verus!
