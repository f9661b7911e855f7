//! JSON values, and the identifiers that notebook cells carry in them.

use vstd::prelude::*;

use crate::document::{is_json_of_notebook, is_text_of_notebook, lists_cells, regular};
use crate::id_map::{
    distinct_keys, entries_map, has_key, key_index, lemma_entry, lemma_pushed, lemma_replaced,
};
use crate::notebook::StoredNotebookView;
use crate::text::{blank, opt_text, texts};

verus! {

/// A number of `serde_json`, carried as it is.
#[verifier::external_type_specification]
#[verifier::external_body]
pub struct ExNumber(serde_json::Number);

/// A value of `serde_json`.
#[verifier::external_type_specification]
#[verifier::external_body]
pub struct ExValue(serde_json::Value);

/// What `serde_json` reports when it cannot read or write a value.
#[verifier::external_type_specification]
#[verifier::external_body]
pub struct ExJsonError(serde_json::Error);

/// A JSON value. The members of an object stand in any order.
pub enum Json {
    Null,
    Bool(bool),
    Number(serde_json::Number),
    String(String),
    Array(Vec<Json>),
    Object(Vec<(String, Json)>),
}

/// What a JSON value stands for.
#[verifier::ext_equal]
pub enum JsonView {
    Null,
    Bool(bool),
    Number(serde_json::Number),
    String(Seq<char>),
    Array(Seq<JsonView>),
    Object(Map<Seq<char>, JsonView>),
}

impl View for Json {
    type V = JsonView;

    open spec fn view(&self) -> JsonView
        decreases self,
    {
        match self {
            Json::Null => JsonView::Null,
            Json::Bool(b) => JsonView::Bool(*b),
            Json::Number(n) => JsonView::Number(*n),
            Json::String(s) => JsonView::String(s@),
            Json::Array(items) => JsonView::Array(
                Seq::new(
                    items@.len(),
                    |i: int|
                        if 0 <= i < items@.len() {
                            items@[i].view()
                        } else {
                            JsonView::Null
                        },
                ),
            ),
            Json::Object(members) => JsonView::Object(
                Map::new(
                    |key: Seq<char>| has_key(members@, key),
                    |key: Seq<char>|
                        {
                            let i = key_index(members@, key);
                            if 0 <= i < members@.len() {
                                members@[i].1.view()
                            } else {
                                JsonView::Null
                            }
                        },
                ),
            ),
        }
    }
}

impl Json {
    /// No object has two members of one name.
    pub open spec fn wf(&self) -> bool
        decreases self,
    {
        match self {
            Json::Array(items) => forall|i: int|
                0 <= i < items@.len() ==> (#[trigger] items@[i]).wf(),
            Json::Object(members) => {
                &&& distinct_keys(members@)
                &&& forall|i: int| 0 <= i < members@.len() ==> (#[trigger] members@[i]).1.wf()
            },
            _ => true,
        }
    }
}

/// An object is the map of its members.
proof fn lemma_object(members: Vec<(String, Json)>)
    ensures
        Json::Object(members)@ == JsonView::Object(entries_map(members@)),
{
    let left = Json::Object(members)@->Object_0;
    let right = entries_map(members@);
    assert forall|key: Seq<char>| left.contains_key(key) implies left[key] == right[key] by {
        assert(has_key(members@, key));
    }
    assert(left =~= right);
}

/// What a value of `serde_json` holds.
pub uninterp spec fn json_contents(value: serde_json::Value) -> JsonView;

/// The integer that a number of `serde_json` holds. One with a fraction or an exponent holds none,
/// nor does one that 64 bits have no room for.
pub uninterp spec fn integer_of(number: serde_json::Number) -> Option<int>;

/// What the members of a hash map say under `key`, if they have it.
pub open spec fn additional_member(
    additional: Map<String, serde_json::Value>,
    key: Seq<char>,
) -> Option<JsonView> {
    if exists|name: String| additional.contains_key(name) && #[trigger] name@ == key {
        let name = choose|name: String| additional.contains_key(name) && #[trigger] name@ == key;
        Some(json_contents(additional[name]))
    } else {
        None
    }
}

/// Arrays and objects are nested in one another at most `depth` times.
pub open spec fn nests_within(json: JsonView, depth: nat) -> bool
    decreases depth,
{
    match json {
        JsonView::Array(items) => depth > 0 && forall|i: int|
            0 <= i < items.len() ==> nests_within(#[trigger] items[i], (depth - 1) as nat),
        JsonView::Object(members) => depth > 0 && forall|key: Seq<char>| #[trigger]
            members.contains_key(key) ==> nests_within(members[key], (depth - 1) as nat),
        _ => true,
    }
}

/// Down to the given depth, two values differ in nothing but numbers that are no integers.
pub open spec fn alike_within(a: JsonView, b: JsonView, depth: nat) -> bool
    decreases depth,
{
    match (a, b) {
        (JsonView::Number(number), JsonView::Number(other)) => integer_of(number) == integer_of(
            other,
        ),
        (JsonView::Array(items), JsonView::Array(others)) => {
            &&& items.len() == others.len()
            &&& depth > 0 ==> forall|i: int|
                0 <= i < items.len() ==> alike_within(
                    #[trigger] items[i],
                    others[i],
                    (depth - 1) as nat,
                )
        },
        (JsonView::Object(members), JsonView::Object(others)) => {
            &&& members.dom() == others.dom()
            &&& depth > 0 ==> forall|key: Seq<char>| #[trigger]
                members.contains_key(key) ==> alike_within(
                    members[key],
                    others[key],
                    (depth - 1) as nat,
                )
        },
        _ => a == b,
    }
}

/// Two values differ in nothing but numbers that are no integers: such a one may come back from a
/// text with another last digit.
pub open spec fn alike(a: JsonView, b: JsonView) -> bool {
    forall|depth: nat| #[trigger] alike_within(a, b, depth)
}

/// Two optional values are both missing, or differ in nothing but numbers that are no integers.
pub open spec fn alike_options(a: Option<JsonView>, b: Option<JsonView>) -> bool {
    match (a, b) {
        (Some(json), Some(other)) => alike(json, other),
        (None, None) => true,
        _ => false,
    }
}

/// The members of two hash maps differ in nothing but numbers that are no integers.
pub open spec fn alike_members(
    a: Map<String, serde_json::Value>,
    b: Map<String, serde_json::Value>,
) -> bool {
    forall|key: Seq<char>|
        alike_options(#[trigger] additional_member(a, key), additional_member(b, key))
}

/// What `serde_json::from_str` reads from a text, or what it reports of one that is no JSON.
pub uninterp spec fn json_of_text(text: Seq<char>) -> Result<JsonView, serde_json::Error>;

/// What `serde_json::to_string` writes for a value, or what it reports of one that it cannot write.
pub uninterp spec fn text_of_json(json: JsonView) -> Result<Seq<char>, serde_json::Error>;

/// Whether `text` is what `serde_json::to_string` writes for a value.
pub open spec fn is_text_of_json(json: JsonView, text: Seq<char>) -> bool {
    text_of_json(json) == Ok::<Seq<char>, serde_json::Error>(text)
}

/// Calls `serde_json::from_str`. Which texts it takes for JSON, what it reads from them and what it
/// reports of the others is taken to depend on the text alone. A text of white space is no JSON.
/// What it reads from a text that was written for a notebook
/// lists the cells of the notebook, each with its identifier; and it does read such a text where
/// the notebook is regular, as its JSON is then nested no deeper than the crate reads.
#[verifier::external_body]
pub(crate) fn parse_json(text: &str) -> (result: Result<serde_json::Value, serde_json::Error>)
    ensures
        result is Ok <==> json_of_text(text@) is Ok,
        result is Ok ==> json_of_text(text@)->Ok_0 == json_contents(result->Ok_0),
        result is Err ==> json_of_text(text@)->Err_0 == result->Err_0,
        blank(text@) ==> result is Err,
        result is Err ==> forall|notebook: StoredNotebookView| #[trigger]
            is_text_of_notebook(notebook, text@) ==> !regular(notebook),
        result is Ok ==> forall|notebook: StoredNotebookView| #[trigger]
            is_text_of_notebook(notebook, text@) ==> {
                &&& is_json_of_notebook(notebook, json_contents(result->Ok_0))
                &&& lists_cells(notebook, json_contents(result->Ok_0))
            },
{
    serde_json::from_str(text)
}

/// Takes a `serde_json::Value` apart, variant by variant. A `serde_json::Map` names no member
/// twice, so neither does any object that comes out.
#[verifier::external_body]
pub(crate) fn json_from_value(value: serde_json::Value) -> (json: Json)
    ensures
        json@ == json_contents(value),
        json.wf(),
{
    match value {
        serde_json::Value::Null => Json::Null,
        serde_json::Value::Bool(b) => Json::Bool(b),
        serde_json::Value::Number(n) => Json::Number(n),
        serde_json::Value::String(s) => Json::String(s),
        serde_json::Value::Array(items) => Json::Array(
            items.into_iter().map(json_from_value).collect(),
        ),
        serde_json::Value::Object(members) => Json::Object(
            members.into_iter().map(|(name, value)| (name, json_from_value(value))).collect(),
        ),
    }
}

/// Puts a `serde_json::Value` together, variant by variant. No member is lost, since no object
/// that goes in names one twice.
#[verifier::external_body]
pub(crate) fn json_into_value(json: Json) -> (value: serde_json::Value)
    requires
        json.wf(),
    ensures
        json_contents(value) == json@,
{
    match json {
        Json::Null => serde_json::Value::Null,
        Json::Bool(b) => serde_json::Value::Bool(b),
        Json::Number(n) => serde_json::Value::Number(n),
        Json::String(s) => serde_json::Value::String(s),
        Json::Array(items) => serde_json::Value::Array(
            items.into_iter().map(json_into_value).collect(),
        ),
        Json::Object(members) => serde_json::Value::Object(
            members.into_iter().map(|(name, json)| (name, json_into_value(json))).collect(),
        ),
    }
}

/// Calls `serde_json::to_string`. The text, or what is reported in its place, is taken to depend on
/// what the value holds alone; what it is, is not stated. There is one where the value was read
/// from a text of a notebook.
#[verifier::external_body]
pub(crate) fn write_json(value: &serde_json::Value) -> (result: Result<String, serde_json::Error>)
    ensures
        result is Ok <==> text_of_json(json_contents(*value)) is Ok,
        result is Ok ==> text_of_json(json_contents(*value))->Ok_0 == result->Ok_0@,
        result is Err ==> text_of_json(json_contents(*value))->Err_0 == result->Err_0,
        result is Err ==> forall|notebook: StoredNotebookView|
            !is_json_of_notebook(notebook, json_contents(*value)),
{
    serde_json::to_string(value)
}

/// The cells of a notebook document: what its member `cells` lists, if that is an array.
pub open spec fn document_cells(json: JsonView) -> Option<Seq<JsonView>> {
    match json {
        JsonView::Object(members) => if members.contains_key("cells"@) {
            match members["cells"@] {
                JsonView::Array(items) => Some(items),
                _ => None,
            }
        } else {
            None
        },
        _ => None,
    }
}

/// A value that can be given a member: an object, or a null that becomes one.
pub open spec fn takes_members(json: JsonView) -> bool {
    json is Object || json is Null
}

/// Every cell of the document can be given a member.
pub open spec fn cells_take_ids(json: JsonView) -> bool {
    document_cells(json) matches Some(cells) ==> forall|i: int|
        0 <= i < cells.len() ==> takes_members(#[trigger] cells[i])
}

/// Whether a cell has an identifier.
pub open spec fn has_id(cell: JsonView) -> bool {
    cell matches JsonView::Object(members) && members.contains_key("id"@)
}

/// A cell with the identifier `id`, unless it has one already.
pub open spec fn with_id(cell: JsonView, id: Seq<char>) -> JsonView {
    match cell {
        JsonView::Object(members) => if members.contains_key("id"@) {
            cell
        } else {
            JsonView::Object(members.insert("id"@, JsonView::String(id)))
        },
        JsonView::Null => JsonView::Object(Map::empty().insert("id"@, JsonView::String(id))),
        _ => cell,
    }
}

/// How many of the cells have no identifier.
pub open spec fn lacking(cells: Seq<JsonView>) -> nat
    decreases cells.len(),
{
    if cells.len() == 0 {
        0
    } else if has_id(cells.last()) {
        lacking(cells.drop_last())
    } else {
        lacking(cells.drop_last()) + 1
    }
}

/// How many cells of the document have no identifier.
pub open spec fn missing(json: JsonView) -> nat {
    match document_cells(json) {
        Some(cells) => lacking(cells),
        None => 0,
    }
}

/// A document in which `ids` have gone to the cells without an identifier, one to each in their
/// order.
pub open spec fn with_cell_ids(json: JsonView, ids: Seq<Seq<char>>) -> JsonView {
    match document_cells(json) {
        Some(cells) => JsonView::Object(
            json->Object_0.insert(
                "cells"@,
                JsonView::Array(
                    Seq::new(
                        cells.len(),
                        |i: int| with_id(cells[i], ids[lacking(cells.take(i)) as int]),
                    ),
                ),
            ),
        ),
        None => json,
    }
}

/// The position of the member of the name `name`, if there is one.
fn member_position(members: &Vec<(String, Json)>, name: &str) -> (position: Option<usize>)
    requires
        distinct_keys(members@),
    ensures
        match position {
            Some(i) => i < members@.len() && members@[i as int].0@ == name@ && entries_map(
                members@,
            ).contains_key(name@) && entries_map(members@)[name@] == members@[i as int].1@,
            None => !entries_map(members@).contains_key(name@),
        },
{
    let key: String = name.to_string();
    let mut i: usize = 0;
    while i < members.len()
        invariant
            0 <= i <= members@.len(),
            distinct_keys(members@),
            key@ == name@,
            forall|j: int| 0 <= j < i ==> (#[trigger] members@[j]).0@ != name@,
        decreases members@.len() - i,
    {
        if members[i].0 == key {
            proof {
                lemma_entry(members@, i as int);
            }
            return Some(i);
        }
        i += 1;
    }
    None
}

/// The text that an object has under `key`, if it has one there.
pub open spec fn member_text(json: JsonView, key: Seq<char>) -> Option<Seq<char>> {
    match json {
        JsonView::Object(members) => if members.contains_key(key) {
            match members[key] {
                JsonView::String(text) => Some(text),
                _ => None,
            }
        } else {
            None
        },
        _ => None,
    }
}

/// The text that an object has under `key`, if it has one there.
pub(crate) fn text_member(json: &Json, key: &str) -> (text: Option<String>)
    requires
        json.wf(),
    ensures
        opt_text(text) == member_text(json@, key@),
{
    match json {
        Json::Object(members) => {
            proof {
                lemma_object(*members);
            }
            match member_position(members, key) {
                Some(i) => match &members[i].1 {
                    Json::String(text) => Some(text.clone()),
                    _ => None,
                },
                None => None,
            }
        },
        _ => None,
    }
}

/// `members` with one more, of a name that they do not have yet.
fn with_member(members: Vec<(String, Json)>, name: &str, json: Json) -> (result: Vec<
    (String, Json),
>)
    requires
        Json::Object(members).wf(),
        json.wf(),
        !entries_map(members@).contains_key(name@),
    ensures
        Json::Object(result).wf(),
        entries_map(result@) == entries_map(members@).insert(name@, json@),
{
    let mut result = members;
    let key: String = name.to_string();
    proof {
        let pushed = members@.push((key, json));
        assert forall|i: int, j: int| 0 <= i < j < pushed.len() implies (#[trigger] pushed[i]).0@
            != (#[trigger] pushed[j]).0@ by {
            if j == members@.len() {
                if members@[i].0@ == key@ {
                    lemma_entry(members@, i);
                }
            } else {
                assert(members@[i].0@ != members@[j].0@);
            }
        }
        lemma_pushed(members@, (key, json));
        assert forall|i: int| 0 <= i < pushed.len() implies (#[trigger] pushed[i]).1.wf() by {
            if i < members@.len() {
                assert(members@[i].1.wf());
            }
        }
    }
    result.push((key, json));
    result
}

/// `cell` with the identifier `id`, unless it has one already.
fn give_id(cell: Json, id: &String) -> (result: Json)
    requires
        cell.wf(),
    ensures
        result.wf(),
        result@ == with_id(cell@, id@),
{
    match cell {
        Json::Object(members) => {
            proof {
                lemma_object(members);
            }
            let mut members = members;
            if member_position(&members, "id").is_none() {
                members = with_member(members, "id", Json::String(id.clone()));
                proof {
                    lemma_object(members);
                }
            }
            Json::Object(members)
        },
        Json::Null => {
            let none: Vec<(String, Json)> = Vec::new();
            assert(entries_map(none@) =~= Map::<Seq<char>, JsonView>::empty());
            let members = with_member(none, "id", Json::String(id.clone()));
            proof {
                lemma_object(members);
            }
            Json::Object(members)
        },
        other => other,
    }
}

/// What each of `items` stands for.
pub open spec fn json_views(items: Seq<Json>) -> Seq<JsonView> {
    items.map_values(|item: Json| item@)
}

/// An array is the sequence of its items.
proof fn lemma_array(items: Vec<Json>)
    ensures
        Json::Array(items)@ == JsonView::Array(json_views(items@)),
{
    assert(Json::Array(items)@->Array_0 =~= json_views(items@));
}

/// Among more cells at least as many have no identifier.
pub proof fn lemma_lacking_grows(cells: Seq<JsonView>, i: int)
    requires
        0 <= i < cells.len(),
    ensures
        lacking(cells.take(i + 1)) == lacking(cells.take(i)) + if has_id(cells[i]) {
            0nat
        } else {
            1nat
        },
        lacking(cells.take(i + 1)) <= lacking(cells),
    decreases cells.len() - i,
{
    assert(cells.take(i + 1).drop_last() =~= cells.take(i));
    if i + 1 < cells.len() {
        lemma_lacking_grows(cells, i + 1);
    } else {
        assert(cells.take(i + 1) =~= cells);
    }
}

/// Whether a cell has an identifier.
fn holds_id(cell: &Json) -> (holds: bool)
    requires
        cell.wf(),
    ensures
        holds == has_id(cell@),
{
    match cell {
        Json::Object(members) => {
            proof {
                lemma_object(*members);
            }
            member_position(members, "id").is_some()
        },
        _ => false,
    }
}

/// How many cells of the document have no identifier.
pub fn missing_ids(json: &Json) -> (count: usize)
    requires
        json.wf(),
    ensures
        count == missing(json@),
{
    match json {
        Json::Object(members) => {
            proof {
                lemma_object(*members);
            }
            match member_position(members, "cells") {
                Some(i) => match &members[i].1 {
                    Json::Array(items) => {
                        let ghost cells = json_views(items@);
                        proof {
                            lemma_array(*items);
                            assert(members@[i as int].1.wf());
                        }
                        let mut count: usize = 0;
                        let mut j: usize = 0;
                        while j < items.len()
                            invariant
                                0 <= j <= items@.len(),
                                cells == json_views(items@),
                                forall|k: int|
                                    0 <= k < items@.len() ==> (#[trigger] items@[k]).wf(),
                                count == lacking(cells.take(j as int)),
                                count <= j,
                            decreases items@.len() - j,
                        {
                            proof {
                                lemma_lacking_grows(cells, j as int);
                            }
                            if !holds_id(&items[j]) {
                                count += 1;
                            }
                            j += 1;
                        }
                        assert(cells.take(j as int) =~= cells);
                        count
                    },
                    _ => 0,
                },
                None => 0,
            }
        },
        _ => 0,
    }
}

/// Whether every cell of the document can be given a member.
pub fn accepts_cell_ids(json: &Json) -> (accepts: bool)
    requires
        json.wf(),
    ensures
        accepts == cells_take_ids(json@),
{
    match json {
        Json::Object(members) => {
            proof {
                lemma_object(*members);
            }
            match member_position(members, "cells") {
                Some(i) => match &members[i].1 {
                    Json::Array(items) => {
                        let mut j: usize = 0;
                        while j < items.len()
                            invariant
                                0 <= j <= items@.len(),
                                document_cells(json@) is Some,
                                document_cells(json@)->0.len() == items@.len(),
                                forall|k: int|
                                    0 <= k < items@.len() ==> #[trigger] document_cells(json@)->0[k]
                                        == items@[k]@,
                                forall|k: int|
                                    0 <= k < j ==> takes_members((#[trigger] items@[k])@),
                            decreases items@.len() - j,
                        {
                            let takes: bool = match &items[j] {
                                Json::Object(_) => true,
                                Json::Null => true,
                                _ => false,
                            };
                            if !takes {
                                assert(!takes_members(document_cells(json@)->0[j as int]));
                                return false;
                            }
                            j += 1;
                        }
                        true
                    },
                    _ => true,
                },
                None => true,
            }
        },
        _ => true,
    }
}

/// Gives each cell of the document that has no identifier one of `ids`, in their order.
pub fn assign_cell_ids(json: Json, ids: &Vec<String>) -> (result: Json)
    requires
        json.wf(),
        cells_take_ids(json@),
        ids@.len() == missing(json@),
    ensures
        result.wf(),
        result@ == with_cell_ids(json@, texts(ids@)),
{
    match json {
        Json::Object(members) => {
            proof {
                lemma_object(members);
            }
            let mut members = members;
            match member_position(&members, "cells") {
                Some(i) => {
                    let ghost before = members@;
                    let (key, value) = members.remove(i);
                    assert(before[i as int].1.wf());
                    let value = match value {
                        Json::Array(items) => {
                            proof {
                                lemma_array(items);
                            }
                            Json::Array(assign_ids(items, ids))
                        },
                        other => other,
                    };
                    members.insert(i, (key, value));
                    proof {
                        assert(members@ =~= before.update(i as int, (key, value)));
                        lemma_replaced(before, i as int, (key, value));
                        assert forall|j: int| 0 <= j < members@.len() implies (
                        #[trigger] members@[j]).1.wf() by {
                            assert(before[j].1.wf());
                        }
                        lemma_object(members);
                        let cells = document_cells(json@);
                        if cells is None {
                            assert(entries_map(members@) =~= entries_map(before));
                        } else {
                            let wanted = Seq::new(
                                cells->0.len(),
                                |i: int|
                                    with_id(
                                        cells->0[i],
                                        texts(ids@)[lacking(cells->0.take(i)) as int],
                                    ),
                            );
                            assert(value@->Array_0 =~= wanted);
                        }
                    }
                    Json::Object(members)
                },
                None => Json::Object(members),
            }
        },
        other => other,
    }
}

/// Gives each of `cells` that has no identifier one of `ids`, in their order.
fn assign_ids(cells: Vec<Json>, ids: &Vec<String>) -> (result: Vec<Json>)
    requires
        forall|i: int| 0 <= i < cells@.len() ==> (#[trigger] cells@[i]).wf(),
        ids@.len() == lacking(json_views(cells@)),
    ensures
        forall|i: int| 0 <= i < result@.len() ==> (#[trigger] result@[i]).wf(),
        result@.len() == cells@.len(),
        forall|i: int|
            0 <= i < cells@.len() ==> (#[trigger] result@[i])@ == with_id(
                cells@[i]@,
                texts(ids@)[lacking(json_views(cells@).take(i)) as int],
            ),
{
    let mut result: Vec<Json> = Vec::new();
    let mut used: usize = 0;
    let total: usize = ids.len();
    let ghost all = cells@;
    let ghost views = json_views(cells@);
    for cell in it: cells
        invariant
            it.seq() == all,
            views == json_views(all),
            forall|i: int| 0 <= i < all.len() ==> (#[trigger] all[i]).wf(),
            total == ids@.len() == lacking(views),
            used == lacking(views.take(it.index())),
            result@.len() == it.index(),
            forall|i: int| 0 <= i < result@.len() ==> (#[trigger] result@[i]).wf(),
            forall|i: int|
                0 <= i < result@.len() ==> (#[trigger] result@[i])@ == with_id(
                    all[i]@,
                    texts(ids@)[lacking(views.take(i)) as int],
                ),
    {
        let ghost i = it.index();
        assert(cell == all[i]);
        assert(all[i].wf());
        proof {
            lemma_lacking_grows(views, i);
        }
        if holds_id(&cell) {
            result.push(cell);
        } else {
            result.push(give_id(cell, &ids[used]));
            used += 1;
        }
    }
    result
}

} // verus!
