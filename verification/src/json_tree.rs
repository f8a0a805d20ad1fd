//! JSON values, and how a partial value is laid over a complete one.

use vstd::prelude::*;
use crate::text;

verus! {

/// A JSON value. A number is kept as its text.
#[derive(Debug, PartialEq)]
pub enum Json {
    Null,
    Bool(bool),
    Number(String),
    Text(String),
    List(Vec<Json>),
    Object(Vec<Member>),
}

#[derive(Debug, PartialEq)]
pub struct Member {
    pub name: String,
    pub value: Json,
}

/// A JSON value by its contents.
pub enum JsonModel {
    Null,
    Bool(bool),
    Number(Seq<char>),
    Text(Seq<char>),
    List(Seq<JsonModel>),
    Object(Seq<MemberModel>),
}

pub struct MemberModel {
    pub name: Seq<char>,
    pub value: JsonModel,
}

impl Json {
    pub open spec fn model(self) -> JsonModel
        decreases self,
    {
        match self {
            Json::Null => JsonModel::Null,
            Json::Bool(b) => JsonModel::Bool(b),
            Json::Number(s) => JsonModel::Number(s@),
            Json::Text(s) => JsonModel::Text(s@),
            Json::List(items) => JsonModel::List(
                Seq::new(
                    items@.len(),
                    |i: int|
                        if 0 <= i < items@.len() {
                            items@[i].model()
                        } else {
                            JsonModel::Null
                        },
                ),
            ),
            Json::Object(members) => JsonModel::Object(
                Seq::new(
                    members@.len(),
                    |i: int|
                        if 0 <= i < members@.len() {
                            MemberModel {
                                name: members@[i].name@,
                                value: members@[i].value.model(),
                            }
                        } else {
                            MemberModel { name: Seq::empty(), value: JsonModel::Null }
                        },
                ),
            ),
        }
    }
}

impl View for Json {
    type V = JsonModel;

    open spec fn view(&self) -> JsonModel {
        self.model()
    }
}

pub open spec fn member_models(members: Seq<Member>) -> Seq<MemberModel> {
    Seq::new(
        members.len(),
        |i: int| MemberModel { name: members[i].name@, value: members[i].value@ },
    )
}

pub open spec fn item_models(items: Seq<Json>) -> Seq<JsonModel> {
    Seq::new(items.len(), |i: int| items[i]@)
}

/// The model of a list or an object is made of the models of its parts.
proof fn model_of_parts(value: Json)
    ensures
        value matches Json::List(items) ==> value@ == JsonModel::List(item_models(items@)),
        value matches Json::Object(members) ==> value@ == JsonModel::Object(
            member_models(members@),
        ),
{
    match value {
        Json::List(items) => {
            assert(value@->List_0 =~= item_models(items@));
        },
        Json::Object(members) => {
            assert(value@->Object_0 =~= member_models(members@));
        },
        _ => {},
    }
}

impl Clone for Json {
    fn clone(&self) -> (r: Self)
        ensures
            r@ == self@,
        decreases *self,
    {
        proof {
            model_of_parts(*self);
        }
        match self {
            Json::Null => Json::Null,
            Json::Bool(b) => Json::Bool(*b),
            Json::Number(s) => Json::Number(s.clone()),
            Json::Text(s) => Json::Text(s.clone()),
            Json::List(items) => {
                let r = Json::List(clone_items(items));
                proof {
                    model_of_parts(r);
                }
                r
            },
            Json::Object(members) => {
                let r = Json::Object(clone_members(members));
                proof {
                    model_of_parts(r);
                }
                r
            },
        }
    }
}

fn clone_items(items: &Vec<Json>) -> (copy: Vec<Json>)
    ensures
        item_models(copy@) == item_models(items@),
    decreases *items,
{
    let mut copy: Vec<Json> = Vec::new();
    let n: usize = items.len();
    let mut i: usize = 0;
    while i < n
        invariant
            n == items@.len(),
            i <= n,
            item_models(copy@) == item_models(items@).take(i as int),
        decreases n - i,
    {
        let ghost before = item_models(copy@);
        let item = &items[i];
        assert(decreases_to!(*items => items@[i as int]));
        let c = item.clone();
        copy.push(c);
        i += 1;
        assert(item_models(copy@) =~= before.push(item@));
        assert(item_models(copy@) =~= item_models(items@).take(i as int));
    }
    assert(item_models(items@).take(n as int) =~= item_models(items@));
    copy
}

fn clone_members(members: &Vec<Member>) -> (copy: Vec<Member>)
    ensures
        member_models(copy@) == member_models(members@),
    decreases *members,
{
    let mut copy: Vec<Member> = Vec::new();
    let n: usize = members.len();
    let mut i: usize = 0;
    while i < n
        invariant
            n == members@.len(),
            i <= n,
            member_models(copy@) == member_models(members@).take(i as int),
        decreases n - i,
    {
        let ghost before = member_models(copy@);
        let member = &members[i];
        assert(decreases_to!(*members => members@[i as int].value));
        let value = member.value.clone();
        let m = Member { name: member.name.clone(), value };
        copy.push(m);
        i += 1;
        assert(member_models(copy@) =~= before.push(
            MemberModel { name: member.name@, value: member.value@ },
        ));
        assert(member_models(copy@) =~= member_models(members@).take(i as int));
    }
    assert(member_models(members@).take(n as int) =~= member_models(members@));
    copy
}

/// The place of the member with this name, or the length.
pub open spec fn place_of(members: Seq<MemberModel>, name: Seq<char>) -> int
    decreases members.len(),
{
    if members.len() == 0 || members[0].name == name {
        0
    } else {
        1 + place_of(members.skip(1), name)
    }
}

/// The value of the member with this name.
pub open spec fn value_of(members: Seq<MemberModel>, name: Seq<char>) -> Option<JsonModel> {
    let i = place_of(members, name);
    if i < members.len() {
        Some(members[i].value)
    } else {
        None
    }
}

proof fn place_of_is_first(members: Seq<MemberModel>, name: Seq<char>)
    ensures
        0 <= place_of(members, name) <= members.len(),
        place_of(members, name) < members.len() ==> members[place_of(members, name)].name == name,
        forall|i: int| 0 <= i < place_of(members, name) ==> (#[trigger] members[i]).name != name,
    decreases members.len(),
{
    if members.len() > 0 && members[0].name != name {
        let rest = members.skip(1);
        place_of_is_first(rest, name);
        assert forall|i: int| 0 <= i < place_of(members, name) implies (
        #[trigger] members[i]).name != name by {
            if i > 0 {
                assert(members[i] == rest[i - 1]);
            }
        }
    }
}

fn find_member(members: &Vec<Member>, name: &str) -> (i: usize)
    ensures
        i == place_of(member_models(members@), name@),
        i <= members@.len(),
{
    let ghost all = member_models(members@);
    let mut i: usize = 0;
    while i < members.len() && !text::same(members[i].name.as_str(), name)
        invariant
            i <= members.len(),
            all == member_models(members@),
            forall|j: int| 0 <= j < i ==> (#[trigger] all[j]).name != name@,
        decreases members.len() - i,
    {
        i += 1;
    }
    proof {
        place_of_is_first(all, name@);
        let p = place_of(all, name@);
        if p < i {
            assert(all[p].name != name@);
        }
        if i < p {
            assert(all[i as int].name != name@);
        }
    }
    i
}

/// An empty text. A secret looks so where it is not shown.
pub open spec fn is_blank(value: JsonModel) -> bool {
    value matches JsonModel::Text(s) && s.len() == 0
}

/// `target` with `overlay` laid over it. Objects are joined member by member;
/// anything else is replaced. Wherever the overlay is blank the target is left
/// alone.
pub open spec fn merged(target: JsonModel, overlay: JsonModel) -> JsonModel
    decreases overlay,
{
    if is_blank(overlay) {
        target
    } else {
        match (target, overlay) {
            (JsonModel::Object(t), JsonModel::Object(o)) => JsonModel::Object(merged_members(t, o)),
            _ => overlay,
        }
    }
}

/// The members of an object with those of another laid over them, one after
/// the other.
pub open spec fn merged_members(
    target: Seq<MemberModel>,
    overlay: Seq<MemberModel>,
) -> Seq<MemberModel>
    decreases overlay,
{
    if overlay.len() == 0 {
        target
    } else {
        let before = merged_members(target, overlay.subrange(0, overlay.len() - 1));
        let m = overlay[overlay.len() - 1];
        if is_blank(m.value) {
            before
        } else {
            let i = place_of(before, m.name);
            if 0 <= i < before.len() {
                before.update(
                    i,
                    MemberModel { name: m.name, value: merged(before[i].value, m.value) },
                )
            } else {
                before.push(m)
            }
        }
    }
}

fn blank(value: &Json) -> (r: bool)
    ensures
        r == is_blank(value@),
{
    match value {
        Json::Text(s) => s.as_str().is_empty(),
        _ => false,
    }
}

/// Lays a value over another one.
pub fn merge(target: &mut Json, overlay: &Json)
    ensures
        final(target)@ == merged(old(target)@, overlay@),
    decreases *overlay,
{
    proof {
        model_of_parts(*target);
        model_of_parts(*overlay);
    }
    if blank(overlay) {
        return;
    }
    match overlay {
        Json::Object(o) => {
            let mut whole = Json::Null;
            std::mem::swap(&mut whole, target);
            match whole {
                Json::Object(mut t) => {
                    merge_members(&mut t, o);
                    *target = Json::Object(t);
                    proof {
                        model_of_parts(*target);
                    }
                },
                _ => {
                    *target = overlay.clone();
                },
            }
        },
        _ => {
            *target = overlay.clone();
        },
    }
}

fn merge_members(target: &mut Vec<Member>, overlay: &Vec<Member>)
    ensures
        member_models(final(target)@) == merged_members(
            member_models(old(target)@),
            member_models(overlay@),
        ),
    decreases *overlay,
{
    let ghost start = member_models(target@);
    let ghost all = member_models(overlay@);
    let n: usize = overlay.len();
    let mut k: usize = 0;
    assert(merged_members(start, all.subrange(0, 0)) == start);
    while k < n
        invariant
            n == overlay@.len(),
            k <= n,
            all == member_models(overlay@),
            member_models(target@) == merged_members(start, all.subrange(0, k as int)),
        decreases n - k,
    {
        let ghost before = member_models(target@);
        let m = &overlay[k];
        proof {
            let now = all.subrange(0, k + 1);
            assert(now.subrange(0, now.len() - 1) =~= all.subrange(0, k as int));
            assert(now[now.len() - 1] == (MemberModel { name: m.name@, value: m.value@ }));
            assert(decreases_to!(*overlay => overlay@[k as int].value));
            place_of_is_first(before, m.name@);
        }
        if !blank(&m.value) {
            let i: usize = find_member(target, m.name.as_str());
            if i < target.len() {
                merge(&mut target[i].value, &m.value);
                assert(member_models(target@) =~= before.update(
                    i as int,
                    MemberModel { name: m.name@, value: merged(before[i as int].value, m.value@) },
                ));
            } else {
                let copy = Member { name: m.name.clone(), value: m.value.clone() };
                target.push(copy);
                assert(member_models(target@) =~= before.push(
                    MemberModel { name: m.name@, value: m.value@ },
                ));
            }
        }
        k += 1;
    }
    assert(all.subrange(0, n as int) =~= all);
}

/// The object with one of its members laid over; nothing where the value has
/// no such member.
pub open spec fn with_section(
    full: JsonModel,
    section: Seq<char>,
    incoming: JsonModel,
) -> Option<JsonModel> {
    match full {
        JsonModel::Object(members) => {
            let i = place_of(members, section);
            if 0 <= i < members.len() {
                Some(
                    JsonModel::Object(
                        members.update(
                            i,
                            MemberModel {
                                name: members[i].name,
                                value: merged(members[i].value, incoming),
                            },
                        ),
                    ),
                )
            } else {
                None
            }
        },
        _ => None,
    }
}

/// Lays a value over one member of an object.
pub fn merge_section(full: Json, section: &str, incoming: &Json) -> (r: Option<Json>)
    ensures
        r is Some == with_section(full@, section@, incoming@) is Some,
        r is Some ==> r->0@ == with_section(full@, section@, incoming@)->0,
{
    proof {
        model_of_parts(full);
    }
    match full {
        Json::Object(mut members) => {
            let ghost before = member_models(members@);
            proof {
                place_of_is_first(before, section@);
            }
            let i: usize = find_member(&members, section);
            if i < members.len() {
                merge(&mut members[i].value, incoming);
                assert(member_models(members@) =~= before.update(
                    i as int,
                    MemberModel {
                        name: before[i as int].name,
                        value: merged(before[i as int].value, incoming@),
                    },
                ));
                let r = Json::Object(members);
                proof {
                    model_of_parts(r);
                }
                Some(r)
            } else {
                None
            }
        },
        _ => None,
    }
}

/// No name occurs twice.
pub open spec fn names_differ(members: Seq<MemberModel>) -> bool {
    forall|i: int, j: int|
        0 <= i < j < members.len() ==> (#[trigger] members[i]).name != (#[trigger] members[j]).name
}

/// Objects are joined member by member: a member that the overlay lacks, or
/// holds blank, stays as it was; one that both hold is joined; one that only
/// the overlay holds is taken over.
pub proof fn merge_is_by_member(
    target: Seq<MemberModel>,
    overlay: Seq<MemberModel>,
    name: Seq<char>,
)
    requires
        names_differ(overlay),
    ensures
        value_of(merged_members(target, overlay), name) == (match value_of(overlay, name) {
            None => value_of(target, name),
            Some(o) => if is_blank(o) {
                value_of(target, name)
            } else {
                match value_of(target, name) {
                    Some(t) => Some(merged(t, o)),
                    None => Some(o),
                }
            },
        }),
    decreases overlay.len(),
{
    if overlay.len() > 0 {
        let rest = overlay.subrange(0, overlay.len() - 1);
        let m = overlay[overlay.len() - 1];
        let before = merged_members(target, rest);
        assert(names_differ(rest)) by {
            assert forall|i: int, j: int| 0 <= i < j < rest.len() implies (#[trigger] rest[i]).name
                != (#[trigger] rest[j]).name by {
                assert(rest[i] == overlay[i] && rest[j] == overlay[j]);
            }
        }
        merge_is_by_member(target, rest, name);
        merge_is_by_member(target, rest, m.name);
        place_of_is_first(rest, name);
        place_of_is_first(rest, m.name);
        place_of_is_first(overlay, name);
        place_of_is_first(before, name);
        place_of_is_first(before, m.name);
        let after = merged_members(target, overlay);
        place_of_is_first(after, name);
        let pr = place_of(rest, name);
        let po = place_of(overlay, name);
        // The last member has a name that none of the others has.
        assert(place_of(rest, m.name) == rest.len()) by {
            let p = place_of(rest, m.name);
            if p < rest.len() {
                assert(overlay[p].name == m.name);
            }
        }
        if name == m.name {
            assert(po == rest.len()) by {
                if po < rest.len() {
                    assert(rest[po].name == name);
                }
                if po > rest.len() {
                    assert(overlay[rest.len() as int].name != name);
                }
            }
        } else {
            assert(value_of(overlay, name) == value_of(rest, name)) by {
                if pr < rest.len() {
                    assert(overlay[pr] == rest[pr]);
                    if po > pr {
                        assert(overlay[pr].name != name);
                    }
                    if po < pr {
                        assert(rest[po] == overlay[po]);
                    }
                } else if po < overlay.len() {
                    assert(po < rest.len());
                    assert(rest[po] == overlay[po]);
                }
            }
        }
        if !is_blank(m.value) {
            let i = place_of(before, m.name);
            let pb = place_of(before, name);
            let pa = place_of(after, name);
            if i < before.len() {
                assert forall|j: int| 0 <= j < before.len() implies (#[trigger] after[j]).name
                    == before[j].name by {}
                if pa < pb {
                    assert(after[pa].name == before[pa].name);
                }
                if pb < pa && pb < before.len() {
                    assert(after[pb].name == before[pb].name);
                }
                assert(pa == pb);
            } else {
                assert forall|j: int| 0 <= j < before.len() implies (#[trigger] after[j])
                    == before[j] by {}
                if name == m.name {
                    if pa < before.len() {
                        assert(before[pa].name != name);
                    }
                    assert(after[before.len() as int].name == name);
                    assert(pa == before.len());
                } else if pb < before.len() {
                    assert(after[pb].name == name);
                    if pa < pb {
                        assert(before[pa].name == name);
                    }
                    assert(pa == pb);
                } else {
                    if pa < before.len() {
                        assert(before[pa].name == name);
                    }
                    assert(pa == after.len());
                }
            }
        }
    } else {
        place_of_is_first(overlay, name);
    }
}

/// A blank value that comes back for a secret does not overwrite it, be it the
/// whole overlay or any member of one.
pub proof fn blanks_change_nothing(
    value: JsonModel,
    target: Seq<MemberModel>,
    overlay: Seq<MemberModel>,
)
    requires
        forall|i: int| 0 <= i < overlay.len() ==> is_blank((#[trigger] overlay[i]).value),
    ensures
        merged(value, JsonModel::Text(Seq::empty())) == value,
        merged_members(target, overlay) == target,
    decreases overlay.len(),
{
    if overlay.len() > 0 {
        let rest = overlay.subrange(0, overlay.len() - 1);
        assert forall|i: int| 0 <= i < rest.len() implies is_blank((#[trigger] rest[i]).value) by {
            assert(rest[i] == overlay[i]);
        }
        blanks_change_nothing(value, target, rest);
    }
}

/// `serde_json::Value`, a JSON value as the parser gives it.
#[verifier::external_type_specification]
#[verifier::external_body]
pub struct ExValue(serde_json::Value);

/// What a `serde_json::Value` holds, with every number as the text that
/// `serde_json` writes for it and the members of an object in its own order.
pub uninterp spec fn value_model(value: serde_json::Value) -> JsonModel;

/// What `serde_json::from_slice::<serde_json::Value>` reads out of bytes: the
/// value that it gives, or the text of its error.
pub uninterp spec fn json_parsed(bytes: Seq<u8>) -> Result<JsonModel, Seq<char>>;

/// `serde_json::from_slice::<serde_json::Value>`. The result depends on the
/// bytes alone; which texts it accepts is left unsaid.
#[verifier::external_body]
fn read_value(bytes: &[u8]) -> (r: Result<serde_json::Value, String>)
    ensures
        json_parsed(bytes@) == (match r {
            Ok(v) => Ok::<JsonModel, Seq<char>>(value_model(v)),
            Err(e) => Err::<JsonModel, Seq<char>>(e@),
        }),
{
    serde_json::from_slice::<serde_json::Value>(bytes).map_err(|e| e.to_string())
}

/// A `serde_json::Value` with its parts moved, one for one; numbers are written
/// by `serde_json::Number::to_string`.
#[verifier::external_body]
fn tree_of(value: serde_json::Value) -> (tree: Json)
    ensures
        tree@ == value_model(value),
{
    match value {
        serde_json::Value::Null => Json::Null,
        serde_json::Value::Bool(b) => Json::Bool(b),
        serde_json::Value::Number(n) => Json::Number(n.to_string()),
        serde_json::Value::String(s) => Json::Text(s),
        serde_json::Value::Array(items) => Json::List(items.into_iter().map(tree_of).collect()),
        serde_json::Value::Object(members) => Json::Object(
            members.into_iter().map(|(name, v)| Member { name, value: tree_of(v) }).collect(),
        ),
    }
}

/// What parsing gave, as a value or as an error.
pub open spec fn parsed_view(r: Result<Json, String>) -> Result<JsonModel, Seq<char>> {
    match r {
        Ok(j) => Ok(j@),
        Err(e) => Err(e@),
    }
}

/// Reads a JSON value.
pub fn parse_json(bytes: &[u8]) -> (r: Result<Json, String>)
    ensures
        parsed_view(r) == json_parsed(bytes@),
{
    match read_value(bytes) {
        Ok(v) => Ok(tree_of(v)),
        Err(e) => Err(e),
    }
}

/// Blank is the empty text and nothing else: a null, a zero, a false or an empty
/// list are values of their own. What is not blank replaces what it is laid
/// over, unless both are objects.
pub proof fn only_empty_text_is_blank(
    target: JsonModel,
    text: Seq<char>,
    items: Seq<JsonModel>,
    members: Seq<MemberModel>,
    on: bool,
)
    ensures
        merged(target, JsonModel::Text(Seq::empty())) == target,
        text.len() > 0 ==> merged(target, JsonModel::Text(text)) == JsonModel::Text(text),
        merged(target, JsonModel::Null) == JsonModel::Null,
        merged(target, JsonModel::Bool(on)) == JsonModel::Bool(on),
        merged(target, JsonModel::Number(text)) == JsonModel::Number(text),
        merged(target, JsonModel::List(items)) == JsonModel::List(items),
        !(target is Object) ==> merged(target, JsonModel::Object(members)) == JsonModel::Object(
            members,
        ),
        target is Object ==> merged(target, JsonModel::Object(members)) is Object,
        target is Object ==> merged(target, JsonModel::Object(Seq::empty())) == target,
{
}

/// The value of a name is that of the first member with it.
pub proof fn first_member_counts(members: Seq<MemberModel>, i: int, name: Seq<char>)
    requires
        forall|j: int| 0 <= j < i && j < members.len() ==> (#[trigger] members[j]).name != name,
        0 <= i <= members.len(),
        i < members.len() ==> members[i].name == name,
    ensures
        i < members.len() ==> value_of(members, name) == Some(members[i].value),
        i == members.len() ==> value_of(members, name) is None,
{
    place_of_is_first(members, name);
    let f = place_of(members, name);
    if f < i {
        assert(members[f].name == name);
    }
}

/// A body is laid over the section that is named, the other sections stay as
/// they are and where they are, and without such a section nothing is changed.
pub proof fn only_the_named_section_changes(
    members: Seq<MemberModel>,
    i: int,
    section: Seq<char>,
    incoming: JsonModel,
    other: JsonModel,
)
    requires
        forall|j: int| 0 <= j < i && j < members.len() ==> (#[trigger] members[j]).name != section,
        0 <= i <= members.len(),
        i < members.len() ==> members[i].name == section,
        !(other is Object),
    ensures
        with_section(other, section, incoming) is None,
        i == members.len() ==> with_section(JsonModel::Object(members), section, incoming) is None,
        i < members.len() ==> (with_section(JsonModel::Object(members), section, incoming) matches Some(
            JsonModel::Object(after),
        ) && {
            &&& after.len() == members.len()
            &&& after[i].name == section && after[i].value == merged(members[i].value, incoming)
            &&& forall|j: int|
                0 <= j < members.len() && j != i ==> #[trigger] after[j] == members[j]
        }),
{
    place_of_is_first(members, section);
    let f = place_of(members, section);
    if f < i {
        assert(members[f].name == section);
    }
}

} // verus!
