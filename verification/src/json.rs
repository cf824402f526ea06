//! JSON documents as plain values, as far as the broker reads and edits them.
use vstd::prelude::*;

verus! {

/// A JSON document. A floating-point number is kept as its bits: nothing here
/// looks inside it.
#[derive(Debug)]
pub enum Json {
    Null,
    Bool(bool),
    Unsigned(u64),
    Negative(i64),
    Float(u64),
    Text(String),
    Array(Vec<Json>),
    Object(Vec<Member>),
}

/// A member of an object. Of two members with the same key the later counts.
#[derive(Debug)]
pub struct Member {
    pub key: String,
    pub value: Json,
}

/// A JSON document as mathematical data: an object is a map from its keys.
pub ghost enum JsonView {
    Null,
    Bool(bool),
    Unsigned(u64),
    Negative(i64),
    Float(u64),
    Text(Seq<char>),
    Array(Seq<JsonView>),
    Object(Map<Seq<char>, JsonView>),
}

impl View for Json {
    type V = JsonView;

    open spec fn view(&self) -> JsonView
        decreases self,
    {
        match self {
            Json::Null => JsonView::Null,
            Json::Bool(b) => JsonView::Bool(*b),
            Json::Unsigned(n) => JsonView::Unsigned(*n),
            Json::Negative(n) => JsonView::Negative(*n),
            Json::Float(bits) => JsonView::Float(*bits),
            Json::Text(t) => JsonView::Text(t@),
            Json::Array(items) => JsonView::Array(items_model(items@)),
            Json::Object(members) => JsonView::Object(members_model(members@)),
        }
    }
}

pub open spec fn items_model(items: Seq<Json>) -> Seq<JsonView>
    decreases items,
{
    if items.len() == 0 {
        Seq::empty()
    } else {
        items_model(items.drop_last()).push(items.last()@)
    }
}

pub open spec fn members_model(members: Seq<Member>) -> Map<Seq<char>, JsonView>
    decreases members,
{
    if members.len() == 0 {
        Map::empty()
    } else {
        let last = members.last();
        members_model(members.drop_last()).insert(last.key@, last.value@)
    }
}

impl JsonView {
    /// The value under `key`, if this is an object that has one.
    pub open spec fn get(self, key: Seq<char>) -> Option<JsonView> {
        match self {
            JsonView::Object(members) => if members.contains_key(key) {
                Some(members[key])
            } else {
                None
            },
            _ => None,
        }
    }

    /// With `value` under `key`. Only an object can have members.
    pub open spec fn with(self, key: Seq<char>, value: JsonView) -> JsonView {
        match self {
            JsonView::Object(members) => JsonView::Object(members.insert(key, value)),
            other => other,
        }
    }

    /// Without anything under `key`.
    pub open spec fn without(self, key: Seq<char>) -> JsonView {
        match self {
            JsonView::Object(members) => JsonView::Object(members.remove(key)),
            other => other,
        }
    }
}

pub proof fn lemma_items_model(items: Seq<Json>)
    ensures
        items_model(items).len() == items.len(),
        forall|i: int|
            0 <= i < items.len() ==> #[trigger] items_model(items)[i] == items[i]@,
    decreases items.len(),
{
    if items.len() > 0 {
        lemma_items_model(items.drop_last());
        assert(items_model(items) == items_model(items.drop_last()).push(items.last()@));
    }
}

proof fn lemma_members_model(members: Seq<Member>)
    requires
        members.len() > 0,
    ensures
        members_model(members) == members_model(members.drop_last()).insert(
            members.last().key@,
            members.last().value@,
        ),
{
}

/// The last member under `key`, if there is one, decides what the map holds.
proof fn lemma_last_member_counts(members: Seq<Member>, n: int, key: Seq<char>)
    requires
        0 <= n <= members.len(),
        forall|i: int| n <= i < members.len() ==> (#[trigger] members[i]).key@ != key,
    ensures
        members_model(members).contains_key(key) == members_model(members.take(n)).contains_key(
            key,
        ),
        members_model(members).contains_key(key) ==> members_model(members)[key]
            == members_model(members.take(n))[key],
    decreases members.len() - n,
{
    if n == members.len() {
        assert(members.take(n) =~= members);
    } else {
        let shorter = members.drop_last();
        assert(members.last().key@ != key);
        assert forall|i: int| n <= i < shorter.len() implies (#[trigger] shorter[i]).key@
            != key by {
            assert(shorter[i] == members[i]);
        }
        lemma_last_member_counts(shorter, n, key);
        lemma_members_model(members);
        assert(shorter.take(n) =~= members.take(n));
    }
}

impl Clone for Json {
    /// A copy of the whole document.
    fn clone(&self) -> (r: Self)
        ensures
            r@ == self@,
        decreases self,
    {
        match self {
            Json::Null => Json::Null,
            Json::Bool(b) => Json::Bool(*b),
            Json::Unsigned(n) => Json::Unsigned(*n),
            Json::Negative(n) => Json::Negative(*n),
            Json::Float(bits) => Json::Float(*bits),
            Json::Text(t) => Json::Text(t.clone()),
            Json::Array(items) => {
                let mut copies: Vec<Json> = Vec::new();
                let mut i: usize = 0;
                while i < items.len()
                    invariant
                        *self == Json::Array(*items),
                        i <= items@.len(),
                        items_model(copies@) == items_model(items@.take(i as int)),
                    decreases items@.len() - i,
                {
                    assert(decreases_to!(*self => self->Array_0));
                    assert(decreases_to!(*items => items[i as int]));
                    let copy = items[i].clone();
                    let ghost before = copies@;
                    copies.push(copy);
                    proof {
                        assert(copies@.drop_last() =~= before);
                        assert(items@.take(i + 1).drop_last() =~= items@.take(i as int));
                    }
                    i = i + 1;
                }
                assert(items@.take(items@.len() as int) =~= items@);
                Json::Array(copies)
            },
            Json::Object(members) => {
                let mut copies: Vec<Member> = Vec::new();
                let mut i: usize = 0;
                while i < members.len()
                    invariant
                        *self == Json::Object(*members),
                        i <= members@.len(),
                        members_model(copies@) == members_model(members@.take(i as int)),
                    decreases members@.len() - i,
                {
                    assert(decreases_to!(*self => self->Object_0));
                    assert(decreases_to!(*members => members[i as int]));
                    assert(decreases_to!(members[i as int] => members[i as int].value));
                    let value = members[i].value.clone();
                    let ghost before = copies@;
                    copies.push(Member { key: members[i].key.clone(), value });
                    proof {
                        assert(copies@.drop_last() =~= before);
                        assert(members@.take(i + 1).drop_last() =~= members@.take(i as int));
                    }
                    i = i + 1;
                }
                assert(members@.take(members@.len() as int) =~= members@);
                Json::Object(copies)
            },
        }
    }
}

impl Json {
    /// An object without members.
    pub fn object() -> (r: Self)
        ensures
            r@ == JsonView::Object(Map::empty()),
    {
        Json::Object(Vec::new())
    }

    /// A copy of `text` as a JSON string.
    pub fn text(text: &str) -> (r: Self)
        ensures
            r@ == JsonView::Text(text@),
    {
        Json::Text(String::from_str(text))
    }

    /// The value under `key`, if this is an object that has one.
    pub fn get(&self, key: &str) -> (r: Option<&Json>)
        ensures
            match r {
                Some(value) => self@.get(key@) == Some(value@),
                None => self@.get(key@) is None,
            },
    {
        match self {
            Json::Object(members) => {
                let wanted = String::from_str(key);
                let mut n: usize = members.len();
                while n > 0
                    invariant
                        n <= members@.len(),
                        wanted@ == key@,
                        self@ == JsonView::Object(members_model(members@)),
                        forall|i: int|
                            n <= i < members@.len() ==> (#[trigger] members@[i]).key@ != key@,
                    decreases n,
                {
                    if members[n - 1].key == wanted {
                        proof {
                            lemma_last_member_counts(members@, n as int, key@);
                            assert(members@.take(n as int).last() == members@[n - 1]);
                        }
                        return Some(&members[n - 1].value);
                    }
                    n = n - 1;
                }
                proof {
                    lemma_last_member_counts(members@, 0, key@);
                    assert(members@.take(0).len() == 0);
                }
                None
            },
            _ => None,
        }
    }

    /// Takes the value under `key` out of an object.
    pub fn remove(&mut self, key: &str) -> (r: Option<Json>)
        ensures
            final(self)@ == old(self)@.without(key@),
            match r {
                Some(value) => old(self)@.get(key@) == Some(value@),
                None => old(self)@.get(key@) is None,
            },
    {
        let mut taken = Json::Null;
        std::mem::swap(&mut taken, self);
        match taken {
            Json::Object(members) => {
                let wanted = String::from_str(key);
                let mut kept: Vec<Member> = Vec::new();
                let mut found: Option<Json> = None;
                for member in it: members
                    invariant
                        it.seq() == members@,
                        wanted@ == key@,
                        members_model(kept@) == members_model(
                            members@.take(it.index() as int),
                        ).remove(key@),
                        match found {
                            Some(value) => {
                                &&& members_model(members@.take(it.index() as int)).contains_key(
                                    key@,
                                )
                                &&& members_model(members@.take(it.index() as int))[key@] == value@
                            },
                            None => !members_model(
                                members@.take(it.index() as int),
                            ).contains_key(key@),
                        },
                {
                    let ghost n = it.index() as int;
                    assert(members@.take(n + 1).drop_last() =~= members@.take(n));
                    assert(members@.take(n + 1).last() == member);
                    proof {
                        lemma_members_model(members@.take(n + 1));
                    }
                    if member.key == wanted {
                        found = Some(member.value);
                        assert(members_model(kept@) =~= members_model(
                            members@.take(n + 1),
                        ).remove(key@));
                    } else {
                        let ghost before = kept@;
                        kept.push(member);
                        proof {
                            assert(kept@.drop_last() =~= before);
                            lemma_members_model(kept@);
                        }
                        assert(members_model(kept@) =~= members_model(
                            members@.take(n + 1),
                        ).remove(key@));
                    }
                }
                assert(members@.take(members@.len() as int) =~= members@);
                *self = Json::Object(kept);
                found
            },
            other => {
                *self = other;
                None
            },
        }
    }

    /// Puts `value` under `key` in an object, in place of what was there.
    pub fn insert(&mut self, key: &str, value: Json)
        ensures
            final(self)@ == old(self)@.with(key@, value@),
    {
        let _ = self.remove(key);
        let mut taken = Json::Null;
        std::mem::swap(&mut taken, self);
        match taken {
            Json::Object(mut members) => {
                let ghost before = members@;
                members.push(Member { key: String::from_str(key), value });
                proof {
                    assert(members@.drop_last() =~= before);
                    assert(members_model(members@) =~= members_model(before).insert(
                        key@,
                        value@,
                    ));
                    if let JsonView::Object(before_edit) = old(self)@ {
                        assert(before_edit.remove(key@).insert(key@, value@) =~= before_edit.insert(
                            key@,
                            value@,
                        ));
                    }
                }
                *self = Json::Object(members);
            },
            other => {
                *self = other;
            },
        }
    }

    pub fn as_array(&self) -> (r: Option<&Vec<Json>>)
        ensures
            match r {
                Some(items) => self@ == JsonView::Array(items_model(items@)),
                None => !(self@ is Array),
            },
    {
        match self {
            Json::Array(items) => Some(items),
            _ => None,
        }
    }

    /// Whether this is exactly the string `text`.
    pub fn is_text(&self, text: &str) -> (r: bool)
        ensures
            r == (self@ == JsonView::Text(text@)),
    {
        match self {
            Json::Text(t) => *t == String::from_str(text),
            _ => false,
        }
    }
}

// ---------------------------------------------------------------------------
// Laws
// ---------------------------------------------------------------------------

/// What is put under a key is found there, and nothing else is affected; only
/// an object takes it.
pub proof fn law_an_inserted_value_is_found(
    document: JsonView,
    key: Seq<char>,
    value: JsonView,
    other: Seq<char>,
)
    ensures
        document is Object ==> document.with(key, value) is Object && document.with(
            key,
            value,
        ).get(key) == Some(value),
        other != key ==> document.with(key, value).get(other) == document.get(other),
        !(document is Object) ==> document.with(key, value) == document && document.get(key)
            is None,
{
}

/// What is taken out is gone, and nothing else is affected.
pub proof fn law_a_removed_value_is_gone(document: JsonView, key: Seq<char>, other: Seq<char>)
    ensures
        document.without(key).get(key) is None,
        other != key ==> document.without(key).get(other) == document.get(other),
        document is Object <==> document.without(key) is Object,
        !(document is Object) ==> document.without(key) == document,
        document.get(key) is None ==> document.without(key) == document,
{
    if let JsonView::Object(members) = document {
        if document.get(key) is None {
            assert(members.remove(key) =~= members);
        }
    }
}

/// Two objects in which every key finds the same are the same.
pub proof fn law_an_object_is_what_is_found_in_it(a: JsonView, b: JsonView)
    requires
        a is Object,
        b is Object,
        forall|key: Seq<char>| a.get(key) == b.get(key),
    ensures
        a == b,
{
    let x = a->Object_0;
    let y = b->Object_0;
    assert forall|key: Seq<char>| #[trigger] x.dom().contains(key) == y.dom().contains(key) by {
        assert(a.get(key) == b.get(key));
    }
    assert(x.dom() =~= y.dom());
    assert forall|key: Seq<char>| #[trigger] x.dom().contains(key) implies x[key] == y[key] by {
        assert(a.get(key) == b.get(key));
    }
    assert(x =~= y);
}

/// Scalars stand for themselves.
pub proof fn law_scalars_stand_for_themselves(b: bool, n: u64, i: i64, bits: u64, text: String)
    ensures
        Json::Null@ == JsonView::Null,
        Json::Bool(b)@ == JsonView::Bool(b),
        Json::Unsigned(n)@ == JsonView::Unsigned(n),
        Json::Negative(i)@ == JsonView::Negative(i),
        Json::Float(bits)@ == JsonView::Float(bits),
        Json::Text(text)@ == JsonView::Text(text@),
{
}

/// A list stands for its items, all of them and in their order.
pub proof fn law_a_list_stands_for_its_items(items: Vec<Json>, i: int)
    ensures
        Json::Array(items)@ is Array,
        Json::Array(items)@->Array_0.len() == items@.len(),
        0 <= i < items@.len() ==> Json::Array(items)@->Array_0[i] == items@[i]@,
{
    lemma_items_model(items@);
}

/// In an object every key finds the value of its last member, and a key without
/// a member finds nothing.
pub proof fn law_the_last_member_counts(members: Vec<Member>, key: Seq<char>, i: int)
    ensures
        Json::Object(members)@ is Object,
        0 <= i < members@.len() && members@[i].key@ == key && (forall|j: int|
            i < j < members@.len() ==> (#[trigger] members@[j]).key@ != key) ==> Json::Object(
            members,
        )@.get(key) == Some(members@[i].value@),
        (forall|j: int| 0 <= j < members@.len() ==> (#[trigger] members@[j]).key@ != key)
            ==> Json::Object(members)@.get(key) is None,
{
    let list = members@;
    if 0 <= i < list.len() && list[i].key@ == key && (forall|j: int|
        i < j < list.len() ==> (#[trigger] list[j]).key@ != key) {
        lemma_last_member_counts(list, i + 1, key);
        lemma_members_model(list.take(i + 1));
        assert(list.take(i + 1).last() == list[i]);
    }
    if forall|j: int| 0 <= j < list.len() ==> (#[trigger] list[j]).key@ != key {
        lemma_last_member_counts(list, 0, key);
        assert(list.take(0).len() == 0);
    }
}

} // verus!
