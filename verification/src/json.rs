//! JSON: values that are carried through without being read, and the content of
//! those that are read.
use crate::double::Double;
use crate::table::views;
use crate::text::{holds_text, same};
use crate::time::{parsed_time, Timestamp};
use vstd::prelude::*;

verus! {

/// A JSON value of `serde_json`.
#[verifier::external_type_specification]
#[verifier::external_body]
pub struct ExJsonValue(serde_json::Value);

/// `serde_json::Value::clone`: the clone holds the same value.
pub assume_specification[ <serde_json::Value as Clone>::clone ](v: &serde_json::Value) -> (r:
    serde_json::Value)
    ensures
        r == *v,
;

/// The content of a JSON value.
#[derive(Debug)]
pub enum Payload {
    Null,
    Bool(bool),
    /// A number, held as the nearest double-precision number.
    Number(Double),
    Text(String),
    List(Vec<Payload>),
    /// The members of an object, each name once.
    Object(Vec<(String, Payload)>),
}

/// The content of a `Payload`.
#[verifier::ext_equal]
pub enum PayloadView {
    Null,
    Bool(bool),
    Number(Double),
    Text(Seq<char>),
    List(Seq<PayloadView>),
    Object(Seq<(Seq<char>, PayloadView)>),
}

/// What a payload holds.
pub open spec fn content(p: Payload) -> PayloadView
    decreases p,
{
    match p {
        Payload::Null => PayloadView::Null,
        Payload::Bool(b) => PayloadView::Bool(b),
        Payload::Number(n) => PayloadView::Number(n),
        Payload::Text(s) => PayloadView::Text(s@),
        Payload::List(items) => PayloadView::List(
            Seq::new(
                items@.len(),
                |i: int|
                    if 0 <= i < items@.len() {
                        content(items[i])
                    } else {
                        PayloadView::Null
                    },
            ),
        ),
        Payload::Object(members) => PayloadView::Object(
            Seq::new(
                members@.len(),
                |i: int|
                    if 0 <= i < members@.len() {
                        (members[i].0@, content(members[i].1))
                    } else {
                        (Seq::empty(), PayloadView::Null)
                    },
            ),
        ),
    }
}

impl View for Payload {
    type V = PayloadView;

    open spec fn view(&self) -> PayloadView {
        content(*self)
    }
}

/// The content of a JSON value.
pub uninterp spec fn json_content(v: serde_json::Value) -> PayloadView;

/// The compact JSON text of a value, in UTF-8.
pub uninterp spec fn json_text(v: serde_json::Value) -> Seq<u8>;

/// The content of a `serde_json::Value`, as named: each variant becomes the variant of
/// the same meaning, items and members in their order, and a number what
/// `serde_json::Number::as_f64` gives for it.
#[verifier::external_body]
pub(crate) fn read_json(v: &serde_json::Value) -> (r: Payload)
    ensures
        r@ == json_content(*v),
{
    match v {
        serde_json::Value::Null => Payload::Null,
        serde_json::Value::Bool(b) => Payload::Bool(*b),
        serde_json::Value::Number(n) => Payload::Number(
            Double { bits: n.as_f64().unwrap_or_default().to_bits() },
        ),
        serde_json::Value::String(s) => Payload::Text(s.clone()),
        serde_json::Value::Array(items) => Payload::List(items.iter().map(read_json).collect()),
        serde_json::Value::Object(members) => Payload::Object(
            members.iter().map(|(k, x)| (k.clone(), read_json(x))).collect(),
        ),
    }
}

/// `serde_json::to_vec` of a value: the named text. Writing a value into memory does not
/// fail.
#[verifier::external_body]
pub(crate) fn json_bytes(v: &serde_json::Value) -> (r: Vec<u8>)
    ensures
        r@ == json_text(*v),
{
    serde_json::to_vec(v).unwrap_or_default()
}

/// The first value with a given name.
pub open spec fn member(members: Seq<(Seq<char>, PayloadView)>, name: Seq<char>) -> Option<
    PayloadView,
>
    decreases members.len(),
{
    if members.len() == 0 {
        None
    } else if members[0].0 == name {
        Some(members[0].1)
    } else {
        member(members.skip(1), name)
    }
}

/// Those of the values that are texts.
pub open spec fn texts_among(items: Seq<PayloadView>) -> Seq<Seq<char>>
    decreases items.len(),
{
    if items.len() == 0 {
        Seq::empty()
    } else {
        let before = texts_among(items.drop_last());
        match items.last() {
            PayloadView::Text(s) => before.push(s),
            _ => before,
        }
    }
}

impl PayloadView {
    /// The member of an object with a given name.
    pub open spec fn field(self, name: Seq<char>) -> Option<PayloadView> {
        match self {
            PayloadView::Object(members) => member(members, name),
            _ => None,
        }
    }

    /// The member of an object with a given name, if that is a text.
    pub open spec fn text_field(self, name: Seq<char>) -> Option<Seq<char>> {
        match self.field(name) {
            Some(PayloadView::Text(s)) => Some(s),
            _ => None,
        }
    }

    /// The member with a given name, if that is a text, or else `default`.
    pub open spec fn text_or(self, name: Seq<char>, default: Seq<char>) -> Seq<char> {
        match self.text_field(name) {
            Some(s) => s,
            None => default,
        }
    }

    /// The member with a given name, if that is a number, or else `default`.
    pub open spec fn number_or(self, name: Seq<char>, default: Double) -> Double {
        match self.field(name) {
            Some(PayloadView::Number(n)) => n,
            _ => default,
        }
    }

    /// The member `inner` of the member `outer`, if that is a number, or else
    /// `default`.
    pub open spec fn nested_number_or(
        self,
        outer: Seq<char>,
        inner: Seq<char>,
        default: Double,
    ) -> Double {
        match self.field(outer) {
            Some(p) => p.number_or(inner, default),
            None => default,
        }
    }

    /// The member with a given name, if that is the text of an instant, or else
    /// `default`.
    pub open spec fn time_or(self, name: Seq<char>, default: Timestamp) -> Timestamp {
        match self.text_field(name) {
            Some(s) => match parsed_time(s) {
                Some(t) => t,
                None => default,
            },
            None => default,
        }
    }

    /// The member `inner` of the member `outer`, if that is the text of an instant,
    /// or else `default`.
    pub open spec fn nested_time_or(
        self,
        outer: Seq<char>,
        inner: Seq<char>,
        default: Timestamp,
    ) -> Timestamp {
        match self.field(outer) {
            Some(p) => p.time_or(inner, default),
            None => default,
        }
    }

    /// The texts in the member with a given name, if that is a list, or else none.
    pub open spec fn text_list(self, name: Seq<char>) -> Seq<Seq<char>> {
        match self.field(name) {
            Some(PayloadView::List(items)) => texts_among(items),
            _ => Seq::empty(),
        }
    }

    /// It is an object without members of other names.
    pub open spec fn has_only(self, a: Seq<char>, b: Seq<char>, c: Seq<char>) -> bool {
        self matches PayloadView::Object(members) && forall|i: int|
            0 <= i < members.len() ==> (#[trigger] members[i]).0 == a || members[i].0 == b
                || members[i].0 == c
    }

    /// The member with a given name is a text that is not empty.
    pub open spec fn has_text(self, name: Seq<char>) -> bool {
        self.text_field(name) matches Some(s) && s.len() > 0
    }

    /// The member with a given name is one of three texts.
    pub open spec fn has_one_of(
        self,
        name: Seq<char>,
        a: Seq<char>,
        b: Seq<char>,
        c: Seq<char>,
    ) -> bool {
        self.text_field(name) matches Some(s) && (s == a || s == b || s == c)
    }

    /// The member with a given name is a number.
    pub open spec fn has_number(self, name: Seq<char>) -> bool {
        self.field(name) matches Some(PayloadView::Number(_))
    }

    /// The member with a given name is the text of an instant.
    pub open spec fn has_time(self, name: Seq<char>) -> bool {
        self.text_field(name) matches Some(s) && parsed_time(s) is Some
    }

    /// The member with a given name is a list of texts, none of which occurs twice.
    pub open spec fn has_text_set(self, name: Seq<char>) -> bool {
        self.field(name) matches Some(PayloadView::List(items)) && is_text_set(items)
    }
}

/// The items are texts, none of which occurs twice.
pub open spec fn is_text_set(items: Seq<PayloadView>) -> bool {
    &&& forall|i: int| 0 <= i < items.len() ==> (#[trigger] items[i]) is Text
    &&& items.no_duplicates()
}

impl Payload {
    /// The member of an object with a given name.
    pub fn get(&self, name: &str) -> (r: Option<&Payload>)
        ensures
            match r {
                Some(p) => self@.field(name@) == Some(p@),
                None => self@.field(name@) is None,
            },
    {
        match self {
            Payload::Object(members) => {
                let ghost all = self@->Object_0;
                let wanted = name.to_owned();
                let mut i: usize = 0;
                assert(all.skip(0) =~= all);
                while i < members.len()
                    invariant
                        i <= members@.len(),
                        all.len() == members@.len(),
                        forall|j: int|
                            0 <= j < all.len() ==> #[trigger] all[j] == (
                                members@[j].0@,
                                members@[j].1@,
                            ),
                        wanted@ == name@,
                        member(all, name@) == member(all.skip(i as int), name@),
                        self@.field(name@) == member(all, name@),
                    decreases members@.len() - i,
                {
                    assert(all.skip(i as int)[0] == all[i as int]);
                    if members[i].0 == wanted {
                        return Some(&members[i].1);
                    }
                    assert(all.skip(i as int).skip(1) =~= all.skip(i + 1));
                    i = i + 1;
                }
                None
            },
            _ => None,
        }
    }

    /// The member of an object with a given name, if that is a text.
    pub fn get_text(&self, name: &str) -> (r: Option<&String>)
        ensures
            match r {
                Some(s) => self@.text_field(name@) == Some(s@),
                None => self@.text_field(name@) is None,
            },
    {
        match self.get(name) {
            Some(Payload::Text(s)) => Some(s),
            _ => None,
        }
    }

    /// The member with a given name, if that is a text, or else `default`.
    pub fn get_text_or(&self, name: &str, default: &str) -> (r: String)
        ensures
            r@ == self@.text_or(name@, default@),
    {
        match self.get_text(name) {
            Some(s) => s.clone(),
            None => default.to_owned(),
        }
    }

    /// The member with a given name, if that is a number, or else `default`.
    pub fn get_number_or(&self, name: &str, default: Double) -> (r: Double)
        ensures
            r == self@.number_or(name@, default),
    {
        match self.get(name) {
            Some(Payload::Number(n)) => *n,
            _ => default,
        }
    }

    /// The member `inner` of the member `outer`, if that is a number, or else
    /// `default`.
    pub fn get_nested_number_or(&self, outer: &str, inner: &str, default: Double) -> (r: Double)
        ensures
            r == self@.nested_number_or(outer@, inner@, default),
    {
        match self.get(outer) {
            Some(p) => p.get_number_or(inner, default),
            None => default,
        }
    }

    /// The member with a given name, if that is the text of an instant, or else
    /// `default`.
    pub fn get_time_or(&self, name: &str, default: Timestamp) -> (r: Timestamp)
        ensures
            r == self@.time_or(name@, default),
    {
        match self.get_text(name) {
            Some(s) => match Timestamp::parse(s.as_str()) {
                Some(t) => t,
                None => default,
            },
            None => default,
        }
    }

    /// The member `inner` of the member `outer`, if that is the text of an instant,
    /// or else `default`.
    pub fn get_nested_time_or(&self, outer: &str, inner: &str, default: Timestamp) -> (r: Timestamp)
        ensures
            r == self@.nested_time_or(outer@, inner@, default),
    {
        match self.get(outer) {
            Some(p) => p.get_time_or(inner, default),
            None => default,
        }
    }

    /// The texts in the member with a given name, if that is a list, or else none.
    pub fn get_text_list(&self, name: &str) -> (r: Vec<String>)
        ensures
            views(r@) == self@.text_list(name@),
    {
        let mut r: Vec<String> = Vec::new();
        assert(views(r@) =~= Seq::<Seq<char>>::empty());
        match self.get(name) {
            Some(list) => match list {
                Payload::List(items) => {
                    let ghost all = list@->List_0;
                    let mut i: usize = 0;
                    assert(all.take(0) =~= Seq::<PayloadView>::empty());
                    while i < items.len()
                        invariant
                            i <= items@.len(),
                            all.len() == items@.len(),
                            forall|j: int|
                                0 <= j < all.len() ==> #[trigger] all[j] == items@[j]@,
                            views(r@) == texts_among(all.take(i as int)),
                        decreases items@.len() - i,
                    {
                        proof {
                            assert(all.take(i + 1).drop_last() =~= all.take(i as int));
                            assert(all.take(i + 1).last() == items@[i as int]@);
                        }
                        let ghost before = views(r@);
                        if let Payload::Text(s) = &items[i] {
                            r.push(s.clone());
                            assert(views(r@) =~= before.push(s@));
                        }
                        i = i + 1;
                    }
                    assert(all.take(i as int) =~= all);
                    r
                },
                _ => r,
            },
            _ => r,
        }
    }

    /// Whether it is an object without members of other names.
    pub fn is_only(&self, a: &str, b: &str, c: &str) -> (r: bool)
        ensures
            r == self@.has_only(a@, b@, c@),
    {
        match self {
            Payload::Object(members) => {
                let ghost all = self@->Object_0;
                let mut i: usize = 0;
                while i < members.len()
                    invariant
                        i <= members@.len(),
                        self@ == PayloadView::Object(all),
                        all.len() == members@.len(),
                        forall|j: int|
                            0 <= j < all.len() ==> (#[trigger] all[j]).0 == members@[j].0@,
                        forall|j: int|
                            0 <= j < i ==> (#[trigger] all[j]).0 == a@ || all[j].0 == b@ || all[j].0
                                == c@,
                    decreases members@.len() - i,
                {
                    let name: &str = members[i].0.as_str();
                    assert(all[i as int].0 == name@);
                    if !same(name, a) && !same(name, b) && !same(name, c) {
                        proof {
                            if self@.has_only(a@, b@, c@) {
                                let members = self@->Object_0;
                                assert(members[i as int].0 == name@);
                            }
                        }
                        return false;
                    }
                    i = i + 1;
                }
                true
            },
            _ => false,
        }
    }

    /// Whether the member with a given name is a text that is not empty.
    pub fn gives_text(&self, name: &str) -> (r: bool)
        ensures
            r == self@.has_text(name@),
    {
        match self.get_text(name) {
            Some(s) => !s.as_str().is_empty(),
            None => false,
        }
    }

    /// Whether the member with a given name is one of three texts.
    pub fn gives_one_of(&self, name: &str, a: &str, b: &str, c: &str) -> (r: bool)
        ensures
            r == self@.has_one_of(name@, a@, b@, c@),
    {
        match self.get_text(name) {
            Some(s) => same(s.as_str(), a) || same(s.as_str(), b) || same(s.as_str(), c),
            None => false,
        }
    }

    /// Whether the member with a given name is a number.
    pub fn gives_number(&self, name: &str) -> (r: bool)
        ensures
            r == self@.has_number(name@),
    {
        match self.get(name) {
            Some(Payload::Number(_)) => true,
            _ => false,
        }
    }

    /// Whether the member with a given name is the text of an instant.
    pub fn gives_time(&self, name: &str) -> (r: bool)
        ensures
            r == self@.has_time(name@),
    {
        match self.get_text(name) {
            Some(s) => Timestamp::parse(s.as_str()).is_some(),
            None => false,
        }
    }

    /// Whether the member with a given name is a list of texts, none of which occurs
    /// twice.
    pub fn gives_text_set(&self, name: &str) -> (r: bool)
        ensures
            r == self@.has_text_set(name@),
    {
        match self.get(name) {
            Some(list) => match list {
                Payload::List(items) => {
                    let ghost all = list@->List_0;
                    let mut seen: Vec<String> = Vec::new();
                    let mut i: usize = 0;
                    while i < items.len()
                        invariant
                            i <= items@.len(),
                            i == seen@.len(),
                            all.len() == items@.len(),
                            self@.field(name@) == Some(PayloadView::List(all)),
                            forall|j: int|
                                0 <= j < all.len() ==> #[trigger] all[j] == items@[j]@,
                            forall|j: int|
                                0 <= j < i ==> #[trigger] all[j] == PayloadView::Text(
                                    views(seen@)[j],
                                ),
                            views(seen@).no_duplicates(),
                        decreases items@.len() - i,
                    {
                        let ghost before = views(seen@);
                        assert(all[i as int] == items@[i as int]@);
                        match &items[i] {
                            Payload::Text(s) => {
                                if holds_text(&seen, s.as_str()) {
                                    proof {
                                        let j = before.index_of(s@);
                                        assert(all[j] == all[i as int]);
                                        assert(!all.no_duplicates());
                                    }
                                    return false;
                                }
                                seen.push(s.clone());
                                assert(views(seen@) =~= before.push(s@));
                            },
                            _ => {
                                assert(!(all[i as int] is Text));
                                return false;
                            },
                        }
                        i = i + 1;
                    }
                    proof {
                        assert forall|j: int, k: int|
                            0 <= j < all.len() && 0 <= k < all.len() && j != k implies all[j]
                            != all[k] by {
                            assert(all[j] == PayloadView::Text(views(seen@)[j]));
                            assert(all[k] == PayloadView::Text(views(seen@)[k]));
                        }
                    }
                    true
                },
                _ => false,
            },
            None => false,
        }
    }
}

/// The value is an object in which exactly one member has this name, and it is `v`.
pub open spec fn has_member(p: PayloadView, name: Seq<char>, v: PayloadView) -> bool {
    p matches PayloadView::Object(members) && exists|i: int| is_only_member(members, name, v, i)
}

/// The member at position `i` is the only one of its name, and has the value `v`.
pub open spec fn is_only_member(
    members: Seq<(Seq<char>, PayloadView)>,
    name: Seq<char>,
    v: PayloadView,
    i: int,
) -> bool {
    &&& 0 <= i < members.len()
    &&& members[i] == (name, v)
    &&& forall|j: int| 0 <= j < members.len() && j != i ==> (#[trigger] members[j]).0 != name
}

/// No two members have the same name.
pub open spec fn names_differ(p: PayloadView) -> bool {
    p matches PayloadView::Object(members) ==> forall|i: int, j: int|
        0 <= i < j < members.len() ==> (#[trigger] members[i]).0 != (#[trigger] members[j]).0
}

proof fn lemma_member_at(members: Seq<(Seq<char>, PayloadView)>, name: Seq<char>, i: int)
    requires
        0 <= i < members.len(),
        members[i].0 == name,
        forall|j: int| 0 <= j < i ==> (#[trigger] members[j]).0 != name,
    ensures
        member(members, name) == Some(members[i].1),
    decreases i,
{
    if i > 0 {
        assert(members[0].0 != name);
        let rest = members.skip(1);
        assert(rest[i - 1] == members[i]);
        assert forall|j: int| 0 <= j < i - 1 implies (#[trigger] rest[j]).0 != name by {
            assert(rest[j] == members[j + 1]);
        }
        lemma_member_at(rest, name, i - 1);
    }
}

proof fn lemma_member_found(members: Seq<(Seq<char>, PayloadView)>, name: Seq<char>)
    ensures
        match member(members, name) {
            Some(v) => exists|i: int|
                0 <= i < members.len() && #[trigger] members[i] == (name, v) && forall|j: int|
                    0 <= j < i ==> (#[trigger] members[j]).0 != name,
            None => forall|i: int|
                0 <= i < members.len() ==> (#[trigger] members[i]).0 != name,
        },
    decreases members.len(),
{
    if members.len() > 0 {
        if members[0].0 == name {
            assert(members[0] == (name, members[0].1));
        } else {
            let rest = members.skip(1);
            lemma_member_found(rest, name);
            match member(rest, name) {
                Some(v) => {
                    let i = choose|i: int|
                        0 <= i < rest.len() && #[trigger] rest[i] == (name, v) && forall|j: int|
                            0 <= j < i ==> (#[trigger] rest[j]).0 != name;
                    assert(members[i + 1] == (name, v));
                    assert forall|j: int| 0 <= j < i + 1 implies (#[trigger] members[j]).0
                        != name by {
                        if j > 0 {
                            assert(rest[j - 1] == members[j]);
                        }
                    }
                },
                None => {
                    assert forall|j: int| 0 <= j < members.len() implies (
                    #[trigger] members[j]).0 != name by {
                        if j > 0 {
                            assert(rest[j - 1] == members[j]);
                        }
                    }
                },
            }
        }
    }
}

/// Reading a field of an object gives the value of the first member of that name, and
/// nothing where there is none or the value is no object.
pub proof fn a_field_is_the_first_member_of_its_name(p: PayloadView, name: Seq<char>)
    ensures
        match p {
            PayloadView::Object(members) => match p.field(name) {
                Some(v) => exists|i: int|
                    0 <= i < members.len() && #[trigger] members[i] == (name, v) && forall|j: int|
                        0 <= j < i ==> (#[trigger] members[j]).0 != name,
                None => forall|i: int|
                    0 <= i < members.len() ==> (#[trigger] members[i]).0 != name,
            },
            _ => p.field(name) is None,
        },
{
    if let PayloadView::Object(members) = p {
        lemma_member_found(members, name);
    }
}

/// Where names differ, a field has a value exactly if the object has that member.
pub proof fn a_field_is_a_member(p: PayloadView, name: Seq<char>, v: PayloadView)
    ensures
        has_member(p, name, v) ==> p.field(name) == Some(v),
        names_differ(p) && p.field(name) == Some(v) ==> has_member(p, name, v),
{
    if has_member(p, name, v) {
        let members = p->Object_0;
        let i = choose|i: int| is_only_member(members, name, v, i);
        lemma_member_at(members, name, i);
    }
    if names_differ(p) && p.field(name) == Some(v) {
        let members = p->Object_0;
        lemma_member_found(members, name);
        let i = choose|i: int|
            0 <= i < members.len() && #[trigger] members[i] == (name, v) && forall|j: int|
                0 <= j < i ==> (#[trigger] members[j]).0 != name;
        assert(is_only_member(members, name, v, i));
    }
}

/// What is read from a field is what the member of that name holds, if it is of the kind
/// asked for, and the default otherwise.
pub proof fn fields_are_read_as_what_they_are(
    p: PayloadView,
    name: Seq<char>,
    v: PayloadView,
    text: Seq<char>,
    number: Double,
    time: Timestamp,
)
    requires
        has_member(p, name, v),
    ensures
        v matches PayloadView::Text(s) ==> p.text_or(name, text) == s && p.has_text(name) == (
        s.len() > 0) && p.has_time(name) == (parsed_time(s) is Some) && (parsed_time(s) is Some
            ==> p.time_or(name, time) == parsed_time(s)->0) && (parsed_time(s) is None
            ==> p.time_or(name, time) == time) && !p.has_number(name),
        v matches PayloadView::Number(n) ==> p.number_or(name, number) == n && p.has_number(name)
            && p.text_or(name, text) == text && !p.has_text(name) && !p.has_time(name),
        !(v is Text) ==> p.text_or(name, text) == text && p.time_or(name, time) == time,
        !(v is Number) ==> p.number_or(name, number) == number,
{
    a_field_is_a_member(p, name, v);
}

/// The texts in a list of texts are all its items, in their order; items that are no
/// texts are left out and change nothing.
pub proof fn the_texts_of_a_list(items: Seq<PayloadView>, last: PayloadView)
    ensures
        (forall|i: int| 0 <= i < items.len() ==> (#[trigger] items[i]) is Text) ==> texts_among(
            items,
        ) == items.map_values(|v: PayloadView| v->Text_0),
        last matches PayloadView::Text(s) ==> texts_among(items.push(last)) == texts_among(
            items,
        ).push(s),
        !(last is Text) ==> texts_among(items.push(last)) == texts_among(items),
        texts_among(Seq::empty()).len() == 0,
    decreases items.len(),
{
    assert(items.push(last).drop_last() =~= items);
    if items.len() > 0 {
        let shorter = items.drop_last();
        the_texts_of_a_list(shorter, last);
        if forall|i: int| 0 <= i < items.len() ==> (#[trigger] items[i]) is Text {
            assert forall|i: int| 0 <= i < shorter.len() implies (#[trigger] shorter[i]) is Text by {
                assert(shorter[i] == items[i]);
            }
            assert(items[items.len() - 1] is Text);
            assert(texts_among(items) =~= items.map_values(|v: PayloadView| v->Text_0));
        }
    } else {
        assert(texts_among(items) =~= items.map_values(|v: PayloadView| v->Text_0));
    }
}

/// A payload holds what it is made of: texts as they are, and the items of lists and the
/// members of objects in their places.
pub proof fn payloads_hold_what_they_are_made_of(
    s: String,
    n: Double,
    b: bool,
    items: Vec<Payload>,
    members: Vec<(String, Payload)>,
    i: int,
    j: int,
)
    requires
        0 <= i < items@.len(),
        0 <= j < members@.len(),
    ensures
        Payload::Null@ == PayloadView::Null,
        Payload::Bool(b)@ == PayloadView::Bool(b),
        Payload::Number(n)@ == PayloadView::Number(n),
        Payload::Text(s)@ == PayloadView::Text(s@),
        Payload::List(items)@ matches PayloadView::List(v) && v.len() == items@.len() && v[i]
            == items@[i]@,
        Payload::Object(members)@ matches PayloadView::Object(v) && v.len() == members@.len()
            && v[j] == (members@[j].0@, members@[j].1@),
{
}

} // verus!
