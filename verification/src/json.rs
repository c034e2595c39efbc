//! JSON documents as the agent reads them: records of texts and counts.

use vstd::prelude::*;
use crate::text::same;

verus! {

/// A JSON value. Of a number it holds what reading it as an unsigned integer gives.
pub enum Json {
    Null,
    Bool(bool),
    Number(Option<u64>),
    Text(Seq<char>),
    List(Seq<Json>),
    Object(Seq<(Seq<char>, Json)>),
}

/// The document model of `serde_json`.
#[verifier::external_type_specification]
#[verifier::external_body]
pub struct ExValue(serde_json::Value);

/// The value that a `serde_json::Value` holds, the members of an object in the order in which
/// the object's map hands them out.
pub uninterp spec fn held(v: serde_json::Value) -> Json;

/// The document that `serde_json` reads from a text, if the text is one JSON value.
pub uninterp spec fn document(text: Seq<char>) -> Option<Json>;

/// One value taken apart one level deep.
enum Node {
    Null,
    Bool(bool),
    Number(Option<u64>),
    Text(String),
    List(Vec<serde_json::Value>),
    Object(Vec<(String, serde_json::Value)>),
}

/// The value that a `Node` was made from.
spec fn whole(n: Node) -> Json {
    match n {
        Node::Null => Json::Null,
        Node::Bool(b) => Json::Bool(b),
        Node::Number(u) => Json::Number(u),
        Node::Text(s) => Json::Text(s@),
        Node::List(l) => Json::List(l@.map_values(|v: serde_json::Value| held(v))),
        Node::Object(m) => Json::Object(
            m@.map_values(|e: (String, serde_json::Value)| (e.0@, held(e.1))),
        ),
    }
}

/// Calls `serde_json::from_str` for a `Value`. The result is the document that the text writes;
/// nothing comes back where `serde_json` reports an error.
#[verifier::external_body]
fn parse(text: &str) -> (r: Option<serde_json::Value>)
    ensures
        match r {
            Some(v) => document(text@) == Some(held(v)),
            None => document(text@) is None,
        },
{
    serde_json::from_str::<serde_json::Value>(text).ok()
}

/// Tells the variants of a `serde_json::Value` apart and copies what the variant holds; a number
/// goes through `serde_json::Number::as_u64`, an object's map hands out its members in its own
/// order, each key once.
#[verifier::external_body]
fn take_apart(v: &serde_json::Value) -> (r: Node)
    ensures
        whole(r) == held(*v),
        r matches Node::Object(m) ==> forall|i: int, j: int|
            0 <= i < j < m@.len() ==> m@[i].0@ != m@[j].0@,
{
    match v {
        serde_json::Value::Null => Node::Null,
        serde_json::Value::Bool(b) => Node::Bool(*b),
        serde_json::Value::Number(n) => Node::Number(n.as_u64()),
        serde_json::Value::String(s) => Node::Text(s.clone()),
        serde_json::Value::Array(l) => Node::List(l.clone()),
        serde_json::Value::Object(m) => Node::Object(m.clone().into_iter().collect()),
    }
}

/// What a member of a record is worth to the agent.
pub enum Scalar {
    /// A JSON string.
    Text(String),
    /// A JSON number that is an unsigned integer.
    Count(u64),
    /// Anything else.
    Other,
}

/// What a `Scalar` holds.
pub enum ScalarView {
    Text(Seq<char>),
    Count(u64),
    Other,
}

impl View for Scalar {
    type V = ScalarView;

    open spec fn view(&self) -> ScalarView {
        match self {
            Scalar::Text(s) => ScalarView::Text(s@),
            Scalar::Count(n) => ScalarView::Count(*n),
            Scalar::Other => ScalarView::Other,
        }
    }
}

/// A member of a record.
pub struct Member {
    pub key: String,
    pub value: Scalar,
}

/// The members of a JSON object; empty for any other JSON value.
pub struct Record {
    pub members: Vec<Member>,
}

impl View for Record {
    type V = Seq<(Seq<char>, ScalarView)>;

    open spec fn view(&self) -> Seq<(Seq<char>, ScalarView)> {
        self.members@.map_values(|m: Member| (m.key@, m.value@))
    }
}

/// The scalar that a value is read as.
pub open spec fn scalar_in(j: Json) -> ScalarView {
    match j {
        Json::Text(s) => ScalarView::Text(s),
        Json::Number(Some(n)) => ScalarView::Count(n),
        _ => ScalarView::Other,
    }
}

/// The record that a value is read as.
pub open spec fn record_in(j: Json) -> Seq<(Seq<char>, ScalarView)> {
    match j {
        Json::Object(m) => m.map_values(|e: (Seq<char>, Json)| (e.0, scalar_in(e.1))),
        _ => Seq::empty(),
    }
}

/// No key stands twice.
pub open spec fn keys_differ(r: Seq<(Seq<char>, ScalarView)>) -> bool {
    forall|i: int, j: int| 0 <= i < j < r.len() ==> (#[trigger] r[i]).0 != (#[trigger] r[j]).0
}

/// `r` has a member `key` with value `v`.
pub open spec fn has_member(r: Seq<(Seq<char>, ScalarView)>, key: Seq<char>, v: ScalarView) -> bool {
    r.contains((key, v))
}

/// The number under `key`, if there is one.
pub open spec fn count_at(r: Seq<(Seq<char>, ScalarView)>, key: Seq<char>) -> Option<u64> {
    if exists|n: u64| has_member(r, key, ScalarView::Count(n)) {
        Some(choose|n: u64| has_member(r, key, ScalarView::Count(n)))
    } else {
        None
    }
}

/// The text under `key`, if there is one.
pub open spec fn text_at(r: Seq<(Seq<char>, ScalarView)>, key: Seq<char>) -> Option<Seq<char>> {
    if exists|s: Seq<char>| has_member(r, key, ScalarView::Text(s)) {
        Some(choose|s: Seq<char>| has_member(r, key, ScalarView::Text(s)))
    } else {
        None
    }
}

impl Record {
    /// Each key stands once.
    pub open spec fn wf(&self) -> bool {
        keys_differ(self@)
    }

    /// The position of `key`.
    fn position(&self, key: &str) -> (r: Option<usize>)
        ensures
            match r {
                Some(i) => i < self@.len() && self@[i as int].0 == key@,
                None => forall|i: int| 0 <= i < self@.len() ==> (#[trigger] self@[i]).0 != key@,
            },
    {
        let mut i: usize = 0;
        while i < self.members.len()
            invariant
                i <= self.members@.len(),
                forall|j: int| 0 <= j < i ==> (#[trigger] self@[j]).0 != key@,
            decreases self.members@.len() - i,
        {
            if same(self.members[i].key.as_str(), key) {
                return Some(i);
            }
            assert(self@[i as int].0 != key@);
            i = i + 1;
        }
        None
    }

    /// The number under `key`.
    pub fn count(&self, key: &str) -> (r: Option<u64>)
        requires
            self.wf(),
        ensures
            r == count_at(self@, key@),
    {
        match self.position(key) {
            Some(i) => {
                assert(self@[i as int] == (key@, self.members@[i as int].value@));
                assert forall|v: ScalarView| has_member(self@, key@, v) implies v
                    == self@[i as int].1 by {}
                match &self.members[i].value {
                    Scalar::Count(n) => {
                        assert(has_member(self@, key@, ScalarView::Count(*n)));
                        Some(*n)
                    },
                    _ => None,
                }
            },
            None => None,
        }
    }

    /// The text under `key`.
    pub fn text(&self, key: &str) -> (r: Option<&str>)
        requires
            self.wf(),
        ensures
            r is Some <==> text_at(self@, key@) is Some,
            r is Some ==> Some(r->0@) == text_at(self@, key@),
    {
        match self.position(key) {
            Some(i) => {
                assert(self@[i as int] == (key@, self.members@[i as int].value@));
                assert forall|v: ScalarView| has_member(self@, key@, v) implies v
                    == self@[i as int].1 by {}
                match &self.members[i].value {
                    Scalar::Text(s) => {
                        assert(has_member(self@, key@, ScalarView::Text(s@)));
                        Some(s.as_str())
                    },
                    _ => None,
                }
            },
            None => None,
        }
    }
}

/// Reads one value as a scalar.
fn scalar_of(v: &serde_json::Value) -> (r: Scalar)
    ensures
        r@ == scalar_in(held(*v)),
{
    match take_apart(v) {
        Node::Text(s) => Scalar::Text(s),
        Node::Number(Some(n)) => Scalar::Count(n),
        _ => Scalar::Other,
    }
}

/// Reads one value as a record.
fn record_of(v: &serde_json::Value) -> (r: Record)
    ensures
        r@ == record_in(held(*v)),
        r.wf(),
{
    let mut members: Vec<Member> = Vec::new();
    match take_apart(v) {
        Node::Object(m) => {
            let ghost model = held(*v)->Object_0;
            let mut i: usize = 0;
            while i < m.len()
                invariant
                    i <= m@.len(),
                    model == m@.map_values(|e: (String, serde_json::Value)| (e.0@, held(e.1))),
                    members@.len() == i,
                    forall|j: int|
                        0 <= j < i ==> (#[trigger] members@[j]).key@ == model[j].0
                            && members@[j].value@ == scalar_in(model[j].1),
                decreases m@.len() - i,
            {
                let value: Scalar = scalar_of(&m[i].1);
                members.push(Member { key: m[i].0.clone(), value });
                i = i + 1;
            }
            let r: Record = Record { members };
            assert(r@ =~= record_in(held(*v)));
            assert forall|i: int, j: int| 0 <= i < j < r@.len() implies (#[trigger] r@[i]).0 != (
            #[trigger] r@[j]).0 by {
                assert(r@[i].0 == m@[i].0@);
                assert(r@[j].0 == m@[j].0@);
            }
            r
        },
        _ => {
            let r: Record = Record { members };
            assert(r@ =~= record_in(held(*v)));
            r
        },
    }
}

/// The record that a text writes, if it is a JSON document.
pub open spec fn record_text(text: Seq<char>) -> Option<Seq<(Seq<char>, ScalarView)>> {
    match document(text) {
        Some(j) => Some(record_in(j)),
        None => None,
    }
}

/// The records that a text writes, if it is a JSON list.
pub open spec fn list_text(text: Seq<char>) -> Option<Seq<Seq<(Seq<char>, ScalarView)>>> {
    match document(text) {
        Some(Json::List(l)) => Some(l.map_values(|j: Json| record_in(j))),
        _ => None,
    }
}

/// What a record, if there is one, holds.
pub open spec fn record_view(r: Option<Record>) -> Option<Seq<(Seq<char>, ScalarView)>> {
    match r {
        Some(rec) => Some(rec@),
        None => None,
    }
}

/// What an optional record holds.
pub open spec fn opt_record(r: Option<&Record>) -> Option<Seq<(Seq<char>, ScalarView)>> {
    match r {
        Some(rec) => Some(rec@),
        None => None,
    }
}

/// Reads a JSON document as a record.
pub fn parse_record(text: &str) -> (r: Option<Record>)
    ensures
        record_view(r) == record_text(text@),
        r is Some ==> r->0.wf(),
{
    match parse(text) {
        Some(v) => Some(record_of(&v)),
        None => None,
    }
}

/// Reads a JSON list as a list of records.
pub fn parse_list(text: &str) -> (r: Option<Vec<Record>>)
    ensures
        r is Some <==> list_text(text@) is Some,
        r is Some ==> r->0@.map_values(|rec: Record| rec@) == list_text(text@)->0 && forall|i: int|
            0 <= i < r->0@.len() ==> (#[trigger] r->0@[i]).wf(),
{
    match parse(text) {
        Some(v) => match take_apart(&v) {
            Node::List(l) => {
                let mut out: Vec<Record> = Vec::new();
                let ghost model = held(v)->List_0;
                let mut i: usize = 0;
                while i < l.len()
                    invariant
                        i <= l@.len(),
                        model == l@.map_values(|x: serde_json::Value| held(x)),
                        out@.len() == i,
                        forall|j: int|
                            0 <= j < i ==> (#[trigger] out@[j])@ == record_in(model[j])
                                && out@[j].wf(),
                    decreases l@.len() - i,
                {
                    out.push(record_of(&l[i]));
                    i = i + 1;
                }
                assert(out@.map_values(|rec: Record| rec@) =~= list_text(text@)->0);
                Some(out)
            },
            _ => None,
        },
        None => None,
    }
}

} // verus!
