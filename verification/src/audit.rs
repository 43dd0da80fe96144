//! Audit records: one event, when it was, and what it was about.

use crate::table::StrMap;
use crate::text;
use vstd::prelude::*;

verus! {

/// A value in a record.
#[derive(Debug, PartialEq, Eq)]
pub enum AuditValue {
    Flag(bool),
    Number(u64),
    Text(String),
    Texts(Vec<String>),
}

pub enum AuditValueView {
    Flag(bool),
    Number(u64),
    Text(Seq<char>),
    Texts(Seq<Seq<char>>),
}

impl DeepView for AuditValue {
    type V = AuditValueView;

    open spec fn deep_view(&self) -> AuditValueView {
        match self {
            AuditValue::Flag(b) => AuditValueView::Flag(*b),
            AuditValue::Number(n) => AuditValueView::Number(*n),
            AuditValue::Text(s) => AuditValueView::Text(s@),
            AuditValue::Texts(list) => AuditValueView::Texts(list.deep_view()),
        }
    }
}

impl AuditValue {
    /// A copy of the value.
    pub fn copy(&self) -> (r: AuditValue)
        ensures
            r.deep_view() == self.deep_view(),
    {
        match self {
            AuditValue::Flag(b) => AuditValue::Flag(*b),
            AuditValue::Number(n) => AuditValue::Number(*n),
            AuditValue::Text(s) => AuditValue::Text(s.clone()),
            AuditValue::Texts(list) => AuditValue::Texts(text::copy_all(list)),
        }
    }
}

/// What a table of values holds.
pub open spec fn field_map(t: StrMap<AuditValue>) -> Map<Seq<char>, AuditValueView> {
    t@.map_values(|v: AuditValue| v.deep_view())
}

/// What an event is about: named fields, or one value.
pub enum Fields {
    Object(StrMap<AuditValue>),
    Other(AuditValue),
}

/// The record of an event. Its fields stand beside the time and the event's name, and in place of
/// them where they are named so; a lone value is the field `fields`.
pub open spec fn audit_record(unix: u64, event: Seq<char>, fields: Fields) -> Map<
    Seq<char>,
    AuditValueView,
> {
    let base = Map::empty().insert("unix"@, AuditValueView::Number(unix)).insert(
        "event"@,
        AuditValueView::Text(event),
    );
    match fields {
        Fields::Object(t) => base.union_prefer_right(field_map(t)),
        Fields::Other(v) => base.insert("fields"@, v.deep_view()),
    }
}

/// Puts a field into a table.
pub fn put(t: &mut StrMap<AuditValue>, name: &str, value: AuditValue)
    ensures
        field_map(*final(t)) == field_map(*old(t)).insert(name@, value.deep_view()),
{
    let ghost before = field_map(*t);
    t.insert(name.to_owned(), value);
    assert(field_map(*t) =~= before.insert(name@, value.deep_view()));
}

/// The record of an event.
pub fn audit(unix: u64, event: &str, fields: &Fields) -> (r: StrMap<AuditValue>)
    ensures
        field_map(r) == audit_record(unix, event@, *fields),
{
    let mut r: StrMap<AuditValue> = StrMap::new();
    assert(field_map(r) =~= Map::empty());
    put(&mut r, "unix", AuditValue::Number(unix));
    put(&mut r, "event", AuditValue::Text(event.to_owned()));
    let ghost base = field_map(r);
    match fields {
        Fields::Object(t) => {
            let n: usize = t.len();
            let mut i: usize = 0;
            let ghost all = field_map(*t);
            assert(field_map(r) =~= base.union_prefer_right(
                all.restrict(Set::new(|k: Seq<char>| t.keys().take(0).contains(k))),
            ));
            while i < n
                invariant
                    i <= n,
                    n == t.keys().len(),
                    t.laid_out(),
                    all == field_map(*t),
                    field_map(r) == base.union_prefer_right(
                        all.restrict(Set::new(|k: Seq<char>| t.keys().take(i as int).contains(k))),
                    ),
                decreases n - i,
            {
                let ghost key = t.keys()[i as int];
                let ghost before = field_map(r);
                assert(t@.contains_key(key));
                let ghost some = Set::new(|k: Seq<char>| t.keys().take(i as int).contains(k));
                let ghost ahead = t.keys().take(i + 1);
                let ghost more = Set::new(|k: Seq<char>| ahead.contains(k));
                put(&mut r, t.key_at(i).as_str(), t.value_at(i).copy());
                assert(all[key] == t.values()[i as int].deep_view());
                assert forall|k: Seq<char>| more.contains(k) <==> some.contains(k) || k == key by {
                    if ahead.contains(k) {
                        let j = choose|j: int| 0 <= j < ahead.len() && ahead[j] == k;
                        if j < i {
                            assert(t.keys().take(i as int)[j] == k);
                        }
                    }
                    if t.keys().take(i as int).contains(k) {
                        let j = choose|j: int| 0 <= j < i && t.keys().take(i as int)[j] == k;
                        assert(ahead[j] == k);
                    }
                    assert(ahead[i as int] == key);
                }
                assert(field_map(r) =~= base.union_prefer_right(all.restrict(more)));
                i = i + 1;
            }
            proof {
                let whole = Set::new(|k: Seq<char>| t.keys().take(n as int).contains(k));
                assert(t.keys().take(n as int) == t.keys());
                assert forall|k: Seq<char>| all.contains_key(k) implies whole.contains(k) by {
                    assert(t@.contains_key(k));
                    let j = choose|j: int| 0 <= j < t.keys().len() && #[trigger] t.keys()[j] == k;
                    assert(t.keys()[j] == k);
                }
                assert(all.restrict(whole) =~= all);
            }
        },
        Fields::Other(v) => {
            put(&mut r, "fields", v.copy());
        },
    }
    r
}

} // verus!
