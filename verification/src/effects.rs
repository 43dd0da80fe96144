//! What a step asks to be done, in order: records, messages, answers and lines to print.

use crate::audit;
use crate::audit::{field_map, AuditValue, AuditValueView};
use crate::manager::{Delivery, DeliveryView};
use crate::proto::{DaemonMsg, DaemonMsgView};
use crate::table::StrMap;
use vstd::prelude::*;

verus! {

/// One thing to do.
#[derive(Debug, PartialEq, Eq)]
pub enum Effect {
    /// Write an audit record. Where that fails, nothing further is done and the step fails.
    Audit { event: String, fields: StrMap<AuditValue> },
    /// Write an audit record, if that can be done.
    Note { event: String, fields: StrMap<AuditValue> },
    /// Tell the relay, if it is connected.
    Relay(DaemonMsg),
    /// Answer a requester that waits.
    Deliver(Delivery),
    /// Print a line.
    Print(String),
    /// Write the identity to its file. Where that fails, nothing further is done and the step
    /// fails.
    SaveIdentity,
}

pub enum EffectView {
    Audit { event: Seq<char>, fields: Map<Seq<char>, AuditValueView> },
    Note { event: Seq<char>, fields: Map<Seq<char>, AuditValueView> },
    Relay(DaemonMsgView),
    Deliver(DeliveryView),
    Print(Seq<char>),
    SaveIdentity,
}

impl DeepView for Effect {
    type V = EffectView;

    open spec fn deep_view(&self) -> EffectView {
        match self {
            Effect::Audit { event, fields } => EffectView::Audit {
                event: event@,
                fields: field_map(*fields),
            },
            Effect::Note { event, fields } => EffectView::Note {
                event: event@,
                fields: field_map(*fields),
            },
            Effect::Relay(msg) => EffectView::Relay(msg.deep_view()),
            Effect::Deliver(d) => EffectView::Deliver(d.deep_view()),
            Effect::Print(s) => EffectView::Print(s@),
            Effect::SaveIdentity => EffectView::SaveIdentity,
        }
    }
}

/// One text field.
pub open spec fn text_field(name: Seq<char>, value: Seq<char>) -> Map<Seq<char>, AuditValueView> {
    Map::empty().insert(name, AuditValueView::Text(value))
}

/// Two text fields.
pub open spec fn text_fields(
    a: Seq<char>,
    x: Seq<char>,
    b: Seq<char>,
    y: Seq<char>,
) -> Map<Seq<char>, AuditValueView> {
    text_field(a, x).insert(b, AuditValueView::Text(y))
}

/// A table of one text field.
pub(crate) fn with_text(name: &str, value: &str) -> (r: StrMap<AuditValue>)
    ensures
        field_map(r) == text_field(name@, value@),
{
    let mut t: StrMap<AuditValue> = StrMap::new();
    assert(field_map(t) =~= Map::empty());
    audit::put(&mut t, name, AuditValue::Text(value.to_owned()));
    t
}

/// A table of two text fields.
pub(crate) fn with_texts(a: &str, x: &str, b: &str, y: &str) -> (r: StrMap<AuditValue>)
    ensures
        field_map(r) == text_fields(a@, x@, b@, y@),
{
    let mut t: StrMap<AuditValue> = with_text(a, x);
    audit::put(&mut t, b, AuditValue::Text(y.to_owned()));
    t
}

/// The answers that a decision owes, as effects.
pub open spec fn deliveries(told: Seq<DeliveryView>) -> Seq<EffectView> {
    told.map_values(|d: DeliveryView| EffectView::Deliver(d))
}

/// The answers that a decision owes, as effects.
pub(crate) fn deliver_all(told: Vec<Delivery>) -> (r: Vec<Effect>)
    ensures
        r.deep_view() == deliveries(told.deep_view()),
{
    let ghost all = told.deep_view();
    let mut rest: Vec<Delivery> = told;
    let mut out: Vec<Effect> = Vec::new();
    let ghost n = all.len();
    assert(rest.deep_view() == all);
    assert(all.skip(0) == all);
    while rest.len() > 0
        invariant
            n == all.len(),
            rest.len() <= n,
            rest.deep_view() == all.skip(n - rest.len()),
            out.deep_view() == deliveries(all.take(n - rest.len())),
        decreases rest.len(),
    {
        let ghost k = n - rest.len();
        let ghost before = out.deep_view();
        let ghost left = rest.deep_view();
        assert(left[0] == all[k]);
        assert(left[0] == rest@[0].deep_view());
        let d: Delivery = rest.remove(0);
        assert(rest.deep_view() == left.drop_first());
        assert(left.drop_first() == all.skip(k + 1));
        let effect = Effect::Deliver(d);
        let ghost added = effect.deep_view();
        out.push(effect);
        assert(out.deep_view() == before.push(added));
        assert(deliveries(all.take(k + 1)) == deliveries(all.take(k)).push(added));
    }
    assert(all.take(n as int) == all);
    out
}

/// Appends an effect.
pub(crate) fn then_do(effects: &mut Vec<Effect>, e: Effect)
    ensures
        final(effects).deep_view() == old(effects).deep_view().push(e.deep_view()),
{
    let ghost before = effects.deep_view();
    effects.push(e);
    assert(effects.deep_view() == before.push(e.deep_view()));
}

} // verus!
