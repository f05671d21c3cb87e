//! How what the monitor announces is handed out.

use vstd::prelude::*;

verus! {

/// A step in the handing out of an event. A step that fails is passed over.
#[derive(Debug, PartialEq, Eq)]
pub enum Delivery {
    /// Write this to the file.
    Write(String),
    /// Send the event to the receiver of this number.
    Send(usize),
}

/// The model of a step.
pub enum DeliveryView {
    /// Write this to the file.
    Write(Seq<char>),
    /// Send the event to the receiver of this number.
    Send(int),
}

impl View for Delivery {
    type V = DeliveryView;

    open spec fn view(&self) -> DeliveryView {
        match self {
            Delivery::Write(text) => DeliveryView::Write(text@),
            Delivery::Send(receiver) => DeliveryView::Send(*receiver as int),
        }
    }
}

/// The models of some steps.
pub open spec fn step_views(steps: Seq<Delivery>) -> Seq<DeliveryView> {
    steps.map_values(|step: Delivery| step@)
}

/// An event in the file: its text, and two line ends after it.
pub open spec fn event_record(event: Seq<char>) -> Seq<char> {
    event + "\n\n"@
}

/// How an event is handed out: it is written to the file, where there is one,
/// with two line ends after it, and sent to every receiver in turn.
pub open spec fn deliveries(event: Seq<char>, file: bool, receivers: nat) -> Seq<DeliveryView> {
    (if file {
        seq![DeliveryView::Write(event), DeliveryView::Write("\n\n"@)]
    } else {
        Seq::empty()
    }) + Seq::new(receivers, |i: int| DeliveryView::Send(i))
}

/// How an event is handed out.
pub fn plan_delivery(event: &String, file: bool, receivers: usize) -> (steps: Vec<Delivery>)
    ensures
        step_views(steps@) == deliveries(event@, file, receivers as nat),
{
    let mut steps: Vec<Delivery> = Vec::new();
    if file {
        steps.push(Delivery::Write(event.clone()));
        steps.push(Delivery::Write("\n\n".to_owned()));
    }
    assert(step_views(steps@) =~= deliveries(event@, file, 0));
    let mut i: usize = 0;
    while i < receivers
        invariant
            i <= receivers,
            step_views(steps@) == deliveries(event@, file, i as nat),
        decreases receivers - i,
    {
        let ghost before = steps@;
        steps.push(Delivery::Send(i));
        assert(step_views(steps@) =~= step_views(before).push(DeliveryView::Send(i as int)));
        assert(step_views(steps@) =~= deliveries(event@, file, (i + 1) as nat));
        i = i + 1;
    }
    steps
}

/// What some steps write, where none of them fails.
pub open spec fn written(steps: Seq<DeliveryView>) -> Seq<char>
    decreases steps.len(),
{
    if steps.len() == 0 {
        Seq::empty()
    } else {
        written(steps.drop_last()) + match steps.last() {
            DeliveryView::Write(text) => text,
            DeliveryView::Send(_) => Seq::empty(),
        }
    }
}

/// Every event is written as one record to the file, where there is one, and
/// is sent to every receiver once.
pub proof fn law_events_reach_all(event: Seq<char>, file: bool, receivers: nat)
    ensures
        written(deliveries(event, file, receivers)) == if file {
            event + "\n\n"@
        } else {
            Seq::empty()
        },
        deliveries(event, file, receivers).skip(
            if file {
                2
            } else {
                0
            },
        ) == Seq::new(receivers, |i: int| DeliveryView::Send(i)),
    decreases receivers,
{
    let steps = deliveries(event, file, receivers);
    let first: int = if file {
        2
    } else {
        0
    };
    assert(steps.skip(first) =~= Seq::new(receivers, |i: int| DeliveryView::Send(i)));
    if receivers == 0 {
        reveal_with_fuel(written, 3);
        if file {
            assert(steps.drop_last() =~= seq![DeliveryView::Write(event)]);
            assert(steps.drop_last().drop_last() =~= Seq::empty());
            assert(written(steps) =~= event_record(event));
        }
    } else {
        law_events_reach_all(event, file, (receivers - 1) as nat);
        assert(steps.drop_last() =~= deliveries(event, file, (receivers - 1) as nat));
        assert(written(steps) =~= written(steps.drop_last()));
    }
}

} // verus!
