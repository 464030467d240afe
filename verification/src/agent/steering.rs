//! Messages that steer a turn while it runs.

use vstd::prelude::*;

verus! {

/// The messages that wait for a turn to take them up.
#[derive(Debug, PartialEq, Eq)]
pub struct SteeringState {
    messages: Vec<String>,
    reserved: Option<String>,
    delivering: bool,
    cancel_pending: bool,
    sealed: bool,
}

/// What a [`SteeringState`] holds: the waiting messages, the one set aside for the next request,
/// whether one is on its way, whether it is to be cancelled then, and whether no more are taken.
#[verifier::ext_equal]
pub struct SteeringView {
    pub messages: Seq<Seq<char>>,
    pub reserved: Option<Seq<char>>,
    pub delivering: bool,
    pub cancel_pending: bool,
    pub sealed: bool,
}

impl DeepView for SteeringState {
    type V = SteeringView;

    closed spec fn deep_view(&self) -> SteeringView {
        SteeringView {
            messages: self.messages.deep_view(),
            reserved: self.reserved.deep_view(),
            delivering: self.delivering,
            cancel_pending: self.cancel_pending,
            sealed: self.sealed,
        }
    }
}

/// What became of the attempt to set a steering message aside.
#[derive(Debug, PartialEq, Eq)]
pub enum SteeringInjection {
    /// This message is set aside.
    Pending(String),
    /// There was none.
    Empty,
    /// The turn was cancelled.
    Cancelled,
}

/// What a [`SteeringInjection`] holds.
#[verifier::ext_equal]
pub enum SteeringInjectionView {
    Pending(Seq<char>),
    Empty,
    Cancelled,
}

impl DeepView for SteeringInjection {
    type V = SteeringInjectionView;

    open spec fn deep_view(&self) -> SteeringInjectionView {
        match self {
            SteeringInjection::Pending(text) => SteeringInjectionView::Pending(text@),
            SteeringInjection::Empty => SteeringInjectionView::Empty,
            SteeringInjection::Cancelled => SteeringInjectionView::Cancelled,
        }
    }
}

/// The messages that were taken and neither delivered nor given back, in order.
pub open spec fn undelivered(s: SteeringView) -> Seq<Seq<char>> {
    match s.reserved {
        Some(text) => seq![text] + s.messages,
        None => s.messages,
    }
}

/// Nothing waits, and messages are taken.
pub open spec fn no_steering() -> SteeringView {
    SteeringView {
        messages: Seq::empty(),
        reserved: None,
        delivering: false,
        cancel_pending: false,
        sealed: false,
    }
}

/// A message comes: it waits, unless no more are taken.
pub open spec fn accepted(s: SteeringView, text: Seq<char>) -> SteeringView {
    if s.sealed {
        s
    } else {
        SteeringView { messages: s.messages.push(text), ..s }
    }
}

/// The first message is set aside; where there is none, the queue can be sealed.
pub open spec fn reserved_next(s: SteeringView, seal_when_empty: bool) -> SteeringView {
    if s.messages.len() > 0 {
        SteeringView {
            messages: s.messages.skip(1),
            reserved: Some(s.messages[0]),
            ..s
        }
    } else {
        SteeringView { reserved: None, sealed: s.sealed || seal_when_empty, ..s }
    }
}

/// The message that was set aside goes on its way.
pub open spec fn delivery_begun(s: SteeringView) -> SteeringView {
    if s.reserved is Some {
        SteeringView { reserved: None, delivering: true, ..s }
    } else {
        s
    }
}

/// The turn is to be cancelled: what was set aside waits again; while a message is on its way, the
/// cancellation waits for it.
pub open spec fn cancel_asked(s: SteeringView) -> SteeringView {
    match s.reserved {
        Some(text) => SteeringView { messages: seq![text] + s.messages, reserved: None, ..s },
        None => if s.delivering {
            SteeringView { cancel_pending: true, ..s }
        } else {
            s
        },
    }
}

/// The cancellation takes effect at once.
pub open spec fn cancels_now(s: SteeringView) -> bool {
    s.reserved is Some || !s.delivering
}

/// The message has arrived.
pub open spec fn delivery_finished(s: SteeringView) -> SteeringView {
    SteeringView { delivering: false, cancel_pending: false, ..s }
}

/// No more messages are taken, and those that wait are given back.
pub open spec fn drained(s: SteeringView) -> SteeringView {
    SteeringView { messages: Seq::empty(), reserved: None, sealed: true, ..s }
}

impl Default for SteeringState {
    fn default() -> (res: Self)
        ensures
            res.deep_view() == no_steering(),
    {
        let res = SteeringState {
            messages: Vec::new(),
            reserved: None,
            delivering: false,
            cancel_pending: false,
            sealed: false,
        };
        assert(res.messages.deep_view() =~= Seq::<Seq<char>>::empty());
        res
    }
}

impl SteeringState {
    /// Takes a message, or gives it back where no more are taken.
    pub fn accept(&mut self, text: String) -> (res: Option<String>)
        ensures
            final(self).deep_view() == accepted(old(self).deep_view(), text@),
            res.deep_view() == (if old(self).deep_view().sealed {
                Some(text@)
            } else {
                None
            }),
    {
        if self.sealed {
            Some(text)
        } else {
            self.messages.push(text);
            assert(self.messages.deep_view() =~= old(self).messages.deep_view().push(text@));
            None
        }
    }

    /// Sets the first message aside, and says whether there was one.
    pub fn reserve(&mut self, seal_when_empty: bool) -> (res: bool)
        ensures
            final(self).deep_view() == reserved_next(old(self).deep_view(), seal_when_empty),
            res == (old(self).deep_view().messages.len() > 0),
    {
        if self.messages.len() > 0 {
            let text = self.messages.remove(0);
            self.reserved = Some(text);
            assert(self.messages.deep_view() =~= old(self).messages.deep_view().skip(1));
            true
        } else {
            self.reserved = None;
            if seal_when_empty {
                self.sealed = true;
            }
            false
        }
    }

    /// Sends the message that was set aside on its way.
    pub fn begin_delivery(&mut self) -> (res: Option<String>)
        ensures
            final(self).deep_view() == delivery_begun(old(self).deep_view()),
            res.deep_view() == old(self).deep_view().reserved,
    {
        let text = self.reserved.take();
        if text.is_some() {
            self.delivering = true;
        }
        text
    }

    /// The message that is set aside.
    pub fn reserved(&self) -> (res: Option<String>)
        ensures
            res.deep_view() == self.deep_view().reserved,
    {
        self.reserved.clone()
    }

    /// Cancels the turn, and says whether that takes effect at once.
    pub fn cancel(&mut self) -> (res: bool)
        ensures
            final(self).deep_view() == cancel_asked(old(self).deep_view()),
            res == cancels_now(old(self).deep_view()),
    {
        if let Some(text) = self.reserved.take() {
            self.messages.insert(0, text);
            assert(self.messages.deep_view() =~= seq![text@] + old(self).messages.deep_view());
            true
        } else if self.delivering {
            self.cancel_pending = true;
            false
        } else {
            true
        }
    }

    /// Ends a delivery, and says whether the turn is to be cancelled now.
    pub fn finish_delivery(&mut self) -> (res: bool)
        ensures
            final(self).deep_view() == delivery_finished(old(self).deep_view()),
            res == old(self).deep_view().cancel_pending,
    {
        let cancel = self.cancel_pending;
        self.delivering = false;
        self.cancel_pending = false;
        cancel
    }

    /// Gives a delivery up; the turn is cancelled.
    pub fn abort_delivery(&mut self)
        ensures
            final(self).deep_view() == delivery_finished(old(self).deep_view()),
    {
        self.delivering = false;
        self.cancel_pending = false;
    }

    /// Takes no more messages, and gives back those that wait.
    pub fn seal_and_drain(&mut self) -> (res: Vec<String>)
        ensures
            final(self).deep_view() == drained(old(self).deep_view()),
            res.deep_view() == undelivered(old(self).deep_view()),
    {
        self.sealed = true;
        if let Some(text) = self.reserved.take() {
            self.messages.insert(0, text);
            assert(self.messages.deep_view() =~= seq![text@] + old(self).messages.deep_view());
        }
        let mut messages: Vec<String> = Vec::new();
        let ghost waiting = self.messages.deep_view();
        messages.append(&mut self.messages);
        assert(messages.deep_view() =~= waiting);
        assert(self.messages.deep_view() =~= Seq::<Seq<char>>::empty());
        messages
    }
}

/// Whether the next message can be set aside, unless the turn was cancelled.
pub open spec fn injection(s: SteeringView, cancelled: bool) -> SteeringInjectionView {
    if cancelled {
        SteeringInjectionView::Cancelled
    } else if s.messages.len() > 0 {
        SteeringInjectionView::Pending(s.messages[0])
    } else {
        SteeringInjectionView::Empty
    }
}

/// Sets the next message aside, unless the turn was cancelled.
pub fn reserve_next_steering(
    steering: &mut SteeringState,
    cancelled: bool,
    seal_when_empty: bool,
) -> (res: SteeringInjection)
    ensures
        res.deep_view() == injection(old(steering).deep_view(), cancelled),
        final(steering).deep_view() == (if cancelled {
            old(steering).deep_view()
        } else {
            reserved_next(old(steering).deep_view(), seal_when_empty)
        }),
{
    if cancelled {
        return SteeringInjection::Cancelled;
    }
    if !steering.reserve(seal_when_empty) {
        return SteeringInjection::Empty;
    }
    match steering.reserved() {
        Some(text) => SteeringInjection::Pending(text),
        None => SteeringInjection::Empty,
    }
}

/// Sends the message that was set aside on its way, unless the turn was cancelled.
pub fn take_steering(steering: &mut SteeringState, cancelled: bool) -> (res: Option<String>)
    ensures
        res.deep_view() == (if cancelled {
            None
        } else {
            old(steering).deep_view().reserved
        }),
        final(steering).deep_view() == (if cancelled {
            old(steering).deep_view()
        } else {
            delivery_begun(old(steering).deep_view())
        }),
{
    if cancelled {
        None
    } else {
        steering.begin_delivery()
    }
}

/// What can happen to a queue of steering messages.
pub enum SteeringStep {
    Accept(Seq<char>),
    Reserve(bool),
    Begin,
    Cancel,
    Finish,
    Drain,
}

/// A queue with its past: the messages that it took, and those that left it, in order.
#[verifier::ext_equal]
pub struct SteeringRun {
    pub state: SteeringView,
    pub taken: Seq<Seq<char>>,
    pub left: Seq<Seq<char>>,
}

/// One thing happens.
pub open spec fn steered(run: SteeringRun, step: SteeringStep) -> SteeringRun {
    let s = run.state;
    match step {
        SteeringStep::Accept(text) => SteeringRun {
            state: accepted(s, text),
            taken: if s.sealed {
                run.taken
            } else {
                run.taken.push(text)
            },
            ..run
        },
        SteeringStep::Reserve(seal) => SteeringRun { state: reserved_next(s, seal), ..run },
        SteeringStep::Begin => SteeringRun {
            state: delivery_begun(s),
            left: match s.reserved {
                Some(text) => run.left.push(text),
                None => run.left,
            },
            ..run
        },
        SteeringStep::Cancel => SteeringRun { state: cancel_asked(s), ..run },
        SteeringStep::Finish => SteeringRun { state: delivery_finished(s), ..run },
        SteeringStep::Drain => SteeringRun {
            state: drained(s),
            left: run.left + undelivered(s),
            ..run
        },
    }
}

/// Many things happen. A message is set aside only while none is.
pub open spec fn steered_by(steps: Seq<SteeringStep>) -> SteeringRun
    decreases steps.len(),
{
    if steps.len() == 0 {
        SteeringRun { state: no_steering(), taken: Seq::empty(), left: Seq::empty() }
    } else {
        steered(steered_by(steps.drop_last()), steps.last())
    }
}

/// Whenever a message is set aside, none was.
pub open spec fn reserves_in_turn(steps: Seq<SteeringStep>) -> bool {
    forall|i: int|
        0 <= i < steps.len() && (#[trigger] steps[i]) is Reserve ==> steered_by(
            steps.take(i),
        ).state.reserved is None
}

/// No steering message is lost, repeated or overtaken: at all times the messages that were taken
/// are those that left, delivered or given back, followed by those that still wait.
pub proof fn lemma_steering_messages_are_kept(steps: Seq<SteeringStep>)
    requires
        reserves_in_turn(steps),
    ensures
        ({
            let run = steered_by(steps);
            run.taken == run.left + undelivered(run.state)
        }),
    decreases steps.len(),
{
    if steps.len() > 0 {
        let before = steps.drop_last();
        assert forall|i: int| 0 <= i < before.len() && (#[trigger] before[i]) is Reserve implies
            steered_by(before.take(i)).state.reserved is None by {
            assert(before[i] == steps[i]);
            assert(before.take(i) =~= steps.take(i));
        }
        lemma_steering_messages_are_kept(before);
        let run = steered_by(before);
        let next = steered_by(steps);
        let last = steps[steps.len() - 1];
        assert(steps.take(steps.len() - 1) =~= before);
        assert(next.taken =~= next.left + undelivered(next.state));
    }
}

/// A cancellation is never forgotten: it takes effect at once, or when the delivery ends.
pub proof fn lemma_cancellation_takes_effect(s: SteeringView)
    ensures
        cancels_now(s) || cancel_asked(s).cancel_pending,
{
}

} // verus!
