//! The animation state machine of the face: transitions between expressions,
//! interruption by priority, expiry and a queue of pending expressions.
//! Times are milliseconds on a clock that the caller reads.
use vstd::prelude::*;
use std::collections::VecDeque;
use crate::overlay::expressions::{
    is_preset, priority_above, priority_rank, same_expression, Expression, ExpressionKind,
};

verus! {

/// Queued animation waiting to play.
#[derive(Debug, Clone)]
pub struct QueuedAnimation {
    pub expression: Expression,
    pub queued_at: u64,
    pub start_time: Option<u64>,
}

/// What an animation state holds.
#[verifier::ext_equal]
pub struct AnimationView {
    /// Currently displayed expression
    pub current: Expression,
    /// Target expression (during a transition)
    pub target: Option<Expression>,
    /// Transition start time
    pub transition_start: Option<u64>,
    /// Transition duration
    pub transition_duration: u64,
    /// Pending animations, first to play first
    pub queue: Seq<QueuedAnimation>,
    /// When the current expression expires (none: it stays)
    pub expire_at: Option<u64>,
    /// Minimum time between expression changes (prevents flickering)
    pub min_change_duration: u64,
    /// Last time the expression changed
    pub last_change: u64,
}

/// Milliseconds from `then` to `now`; none when `now` is earlier.
pub open spec fn since(now: u64, then: u64) -> int {
    if now >= then {
        now - then
    } else {
        0
    }
}

/// When an expression shown from `now` expires: never when its duration is 0.
pub open spec fn expiry(e: Expression, now: u64) -> Option<u64> {
    if e.duration_ms > 0 {
        Some((now + e.duration_ms) as u64)
    } else {
        None
    }
}

/// A transition to `e` that starts at `now`.
pub open spec fn begin(v: AnimationView, e: Expression, now: u64) -> AnimationView {
    AnimationView {
        transition_start: Some(now),
        transition_duration: e.transition_ms,
        target: Some(e),
        last_change: now,
        ..v
    }
}

/// The expression on show: the target of a transition, else the current one.
pub open spec fn shown(v: AnimationView) -> Expression {
    match v.target {
        Some(t) => t,
        None => v.current,
    }
}

/// A transition is under way exactly when it has a start time.
pub open spec fn animation_wf(v: AnimationView) -> bool {
    v.target is Some <==> v.transition_start is Some
}

/// The current expression has run out, and nothing is in transition.
pub open spec fn expired(v: AnimationView, now: u64) -> bool {
    &&& v.expire_at matches Some(e) && now >= e
    &&& v.target is None
}

/// A transition whose time is up ends: its target becomes current and
/// starts its own expiry.
pub open spec fn settle(v: AnimationView, now: u64) -> (AnimationView, bool) {
    match (v.target, v.transition_start) {
        (Some(t), Some(s)) => if since(now, s) >= v.transition_duration {
            (
                AnimationView {
                    current: t,
                    target: None,
                    transition_start: None,
                    expire_at: expiry(t, now),
                    ..v
                },
                true,
            )
        } else {
            (v, false)
        },
        _ => (v, false),
    }
}

/// The first queued expression starts once nothing is in transition and the
/// last change is old enough.
pub open spec fn advance(v: AnimationView, now: u64) -> (AnimationView, bool) {
    if v.target is None && v.queue.len() > 0 && since(now, v.last_change) >= v.min_change_duration {
        (begin(AnimationView { queue: v.queue.drop_first(), ..v }, v.queue[0].expression, now), true)
    } else {
        (v, false)
    }
}

/// An update at `now` when the current expression has not expired: a due
/// transition ends, then the queue may start the next one.
pub open spec fn step(v: AnimationView, now: u64) -> (AnimationView, bool) {
    let (w, a) = settle(v, now);
    let (x, b) = advance(w, now);
    (x, a || b)
}

/// An expression may interrupt when nothing is playing or pending, or when it
/// ranks above the current one.
pub open spec fn can_interrupt(v: AnimationView, e: Expression) -> bool {
    ||| v.target is None && v.queue.len() == 0
    ||| priority_rank(e.priority) > priority_rank(v.current.priority)
}

/// Asking for an expression at `now`: it starts at once when it may interrupt
/// and either a transition is under way or the last change is old enough;
/// else it joins the back of the queue.
pub open spec fn enqueue(v: AnimationView, e: Expression, now: u64) -> AnimationView {
    if can_interrupt(v, e) && (v.target is Some || since(now, v.last_change) >= v.min_change_duration) {
        begin(v, e, now)
    } else {
        AnimationView {
            queue: v.queue.push(QueuedAnimation { expression: e, queued_at: now, start_time: None }),
            ..v
        }
    }
}

/// Showing `e` at once, with no transition.
pub open spec fn show_now(v: AnimationView, e: Expression, now: u64) -> AnimationView {
    AnimationView {
        current: e,
        target: None,
        transition_start: None,
        last_change: now,
        expire_at: expiry(e, now),
        ..v
    }
}

fn elapsed(now: u64, then: u64) -> (r: u64)
    ensures
        r == since(now, then),
{
    if now >= then {
        now - then
    } else {
        0
    }
}

/// Animation state machine
#[derive(Debug)]
pub struct AnimationState {
    current: Expression,
    target: Option<Expression>,
    transition_start: Option<u64>,
    transition_duration: u64,
    queue: VecDeque<QueuedAnimation>,
    expire_at: Option<u64>,
    min_change_duration: u64,
    last_change: u64,
}

impl View for AnimationState {
    type V = AnimationView;

    closed spec fn view(&self) -> AnimationView {
        AnimationView {
            current: self.current,
            target: self.target,
            transition_start: self.transition_start,
            transition_duration: self.transition_duration,
            queue: self.queue@,
            expire_at: self.expire_at,
            min_change_duration: self.min_change_duration,
            last_change: self.last_change,
        }
    }
}

impl AnimationState {
    /// A state showing the neutral expression from `now`, with nothing pending.
    pub fn new(now: u64) -> (r: Self)
        ensures
            animation_wf(r@),
            is_preset(r@.current, ExpressionKind::Neutral),
            r@.target is None,
            r@.transition_start is None,
            r@.transition_duration == 150,
            r@.queue.len() == 0,
            r@.expire_at is None,
            r@.min_change_duration == 100,
            r@.last_change == now,
    {
        AnimationState {
            current: Expression::neutral(),
            target: None,
            transition_start: None,
            transition_duration: 150,
            queue: VecDeque::new(),
            expire_at: None,
            min_change_duration: 100,
            last_change: now,
        }
    }

    fn start_transition(&mut self, expr: Expression, now: u64)
        ensures
            final(self)@ == begin(old(self)@, expr, now),
    {
        self.transition_start = Some(now);
        self.transition_duration = expr.transition_ms;
        self.target = Some(expr);
        self.last_change = now;
    }

    /// Update the state at `now`. Returns true if it changed. An expired
    /// expression gives way to the neutral one; otherwise a due transition
    /// ends and the queue may start the next expression.
    pub fn update(&mut self, now: u64) -> (changed: bool)
        requires
            animation_wf(old(self)@),
            old(self)@.target matches Some(t) ==> now + t.duration_ms <= u64::MAX,
        ensures
            animation_wf(final(self)@),
            expired(old(self)@, now) ==> {
                &&& changed
                &&& final(self)@.target matches Some(n)
                &&& is_preset(n, ExpressionKind::Neutral)
                &&& final(self)@ == begin(old(self)@, n, now)
            },
            !expired(old(self)@, now) ==> (final(self)@, changed) == step(old(self)@, now),
    {
        let mut changed = false;
        if let Some(expire) = self.expire_at {
            if now >= expire && self.target.is_none() {
                self.start_transition(Expression::neutral(), now);
                changed = true;
            }
        }
        if let Some(target) = self.target.take() {
            if let Some(start) = self.transition_start {
                if elapsed(now, start) >= self.transition_duration {
                    let d = target.duration_ms;
                    self.current = target;
                    self.transition_start = None;
                    changed = true;
                    if d > 0 {
                        self.expire_at = Some(now + d);
                    } else {
                        self.expire_at = None;
                    }
                } else {
                    self.target = Some(target);
                }
            }
        }
        if self.target.is_none() && self.queue.len() > 0 {
            if elapsed(now, self.last_change) >= self.min_change_duration {
                if let Some(next) = self.queue.pop_front() {
                    self.start_transition(next.expression, now);
                    changed = true;
                }
            }
        }
        changed
    }

    /// Set expression immediately (no transition)
    pub fn set_current(&mut self, expr: Expression, now: u64)
        requires
            now + expr.duration_ms <= u64::MAX,
        ensures
            final(self)@ == show_now(old(self)@, expr, now),
    {
        let d = expr.duration_ms;
        self.current = expr;
        self.target = None;
        self.transition_start = None;
        self.last_change = now;
        if d > 0 {
            self.expire_at = Some(now + d);
        } else {
            self.expire_at = None;
        }
    }

    /// Queue an expression (respects priority)
    pub fn queue(&mut self, expr: Expression, now: u64)
        ensures
            final(self)@ == enqueue(old(self)@, expr, now),
    {
        if self.can_interrupt(&expr) {
            if self.target.is_some() || elapsed(now, self.last_change) >= self.min_change_duration {
                self.start_transition(expr, now);
                return ;
            }
        }
        self.queue.push_back(QueuedAnimation { expression: expr, queued_at: now, start_time: None });
    }

    fn can_interrupt(&self, expr: &Expression) -> (r: bool)
        ensures
            r == can_interrupt(self@, *expr),
    {
        if self.target.is_none() && self.queue.len() == 0 {
            return true;
        }
        priority_above(expr.priority, self.current.priority)
    }

    /// Get current expression (may be mid-transition)
    pub fn current_expression(&self) -> (r: &Expression)
        ensures
            *r == shown(self@),
    {
        match &self.target {
            Some(t) => t,
            None => &self.current,
        }
    }

    /// The expression to draw: the one on show, as no blending between
    /// expressions is done.
    pub fn interpolated_expression(&self) -> (r: Expression)
        ensures
            same_expression(r, shown(self@)),
    {
        self.current_expression().duplicate()
    }

    /// Reset to the neutral expression, with nothing pending.
    pub fn reset(&mut self, now: u64)
        ensures
            is_preset(final(self)@.current, ExpressionKind::Neutral),
            final(self)@ == (AnimationView {
                queue: Seq::empty(),
                ..show_now(old(self)@, final(self)@.current, now)
            }),
    {
        self.set_current(Expression::neutral(), now);
        self.queue.clear();
    }

    /// Get queue length
    pub fn queue_len(&self) -> (r: usize)
        ensures
            r == self@.queue.len(),
    {
        self.queue.len()
    }

    /// Clear the queue
    pub fn clear_queue(&mut self)
        ensures
            final(self)@ == (AnimationView { queue: Seq::empty(), ..old(self)@ }),
    {
        self.queue.clear();
    }
}

/// Law: every operation keeps a transition under way exactly when it has a
/// start time.
pub proof fn law_animation_wf_kept(v: AnimationView, e: Expression, now: u64)
    requires
        animation_wf(v),
    ensures
        animation_wf(step(v, now).0),
        animation_wf(begin(v, e, now)),
        animation_wf(enqueue(v, e, now)),
        animation_wf(show_now(v, e, now)),
{
}

/// Law: an expression that ranks above the current one interrupts at once,
/// when a transition is under way or the last change is old enough; the
/// queue stays as it was.
pub proof fn law_priority_interrupts(v: AnimationView, e: Expression, now: u64)
    requires
        priority_rank(e.priority) > priority_rank(v.current.priority),
        v.target is Some || since(now, v.last_change) >= v.min_change_duration,
    ensures
        enqueue(v, e, now).target == Some(e),
        shown(enqueue(v, e, now)) == e,
        enqueue(v, e, now).queue == v.queue,
{
}

/// Law: while something plays or waits, an expression that does not rank
/// above the current one waits at the back of the queue, and what is on show
/// does not change.
pub proof fn law_lower_priority_waits(v: AnimationView, e: Expression, now: u64)
    requires
        v.target is Some || v.queue.len() > 0,
        priority_rank(e.priority) <= priority_rank(v.current.priority),
    ensures
        enqueue(v, e, now).queue == v.queue.push(
            QueuedAnimation { expression: e, queued_at: now, start_time: None },
        ),
        shown(enqueue(v, e, now)) == shown(v),
{
}

/// Law: queued expressions play in the order they were queued: once nothing
/// is in transition and the last change is old enough, the front of the
/// queue starts and leaves it.
pub proof fn law_queue_first_in_first_out(v: AnimationView, now: u64)
    requires
        animation_wf(v),
        v.target is None,
        v.queue.len() > 0,
        since(now, v.last_change) >= v.min_change_duration,
    ensures
        step(v, now).0.target == Some(v.queue[0].expression),
        step(v, now).0.queue == v.queue.drop_first(),
        step(v, now).1,
{
}

/// Law: a transition whose time is up makes its target the current
/// expression.
pub proof fn law_transition_completes(v: AnimationView, t: Expression, s: u64, now: u64)
    requires
        v.target == Some(t),
        v.transition_start == Some(s),
        since(now, s) >= v.transition_duration,
    ensures
        step(v, now).0.current == t,
        step(v, now).1,
{
}

/// Law: an expression of duration 0 shown at once never expires.
pub proof fn law_indefinite_stays(v: AnimationView, e: Expression, now: u64, later: u64)
    requires
        e.duration_ms == 0,
    ensures
        !expired(show_now(v, e, now), later),
{
}

/// The pause before the next blink, from the blink counter: two to eight
/// seconds, spread by a linear congruential step.
pub open spec fn blink_delay_spec(counter: u32) -> u64 {
    (2000 + vstd::wrapping::u32_specs::wrapping_add(
        vstd::wrapping::u32_specs::wrapping_mul(counter, 1103515245),
        12345,
    ) % 6000) as u64
}

/// The pause before the next blink.
pub fn blink_delay(counter: u32) -> (r: u64)
    ensures
        r == blink_delay_spec(counter),
{
    let v: u32 = counter.wrapping_mul(1103515245).wrapping_add(12345) % 6000;
    2000 + v as u64
}

/// The phases of a blink, each with the time it started.
#[derive(Debug, Clone, Copy, PartialEq, Eq)]
pub enum BlinkState {
    Open,
    Closing(u64),
    Closed(u64),
    Opening(u64),
}

/// The eyes' blinking: the phase, when the next blink is due, and the count
/// that spreads the pauses between blinks.
#[derive(Debug, Clone, Copy, PartialEq, Eq)]
pub struct Blink {
    pub state: BlinkState,
    pub next_blink: u64,
    pub counter: u32,
}

/// Milliseconds the eyes take to close, and to open again.
pub const BLINK_MOVE_MS: u64 = 60;

/// Milliseconds the eyes stay closed.
pub const BLINK_CLOSED_MS: u64 = 80;

/// One update of the blink at `now`: a due blink starts closing; each phase
/// gives way to the next when its time is up; once open again, the next
/// blink is scheduled.
pub open spec fn blink_step(b: Blink, now: u64) -> (Blink, bool) {
    match b.state {
        BlinkState::Open => if now >= b.next_blink {
            (Blink { state: BlinkState::Closing(now), ..b }, true)
        } else {
            (b, false)
        },
        BlinkState::Closing(s) => if since(now, s) >= BLINK_MOVE_MS {
            (Blink { state: BlinkState::Closed(now), ..b }, true)
        } else {
            (b, false)
        },
        BlinkState::Closed(s) => if since(now, s) >= BLINK_CLOSED_MS {
            (Blink { state: BlinkState::Opening(now), ..b }, true)
        } else {
            (b, false)
        },
        BlinkState::Opening(s) => if since(now, s) >= BLINK_MOVE_MS {
            (
                Blink {
                    state: BlinkState::Open,
                    next_blink: (now + blink_delay_spec(b.counter)) as u64,
                    counter: vstd::wrapping::u32_specs::wrapping_add(b.counter, 1),
                },
                true,
            )
        } else {
            (b, false)
        },
    }
}

impl Blink {
    /// Open eyes at `now`, the first blink due after the first pause.
    pub open spec fn new_spec(now: u64) -> Blink {
        Blink { state: BlinkState::Open, next_blink: (now + blink_delay_spec(0)) as u64, counter: 1 }
    }

    /// Open eyes, the first blink due after the first pause.
    pub fn new(now: u64) -> (r: Self)
        requires
            now <= u64::MAX - 8000,
        ensures
            r == Blink::new_spec(now),
    {
        Blink { state: BlinkState::Open, next_blink: now + blink_delay(0), counter: 1 }
    }

    /// Update the blink at `now`; returns whether the phase changed.
    pub fn update(&mut self, now: u64) -> (changed: bool)
        requires
            now <= u64::MAX - 8000,
        ensures
            (*final(self), changed) == blink_step(*old(self), now),
    {
        match self.state {
            BlinkState::Open => {
                if now >= self.next_blink {
                    self.state = BlinkState::Closing(now);
                    return true;
                }
            },
            BlinkState::Closing(start) => {
                if elapsed(now, start) >= BLINK_MOVE_MS {
                    self.state = BlinkState::Closed(now);
                    return true;
                }
            },
            BlinkState::Closed(start) => {
                if elapsed(now, start) >= BLINK_CLOSED_MS {
                    self.state = BlinkState::Opening(now);
                    return true;
                }
            },
            BlinkState::Opening(start) => {
                if elapsed(now, start) >= BLINK_MOVE_MS {
                    self.state = BlinkState::Open;
                    self.next_blink = now + blink_delay(self.counter);
                    self.counter = self.counter.wrapping_add(1);
                    return true;
                }
            },
        }
        false
    }
}

/// Law: the pause between blinks is at least two and less than eight seconds.
pub proof fn law_blink_pause_bounded(counter: u32)
    ensures
        2000 <= blink_delay_spec(counter) < 8000,
{
}

/// Law: a blink that starts at `t` runs closing, closed and opening, and the
/// eyes are open again 200 milliseconds later, with the next blink at least
/// two seconds ahead.
pub proof fn law_blink_cycle(b: Blink, t: u64)
    requires
        b.state == BlinkState::Open,
        t >= b.next_blink,
        t <= u64::MAX - 8200,
    ensures
        ({
            let b1 = blink_step(b, t).0;
            let b2 = blink_step(b1, (t + 60) as u64).0;
            let b3 = blink_step(b2, (t + 140) as u64).0;
            let b4 = blink_step(b3, (t + 200) as u64).0;
            &&& b1.state == BlinkState::Closing(t)
            &&& b2.state == BlinkState::Closed((t + 60) as u64)
            &&& b3.state == BlinkState::Opening((t + 140) as u64)
            &&& b4.state == BlinkState::Open
            &&& b4.next_blink >= t + 200 + 2000
        }),
{
}

/// The face's moving parts: its expressions and its blinking. (Its breathing
/// and its drawing are done by the renderer.)
pub struct Face {
    pub animation: AnimationState,
    pub blink: Blink,
}

impl Face {
    /// A neutral face with open eyes at `now`.
    pub fn new(now: u64) -> (r: Self)
        requires
            now <= u64::MAX - 8000,
        ensures
            animation_wf(r.animation@),
            is_preset(r.animation@.current, ExpressionKind::Neutral),
            r.animation@.target is None,
            r.animation@.queue.len() == 0,
            r.animation@.last_change == now,
            r.blink == Blink::new_spec(now),
    {
        Face { animation: AnimationState::new(now), blink: Blink::new(now) }
    }

    /// Update the expressions and the blink at `now`; returns whether either
    /// changed.
    pub fn update(&mut self, now: u64) -> (changed: bool)
        requires
            animation_wf(old(self).animation@),
            old(self).animation@.target matches Some(t) ==> now + t.duration_ms <= u64::MAX,
            now <= u64::MAX - 8000,
        ensures
            animation_wf(final(self).animation@),
            expired(old(self).animation@, now) ==> {
                &&& final(self).animation@.target matches Some(n)
                &&& is_preset(n, ExpressionKind::Neutral)
                &&& final(self).animation@ == begin(old(self).animation@, n, now)
            },
            !expired(old(self).animation@, now) ==> final(self).animation@ == step(
                old(self).animation@,
                now,
            ).0,
            final(self).blink == blink_step(old(self).blink, now).0,
            changed == ((expired(old(self).animation@, now) || step(old(self).animation@, now).1)
                || blink_step(old(self).blink, now).1),
    {
        let a = self.animation.update(now);
        let b = self.blink.update(now);
        a || b
    }

    /// Set the expression at once.
    pub fn set_expression(&mut self, expression: Expression, now: u64)
        requires
            now + expression.duration_ms <= u64::MAX,
        ensures
            final(self).animation@ == show_now(old(self).animation@, expression, now),
            final(self).blink == old(self).blink,
    {
        self.animation.set_current(expression, now);
    }

    /// Ask for an expression, as its priority allows.
    pub fn queue_expression(&mut self, expression: Expression, now: u64)
        ensures
            final(self).animation@ == enqueue(old(self).animation@, expression, now),
            final(self).blink == old(self).blink,
    {
        self.animation.queue(expression, now);
    }

    /// The expression on show.
    pub fn current_expression(&self) -> (r: &Expression)
        ensures
            *r == shown(self.animation@),
    {
        self.animation.current_expression()
    }

    /// Back to the neutral expression, with nothing pending.
    pub fn reset(&mut self, now: u64)
        ensures
            is_preset(final(self).animation@.current, ExpressionKind::Neutral),
            final(self).animation@ == (AnimationView {
                queue: Seq::empty(),
                ..show_now(old(self).animation@, final(self).animation@.current, now)
            }),
            final(self).blink == old(self).blink,
    {
        self.animation.reset(now);
    }
}

} // verus!
