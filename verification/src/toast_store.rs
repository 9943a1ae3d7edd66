//! The toasts that the notification window shows: one per toast id, newest first,
//! at most five of them visible at a time.
use vstd::prelude::*;

use crate::event::{EventModel, NotifyEvent};
use crate::runtime::saturating_diff;
use crate::text::{is_blank, is_blank_text, str_eq};

verus! {

/// How many toasts the window shows at most.
pub const MAX_VISIBLE: usize = 5;

/// Nanoseconds in a millisecond.
pub const NANOS_PER_MILLI: u64 = 1_000_000;

/// How long a toast takes to fade in, in milliseconds.
pub const FADE_IN_MS: u64 = 220;

/// How long a toast takes to fade out before it expires, in milliseconds.
pub const FADE_OUT_MS: u64 = 800;

/// An opacity as the exact fraction `numerator / denominator`.
#[derive(Clone, Copy, Debug, PartialEq, Eq, Structural)]
pub struct Opacity {
    pub numerator: u64,
    pub denominator: u64,
}

/// One toast as the store keeps it. Times are nanoseconds on the store's monotonic
/// clock; `progress` holds the bit pattern of an `f32` fraction.
#[derive(Debug, PartialEq)]
pub struct Toast {
    pub id: String,
    pub title: String,
    pub message: String,
    pub state: String,
    pub progress: u32,
    pub opacity: Opacity,
    pub route: String,
    pub primary_label: String,
    pub primary_route: String,
    pub secondary_label: String,
    pub secondary_route: String,
    pub sticky: bool,
    pub created_at: u64,
    pub expires_at: Option<u64>,
    pub dismissing: bool,
}

/// The mathematical value of a [`Toast`].
pub struct ToastModel {
    pub id: Seq<char>,
    pub title: Seq<char>,
    pub message: Seq<char>,
    pub state: Seq<char>,
    pub progress: u32,
    pub opacity: Opacity,
    pub route: Seq<char>,
    pub primary_label: Seq<char>,
    pub primary_route: Seq<char>,
    pub secondary_label: Seq<char>,
    pub secondary_route: Seq<char>,
    pub sticky: bool,
    pub created_at: u64,
    pub expires_at: Option<u64>,
    pub dismissing: bool,
}

impl View for Toast {
    type V = ToastModel;

    open spec fn view(&self) -> ToastModel {
        ToastModel {
            id: self.id@,
            title: self.title@,
            message: self.message@,
            state: self.state@,
            progress: self.progress,
            opacity: self.opacity,
            route: self.route@,
            primary_label: self.primary_label@,
            primary_route: self.primary_route@,
            secondary_label: self.secondary_label@,
            secondary_route: self.secondary_route@,
            sticky: self.sticky,
            created_at: self.created_at,
            expires_at: self.expires_at,
            dismissing: self.dismissing,
        }
    }
}

impl Clone for Toast {
    fn clone(&self) -> (c: Self)
        ensures
            c@ == self@,
    {
        Toast {
            id: self.id.clone(),
            title: self.title.clone(),
            message: self.message.clone(),
            state: self.state.clone(),
            progress: self.progress,
            opacity: self.opacity,
            route: self.route.clone(),
            primary_label: self.primary_label.clone(),
            primary_route: self.primary_route.clone(),
            secondary_label: self.secondary_label.clone(),
            secondary_route: self.secondary_route.clone(),
            sticky: self.sticky,
            created_at: self.created_at,
            expires_at: self.expires_at,
            dismissing: self.dismissing,
        }
    }
}

/// The models of a sequence of toasts.
pub open spec fn models(ts: Seq<Toast>) -> Seq<ToastModel> {
    ts.map_values(|t: Toast| t@)
}

/// The ids of a sequence of toast models.
pub open spec fn ids(ts: Seq<ToastModel>) -> Seq<Seq<char>> {
    ts.map_values(|t: ToastModel| t.id)
}

/// The route of the first action, else the event's primary route, else its route,
/// taking a blank text as missing.
pub open spec fn spec_primary_route(e: EventModel) -> Seq<char> {
    if e.actions.len() > 0 {
        e.actions[0].route
    } else if !is_blank_text(e.primary_route) {
        e.primary_route
    } else if !is_blank_text(e.route) {
        e.route
    } else {
        seq![]
    }
}

/// The label of the first action, else the event's primary label, else `Open`
/// when there is a primary route.
pub open spec fn spec_primary_label(e: EventModel) -> Seq<char> {
    if e.actions.len() > 0 {
        e.actions[0].label
    } else if !is_blank_text(e.primary_label) {
        e.primary_label
    } else if spec_primary_route(e).len() > 0 {
        "Open"@
    } else {
        seq![]
    }
}

/// The label of the second action, else the event's secondary label.
pub open spec fn spec_secondary_label(e: EventModel) -> Seq<char> {
    if e.actions.len() > 1 {
        e.actions[1].label
    } else if !is_blank_text(e.secondary_label) {
        e.secondary_label
    } else {
        seq![]
    }
}

/// The route of the second action, else the event's secondary route.
pub open spec fn spec_secondary_route(e: EventModel) -> Seq<char> {
    if e.actions.len() > 1 {
        e.actions[1].route
    } else if !is_blank_text(e.secondary_route) {
        e.secondary_route
    } else {
        seq![]
    }
}

/// The toast that an event becomes at time `now`: fully opaque, never expiring,
/// sticky exactly when its status is `loading`.
pub open spec fn spec_toast_from_event(e: EventModel, now: u64) -> ToastModel {
    ToastModel {
        id: e.toast_id,
        title: e.title,
        message: e.message,
        state: e.status,
        progress: match e.progress {
            Some(p) => p,
            None => 0,
        },
        opacity: Opacity { numerator: 1, denominator: 1 },
        route: e.route,
        primary_label: spec_primary_label(e),
        primary_route: spec_primary_route(e),
        secondary_label: spec_secondary_label(e),
        secondary_route: spec_secondary_route(e),
        sticky: e.status == "loading"@,
        created_at: now,
        expires_at: None,
        dismissing: false,
    }
}

/// The toasts after `t` is shown: it replaces the first toast with its id, or, when
/// there is none, goes in front of the others.
pub open spec fn spec_upsert(ts: Seq<ToastModel>, t: ToastModel) -> Seq<ToastModel> {
    match ids(ts).index_of_first(t.id) {
        Some(i) => ts.update(i, t),
        None => seq![t] + ts,
    }
}

/// The toasts after every toast with the id `id` is closed.
pub open spec fn spec_dismiss(ts: Seq<ToastModel>, id: Seq<char>) -> Seq<ToastModel> {
    ts.filter(other_id(id))
}

/// The test for a toast whose id is not `id`.
pub open spec fn other_id(id: Seq<char>) -> spec_fn(ToastModel) -> bool {
    |t: ToastModel| t.id != id
}

/// The test for a toast that is live at `now`.
pub open spec fn live_at(now: u64) -> spec_fn(ToastModel) -> bool {
    |t: ToastModel| is_live(t, now)
}

/// The toast as it is shown at `now`, as a function.
pub open spec fn shown_fn(now: u64) -> spec_fn(ToastModel) -> ToastModel {
    |t: ToastModel| shown_at(t, now)
}

/// A toast is live at `now` when it is sticky, never expires, or expires later.
pub open spec fn is_live(t: ToastModel, now: u64) -> bool {
    t.sticky || match t.expires_at {
        Some(e) => e > now,
        None => true,
    }
}

/// The fade-in factor of a toast `age_ms` milliseconds old.
pub open spec fn fade_in(age_ms: u64) -> Opacity {
    if age_ms >= FADE_IN_MS {
        Opacity { numerator: 1, denominator: 1 }
    } else {
        Opacity { numerator: age_ms, denominator: FADE_IN_MS }
    }
}

/// The fade-out factor at `now` of a toast that expires at `expires_at`.
pub open spec fn fade_out(expires_at: Option<u64>, now: u64) -> Opacity {
    match expires_at {
        Some(e) => if e <= now {
            Opacity { numerator: 0, denominator: 1 }
        } else {
            let remaining_ms = ((e - now) / (NANOS_PER_MILLI as int)) as u64;
            if remaining_ms >= FADE_OUT_MS {
                Opacity { numerator: 1, denominator: 1 }
            } else {
                Opacity { numerator: remaining_ms, denominator: FADE_OUT_MS }
            }
        },
        None => Opacity { numerator: 1, denominator: 1 },
    }
}

/// `a` is no larger than `b` as a fraction.
pub open spec fn opacity_le(a: Opacity, b: Opacity) -> bool {
    a.numerator * b.denominator <= b.numerator * a.denominator
}

/// The opacity of a toast at `now`: the smaller of its fade-in and fade-out factors.
pub open spec fn spec_opacity_at(created_at: u64, expires_at: Option<u64>, now: u64) -> Opacity {
    let a = fade_in((saturating_diff(now, created_at) / NANOS_PER_MILLI) as u64);
    let b = fade_out(expires_at, now);
    if opacity_le(a, b) {
        a
    } else {
        b
    }
}

/// An opacity between zero and one.
pub open spec fn is_unit_fraction(o: Opacity) -> bool {
    o.denominator > 0 && o.numerator <= o.denominator
}

/// A toast as it is shown at `now`.
pub open spec fn shown_at(t: ToastModel, now: u64) -> ToastModel {
    ToastModel { opacity: spec_opacity_at(t.created_at, t.expires_at, now), ..t }
}

/// The first `MAX_VISIBLE` elements of `s`, or all of them when there are fewer.
pub open spec fn first_visible(s: Seq<ToastModel>) -> Seq<ToastModel> {
    if s.len() <= MAX_VISIBLE {
        s
    } else {
        s.take(MAX_VISIBLE as int)
    }
}

/// The toasts shown at `now`: the first five live ones, in order, each with its
/// opacity at `now`.
pub open spec fn spec_visible(ts: Seq<ToastModel>, now: u64) -> Seq<ToastModel> {
    first_visible(ts.filter(live_at(now))).map_values(shown_fn(now))
}

fn non_empty(value: &String) -> (r: Option<String>)
    ensures
        is_blank_text(value@) ==> r is None,
        !is_blank_text(value@) ==> (r matches Some(v) && v@ == value@),
{
    if is_blank(value.as_str()) {
        None
    } else {
        Some(value.clone())
    }
}

fn empty_string() -> (s: String)
    ensures
        s@ == Seq::<char>::empty(),
{
    String::new()
}

impl Toast {
    /// The toast that `event` becomes at time `now`.
    pub fn from_event(event: NotifyEvent, now: u64) -> (t: Toast)
        ensures
            t@ == spec_toast_from_event(event@, now),
    {
        let ghost e = event@;
        let n = event.actions.len();
        assert(e.actions.len() == n);
        let primary_route = if n > 0 {
            assert(event.actions@[0]@ == e.actions[0]);
            event.actions[0].route.clone()
        } else {
            match non_empty(&event.primary_route) {
                Some(r) => r,
                None => match non_empty(&event.route) {
                    Some(r) => r,
                    None => empty_string(),
                },
            }
        };
        let primary_label = if n > 0 {
            event.actions[0].label.clone()
        } else {
            match non_empty(&event.primary_label) {
                Some(l) => l,
                None => if !primary_route.as_str().is_empty() {
                    "Open".to_owned()
                } else {
                    empty_string()
                },
            }
        };
        let secondary_label = if n > 1 {
            assert(event.actions@[1]@ == e.actions[1]);
            event.actions[1].label.clone()
        } else {
            match non_empty(&event.secondary_label) {
                Some(l) => l,
                None => empty_string(),
            }
        };
        let secondary_route = if n > 1 {
            event.actions[1].route.clone()
        } else {
            match non_empty(&event.secondary_route) {
                Some(r) => r,
                None => empty_string(),
            }
        };
        let sticky = str_eq(event.status.as_str(), "loading");
        let progress = match event.progress {
            Some(p) => p,
            None => 0,
        };
        let route = event.route.clone();
        Toast {
            id: event.toast_id,
            title: event.title,
            message: event.message,
            state: event.status,
            progress,
            opacity: Opacity { numerator: 1, denominator: 1 },
            route,
            primary_label,
            primary_route,
            secondary_label,
            secondary_route,
            sticky,
            created_at: now,
            expires_at: None,
            dismissing: false,
        }
    }

    /// The opacity of this toast at `now`.
    pub fn opacity_at(&self, now: u64) -> (o: Opacity)
        ensures
            o == spec_opacity_at(self.created_at, self.expires_at, now),
            is_unit_fraction(o),
    {
        let age_ms = now.saturating_sub(self.created_at) / NANOS_PER_MILLI;
        let fade_in = if age_ms >= FADE_IN_MS {
            Opacity { numerator: 1, denominator: 1 }
        } else {
            Opacity { numerator: age_ms, denominator: FADE_IN_MS }
        };
        let fade_out = match self.expires_at {
            Some(e) => if e <= now {
                Opacity { numerator: 0, denominator: 1 }
            } else {
                let remaining_ms = (e - now) / NANOS_PER_MILLI;
                if remaining_ms >= FADE_OUT_MS {
                    Opacity { numerator: 1, denominator: 1 }
                } else {
                    Opacity { numerator: remaining_ms, denominator: FADE_OUT_MS }
                }
            },
            None => Opacity { numerator: 1, denominator: 1 },
        };
        let left = (fade_in.numerator as u128) * (fade_out.denominator as u128);
        let right = (fade_out.numerator as u128) * (fade_in.denominator as u128);
        proof {
            assert(left == fade_in.numerator * fade_out.denominator) by (nonlinear_arith)
                requires
                    left == (fade_in.numerator as u128) * (fade_out.denominator as u128),
                    fade_in.numerator <= 1000,
                    fade_out.denominator <= 1000,
            ;
            assert(right == fade_out.numerator * fade_in.denominator) by (nonlinear_arith)
                requires
                    right == (fade_out.numerator as u128) * (fade_in.denominator as u128),
                    fade_out.numerator <= 1000,
                    fade_in.denominator <= 1000,
            ;
        }
        if left <= right {
            fade_in
        } else {
            fade_out
        }
    }
}

/// A toast as the window receives it.
#[derive(Clone, Debug, PartialEq)]
pub struct ToastView {
    pub id: String,
    pub title: String,
    pub message: String,
    pub state: String,
    pub progress: u32,
    pub opacity: Opacity,
    pub route: String,
    pub primary_label: String,
    pub primary_route: String,
    pub secondary_label: String,
    pub secondary_route: String,
    pub sticky: bool,
    pub dismissing: bool,
}

impl From<Toast> for ToastView {
    /// The view of a toast: every field but its times.
    fn from(toast: Toast) -> (v: ToastView) {
        ToastView {
            id: toast.id,
            title: toast.title,
            message: toast.message,
            state: toast.state,
            progress: toast.progress,
            opacity: toast.opacity,
            route: toast.route,
            primary_label: toast.primary_label,
            primary_route: toast.primary_route,
            secondary_label: toast.secondary_label,
            secondary_route: toast.secondary_route,
            sticky: toast.sticky,
            dismissing: toast.dismissing,
        }
    }
}

impl vstd::std_specs::convert::FromSpecImpl<Toast> for ToastView {
    open spec fn obeys_from_spec() -> bool {
        true
    }

    open spec fn from_spec(toast: Toast) -> ToastView {
        ToastView {
            id: toast.id,
            title: toast.title,
            message: toast.message,
            state: toast.state,
            progress: toast.progress,
            opacity: toast.opacity,
            route: toast.route,
            primary_label: toast.primary_label,
            primary_route: toast.primary_route,
            secondary_label: toast.secondary_label,
            secondary_route: toast.secondary_route,
            sticky: toast.sticky,
            dismissing: toast.dismissing,
        }
    }
}

#[verifier::external_type_specification]
#[verifier::external_body]
pub struct ExInstant(std::time::Instant);

/// The current instant of the monotonic clock (`Instant::now`).
#[verifier::external_body]
fn instant_now() -> std::time::Instant {
    std::time::Instant::now()
}

/// Nanoseconds from `epoch` to now on the monotonic clock (`Instant::elapsed`),
/// saturated at `u64::MAX`. The value depends on the clock; nothing is stated of it.
#[verifier::external_body]
fn nanos_since(epoch: &std::time::Instant) -> u64 {
    epoch.elapsed().as_nanos().try_into().unwrap_or(u64::MAX)
}

/// The toasts of the notification window, newest first.
#[derive(Debug)]
pub struct ToastStore {
    pub toasts: Vec<Toast>,
    /// The instant from which the store's clock counts.
    pub epoch: std::time::Instant,
    /// The time the latest shown toast was stamped with; the store's clock never
    /// reads earlier than this.
    pub last_stamp: u64,
}

impl View for ToastStore {
    type V = Seq<ToastModel>;

    open spec fn view(&self) -> Seq<ToastModel> {
        models(self.toasts@)
    }
}

impl Default for ToastStore {
    fn default() -> (s: Self)
        ensures
            s@ == Seq::<ToastModel>::empty(),
    {
        let s = ToastStore { toasts: Vec::new(), epoch: instant_now(), last_stamp: 0 };
        assert(s@ =~= Seq::<ToastModel>::empty());
        s
    }
}

proof fn lemma_models_push(v: Seq<Toast>, t: Toast)
    ensures
        models(v.push(t)) == models(v).push(t@),
{
    assert(models(v.push(t)) =~= models(v).push(t@));
}

impl ToastStore {
    /// The time on the store's monotonic clock, in nanoseconds since the store was
    /// made; never earlier than the stamp of the latest shown toast.
    pub fn now(&self) -> (reading: u64)
        ensures
            reading >= self.last_stamp,
    {
        let elapsed = nanos_since(&self.epoch);
        if elapsed < self.last_stamp {
            self.last_stamp
        } else {
            elapsed
        }
    }

    /// Shows the toast that `event` becomes at time `now`: it replaces the toast
    /// with the same id, or goes in front of the others.
    pub fn upsert_at(&mut self, event: NotifyEvent, now: u64)
        ensures
            final(self)@ == spec_upsert(old(self)@, spec_toast_from_event(event@, now)),
            final(self).last_stamp == old(self).last_stamp,
            final(self).epoch == old(self).epoch,
    {
        let ghost ev = event@;
        let toast = Toast::from_event(event, now);
        let ghost ts = self@;
        let ghost t = toast@;
        let mut i: usize = 0;
        while i < self.toasts.len()
            invariant
                self@ == ts,
                t == toast@,
                t == spec_toast_from_event(ev, now),
                ts == old(self)@,
                ev == event@,
                self.last_stamp == old(self).last_stamp,
                self.epoch == old(self).epoch,
                i <= self.toasts.len(),
                forall|j: int| 0 <= j < i ==> ids(ts)[j] != t.id,
            decreases self.toasts.len() - i,
        {
            assert(ts[i as int] == self.toasts@[i as int]@);
            assert(ids(ts)[i as int] == self.toasts@[i as int].id@);
            if self.toasts[i].id == toast.id {
                proof {
                    ids(ts).index_of_first_ensures(t.id);
                    assert(ids(ts)[i as int] == t.id);
                    assert(ids(ts).contains(t.id));
                    let k = ids(ts).index_of_first(t.id).unwrap();
                    if k < i {
                        assert(ids(ts)[k] != t.id);
                    }
                    if k > i {
                        assert(ids(ts)[i as int] != t.id);
                    }
                    assert(k == i);
                    assert(ids(ts).index_of_first(t.id) == Some(i as int));
                    assert(spec_upsert(ts, t) == ts.update(i as int, t));
                }
                self.toasts[i] = toast;
                assert(self@ =~= ts.update(i as int, t));
                return;
            }
            i += 1;
        }
        proof {
            ids(ts).index_of_first_ensures(t.id);
            assert(!ids(ts).contains(t.id));
        }
        self.toasts.insert(0, toast);
        assert(self@ =~= seq![t] + ts);
    }

    /// Shows the toast that `event` becomes now, stamped with a reading of the store's
    /// clock that becomes the store's latest stamp.
    pub fn upsert(&mut self, event: NotifyEvent)
        ensures
            final(self)@ == spec_upsert(
                old(self)@,
                spec_toast_from_event(event@, final(self).last_stamp),
            ),
            final(self).last_stamp >= old(self).last_stamp,
            final(self).epoch == old(self).epoch,
    {
        let now = self.now();
        self.last_stamp = now;
        self.upsert_at(event, now);
    }

    /// Closes every toast with the id `id`; the others keep their order.
    pub fn dismiss(&mut self, id: &str)
        ensures
            final(self)@ == spec_dismiss(old(self)@, id@),
            final(self).last_stamp == old(self).last_stamp,
            final(self).epoch == old(self).epoch,
    {
        let ghost ts = self@;
        let ghost pred = other_id(id@);
        let mut kept: Vec<Toast> = Vec::new();
        let mut i: usize = 0;
        while i < self.toasts.len()
            invariant
                self@ == ts,
                pred == other_id(id@),
                i <= self.toasts.len(),
                models(kept@) == ts.take(i as int).filter(pred),
            decreases self.toasts.len() - i,
        {
            let t = &self.toasts[i];
            assert(ts[i as int] == t@);
            assert(ts.take(i + 1) =~= ts.take(i as int).push(ts[i as int]));
            proof {
                ts.take(i as int).lemma_filter_push(ts[i as int], pred);
            }
            if !str_eq(t.id.as_str(), id) {
                let c = t.clone();
                proof {
                    lemma_models_push(kept@, c);
                }
                kept.push(c);
            }
            i += 1;
        }
        assert(ts.take(ts.len() as int) =~= ts);
        self.toasts = kept;
    }

    /// The toasts shown at `now`.
    pub fn visible_at(&self, now: u64) -> (shown: Vec<Toast>)
        ensures
            models(shown@) == spec_visible(self@, now),
            shown@.len() <= MAX_VISIBLE,
    {
        let ghost ts = self@;
        let ghost live = live_at(now);
        let ghost show = shown_fn(now);
        let mut shown: Vec<Toast> = Vec::new();
        let mut i: usize = 0;
        while i < self.toasts.len()
            invariant
                self@ == ts,
                live == live_at(now),
                show == shown_fn(now),
                i <= self.toasts.len(),
                models(shown@) == first_visible(ts.take(i as int).filter(live)).map_values(show),
                shown@.len() <= MAX_VISIBLE,
            decreases self.toasts.len() - i,
        {
            let t = &self.toasts[i];
            assert(ts[i as int] == t@);
            let ghost prefix = ts.take(i as int).filter(live);
            assert(models(shown@).len() == shown@.len());
            assert(ts.take(i + 1) =~= ts.take(i as int).push(ts[i as int]));
            proof {
                ts.take(i as int).lemma_filter_push(ts[i as int], live);
            }
            let is_live_now = t.sticky || match t.expires_at {
                Some(e) => e > now,
                None => true,
            };
            assert(is_live_now == live(ts[i as int]));
            if is_live_now && shown.len() < MAX_VISIBLE {
                let mut c = t.clone();
                c.opacity = t.opacity_at(now);
                assert(c@ == show(ts[i as int]));
                proof {
                    lemma_models_push(shown@, c);
                    assert(prefix.len() < MAX_VISIBLE);
                    assert(first_visible(prefix.push(ts[i as int])) == prefix.push(ts[i as int]));
                    assert(prefix.push(ts[i as int]).map_values(show) =~= prefix.map_values(
                        show,
                    ).push(show(ts[i as int])));
                }
                shown.push(c);
            } else if is_live_now {
                proof {
                    assert(prefix.len() >= MAX_VISIBLE);
                    assert(first_visible(prefix.push(ts[i as int])) =~= first_visible(prefix));
                }
            }
            i += 1;
        }
        assert(ts.take(ts.len() as int) =~= ts);
        shown
    }

    /// The toasts shown now, at a reading of the store's clock no earlier than the
    /// stamp of the latest shown toast.
    pub fn visible(&self) -> (shown: Vec<Toast>)
        ensures
            exists|now: u64|
                now >= self.last_stamp && models(shown@) == #[trigger] spec_visible(self@, now),
            shown@.len() <= MAX_VISIBLE,
    {
        let now = self.now();
        self.visible_at(now)
    }

    /// The views of the toasts shown at `now`.
    pub fn visible_views_at(&self, now: u64) -> (views: Vec<ToastView>)
        ensures
            views@.len() == spec_visible(self@, now).len(),
            forall|i: int|
                0 <= i < views@.len() ==> is_view_of(#[trigger] views@[i], spec_visible(self@, now)[i]),
    {
        let shown = self.visible_at(now);
        let ghost vis = models(shown@);
        let mut views: Vec<ToastView> = Vec::new();
        let mut i: usize = 0;
        while i < shown.len()
            invariant
                i <= shown.len(),
                vis == models(shown@),
                views@.len() == i,
                forall|j: int| 0 <= j < i ==> is_view_of(#[trigger] views@[j], vis[j]),
            decreases shown.len() - i,
        {
            let t = shown[i].clone();
            assert(vis[i as int] == t@);
            views.push(ToastView::from(t));
            i += 1;
        }
        views
    }

    /// The views of the toasts shown now, at a reading of the store's clock no
    /// earlier than the stamp of the latest shown toast.
    pub fn visible_views(&self) -> (views: Vec<ToastView>)
        ensures
            views@.len() <= MAX_VISIBLE,
            exists|now: u64|
                now >= self.last_stamp && views@.len() == #[trigger] spec_visible(self@, now).len()
                    && forall|i: int|
                    0 <= i < views@.len() ==> is_view_of(
                        #[trigger] views@[i],
                        spec_visible(self@, now)[i],
                    ),
    {
        let now = self.now();
        let views = self.visible_views_at(now);
        proof {
            lemma_visible_len(self@, now);
        }
        views
    }

    /// The number of toasts in the store, shown or not.
    pub fn len(&self) -> (n: usize)
        ensures
            n == self@.len(),
    {
        self.toasts.len()
    }
}

/// `v` is the view of a toast whose model is `t`.
pub open spec fn is_view_of(v: ToastView, t: ToastModel) -> bool {
    &&& v.id@ == t.id
    &&& v.title@ == t.title
    &&& v.message@ == t.message
    &&& v.state@ == t.state
    &&& v.progress == t.progress
    &&& v.opacity == t.opacity
    &&& v.route@ == t.route
    &&& v.primary_label@ == t.primary_label
    &&& v.primary_route@ == t.primary_route
    &&& v.secondary_label@ == t.secondary_label
    &&& v.secondary_route@ == t.secondary_route
    &&& v.sticky == t.sticky
    &&& v.dismissing == t.dismissing
}

/// No more than five toasts are ever shown.
pub proof fn lemma_visible_len(ts: Seq<ToastModel>, now: u64)
    ensures
        spec_visible(ts, now).len() <= MAX_VISIBLE,
{
}

/// No two toasts share an id.
pub open spec fn unique_ids(ts: Seq<ToastModel>) -> bool {
    ids(ts).no_duplicates()
}

/// Some toast has the id `id`.
pub open spec fn has_toast(ts: Seq<ToastModel>, id: Seq<char>) -> bool {
    ids(ts).contains(id)
}

proof fn lemma_first_index(s: Seq<Seq<char>>, x: Seq<char>, i: int)
    requires
        0 <= i < s.len(),
        s[i] == x,
        forall|j: int| 0 <= j < i ==> s[j] != x,
    ensures
        s.index_of_first(x) == Some(i),
{
    s.index_of_first_ensures(x);
    assert(s.contains(x));
    let k = s.index_of_first(x).unwrap();
    if k < i {
        assert(s[k] != x);
    }
    if k > i {
        assert(s[i] != x);
    }
}

proof fn lemma_filter_pointwise(
    a: Seq<ToastModel>,
    b: Seq<ToastModel>,
    p: spec_fn(ToastModel) -> bool,
)
    requires
        a.len() == b.len(),
        forall|k: int| 0 <= k < a.len() ==> p(#[trigger] a[k]) == p(b[k]),
        forall|k: int| 0 <= k < a.len() && p(#[trigger] a[k]) ==> a[k] == b[k],
    ensures
        a.filter(p) == b.filter(p),
    decreases a.len(),
{
    reveal(Seq::filter);
    if a.len() > 0 {
        let a1 = a.drop_last();
        let b1 = b.drop_last();
        assert forall|k: int| 0 <= k < a1.len() implies p(#[trigger] a1[k]) == p(b1[k]) by {
            assert(a1[k] == a[k] && b1[k] == b[k]);
        }
        assert forall|k: int| 0 <= k < a1.len() && p(#[trigger] a1[k]) implies a1[k] == b1[k] by {
            assert(a1[k] == a[k] && b1[k] == b[k]);
        }
        lemma_filter_pointwise(a1, b1, p);
        assert(p(a[a.len() - 1]) == p(b[b.len() - 1]));
    }
}

/// Showing a toast keeps toast ids unique, leaves exactly one toast with its id,
/// and adds a toast to the store only when its id was new.
pub proof fn lemma_upsert_keeps_ids_unique(ts: Seq<ToastModel>, t: ToastModel)
    requires
        unique_ids(ts),
    ensures
        unique_ids(spec_upsert(ts, t)),
        has_toast(spec_upsert(ts, t), t.id),
        spec_upsert(ts, t).len() == if has_toast(ts, t.id) {
            ts.len()
        } else {
            ts.len() + 1
        },
{
    let u = spec_upsert(ts, t);
    ids(ts).index_of_first_ensures(t.id);
    match ids(ts).index_of_first(t.id) {
        Some(i) => {
            assert(ids(u) =~= ids(ts));
            assert(ids(u)[i] == t.id);
        },
        None => {
            assert(ids(u) =~= seq![t.id] + ids(ts));
            assert(ids(u)[0] == t.id);
            assert forall|a: int, b: int|
                0 <= a < ids(u).len() && 0 <= b < ids(u).len() && a != b implies ids(u)[a]
                != ids(u)[b] by {
                if a == 0 {
                    assert(ids(u)[b] == ids(ts)[b - 1]);
                } else if b == 0 {
                    assert(ids(u)[a] == ids(ts)[a - 1]);
                } else {
                    assert(ids(u)[a] == ids(ts)[a - 1] && ids(u)[b] == ids(ts)[b - 1]);
                }
            }
        },
    }
}

/// Showing the same toast twice is showing it once.
pub proof fn lemma_upsert_idempotent(ts: Seq<ToastModel>, t: ToastModel)
    ensures
        spec_upsert(spec_upsert(ts, t), t) == spec_upsert(ts, t),
{
    let u = spec_upsert(ts, t);
    ids(ts).index_of_first_ensures(t.id);
    match ids(ts).index_of_first(t.id) {
        Some(i) => {
            assert(ids(u) =~= ids(ts));
            assert(u.update(i, t) =~= u);
        },
        None => {
            assert(ids(u)[0] == t.id);
            lemma_first_index(ids(u), t.id, 0);
            assert(u.update(0, t) =~= u);
        },
    }
}

/// Closing a toast right after it was shown leaves the other toasts as they were
/// before it was shown.
pub proof fn lemma_dismiss_after_upsert(ts: Seq<ToastModel>, t: ToastModel)
    ensures
        spec_dismiss(spec_upsert(ts, t), t.id) == spec_dismiss(ts, t.id),
{
    let u = spec_upsert(ts, t);
    let p = other_id(t.id);
    ids(ts).index_of_first_ensures(t.id);
    match ids(ts).index_of_first(t.id) {
        Some(i) => {
            assert(ids(ts)[i] == ts[i].id);
            lemma_filter_pointwise(u, ts, p);
        },
        None => {
            assert(u =~= seq![t] + ts);
            Seq::filter_distributes_over_add(seq![t], ts, p);
            reveal_with_fuel(Seq::filter, 2);
            assert(seq![t].drop_last() =~= Seq::<ToastModel>::empty());
            assert(seq![t].filter(p) =~= Seq::<ToastModel>::empty());
            assert(Seq::<ToastModel>::empty() + ts.filter(p) =~= ts.filter(p));
        },
    }
}

/// After a close, no toast has the closed id.
pub proof fn lemma_dismiss_removes_id(ts: Seq<ToastModel>, id: Seq<char>)
    ensures
        !has_toast(spec_dismiss(ts, id), id),
        spec_dismiss(ts, id).len() <= ts.len(),
{
    broadcast use vstd::seq_lib::group_filter_ensures;

    let d = spec_dismiss(ts, id);
    ts.lemma_filter_len(other_id(id));
    if has_toast(d, id) {
        let k = choose|k: int| 0 <= k < ids(d).len() && ids(d)[k] == id;
        ts.lemma_filter_pred(other_id(id), k);
        assert(d[k].id == id);
    }
}

/// A toast that an event becomes is sticky exactly when the event's status is
/// `loading`, and starts fully opaque and never expiring.
pub proof fn lemma_only_loading_is_sticky(e: EventModel, now: u64)
    ensures
        spec_toast_from_event(e, now).sticky <==> e.status == "loading"@,
        spec_toast_from_event(e, now).expires_at is None,
        spec_toast_from_event(e, now).opacity == (Opacity { numerator: 1, denominator: 1 }),
{
}

/// Every shown toast is live, and its opacity lies between zero and one.
pub proof fn lemma_visible_are_live(ts: Seq<ToastModel>, now: u64, k: int)
    requires
        0 <= k < spec_visible(ts, now).len(),
    ensures
        is_live(spec_visible(ts, now)[k], now),
        is_unit_fraction(spec_visible(ts, now)[k].opacity),
{
    broadcast use vstd::seq_lib::group_filter_ensures;

    let live = ts.filter(live_at(now));
    let first = first_visible(live);
    assert(first[k] == live[k]);
    ts.lemma_filter_pred(live_at(now), k);
    let t = live[k];
    lemma_opacity_unit(t.created_at, t.expires_at, now);
}

/// The toasts shown at `now` are the first live toasts of the store, in store order:
/// as many as there are live toasts, but at most five, the `k`-th shown toast being
/// the `k`-th live toast with its opacity at `now`.
pub proof fn lemma_visible_is_prefix_of_live(ts: Seq<ToastModel>, now: u64)
    ensures
        ({
            let live = ts.filter(
                (|t: ToastModel|
                    t.sticky || match t.expires_at {
                        Some(e) => e > now,
                        None => true,
                    }),
            );
            &&& spec_visible(ts, now).len() == if live.len() < MAX_VISIBLE {
                live.len()
            } else {
                MAX_VISIBLE as nat
            }
            &&& forall|k: int|
                0 <= k < spec_visible(ts, now).len() ==> #[trigger] spec_visible(ts, now)[k]
                    == ToastModel {
                    opacity: spec_opacity_at(live[k].created_at, live[k].expires_at, now),
                    ..live[k]
                }
        }),
{
    let p = |t: ToastModel|
        t.sticky || match t.expires_at {
            Some(e) => e > now,
            None => true,
        };
    assert(p =~= live_at(now));
    let live = ts.filter(live_at(now));
    assert forall|k: int| 0 <= k < spec_visible(ts, now).len() implies #[trigger] spec_visible(
        ts,
        now,
    )[k] == ToastModel {
        opacity: spec_opacity_at(live[k].created_at, live[k].expires_at, now),
        ..live[k]
    } by {
        assert(first_visible(live)[k] == live[k]);
    }
}

/// A toast made from an event carries the event's id, title, message, status and
/// route, its progress or zero when it has none, and the time it was made at; it
/// is fully opaque, never expires and is not being dismissed.
pub proof fn lemma_toast_from_event_fields(e: EventModel, now: u64)
    ensures
        spec_toast_from_event(e, now).id == e.toast_id,
        spec_toast_from_event(e, now).title == e.title,
        spec_toast_from_event(e, now).message == e.message,
        spec_toast_from_event(e, now).state == e.status,
        spec_toast_from_event(e, now).route == e.route,
        e.progress is None ==> spec_toast_from_event(e, now).progress == 0,
        e.progress matches Some(p) ==> spec_toast_from_event(e, now).progress == p,
        spec_toast_from_event(e, now).created_at == now,
        spec_toast_from_event(e, now).expires_at is None,
        spec_toast_from_event(e, now).opacity == (Opacity { numerator: 1, denominator: 1 }),
        !spec_toast_from_event(e, now).dismissing,
{
}

/// The buttons of a toast made from an event: the first two actions when there are
/// such, else the event's own primary and secondary fields when they are not
/// blank; a primary button with a route but no label is labelled `Open`.
pub proof fn lemma_toast_from_event_buttons(e: EventModel, now: u64)
    ensures
        ({
            let t = spec_toast_from_event(e, now);
            &&& e.actions.len() > 0 ==> t.primary_route == e.actions[0].route
                && t.primary_label == e.actions[0].label
            &&& e.actions.len() > 1 ==> t.secondary_route == e.actions[1].route
                && t.secondary_label == e.actions[1].label
            &&& e.actions.len() == 0 && !is_blank_text(e.primary_route) ==> t.primary_route
                == e.primary_route
            &&& e.actions.len() == 0 && is_blank_text(e.primary_route) && !is_blank_text(e.route)
                ==> t.primary_route == e.route
            &&& e.actions.len() == 0 && is_blank_text(e.primary_route) && is_blank_text(e.route)
                ==> t.primary_route.len() == 0
            &&& e.actions.len() == 0 && !is_blank_text(e.primary_label) ==> t.primary_label
                == e.primary_label
            &&& e.actions.len() == 0 && is_blank_text(e.primary_label) && t.primary_route.len()
                > 0 ==> t.primary_label == "Open"@
            &&& e.actions.len() == 0 && is_blank_text(e.primary_label) && t.primary_route.len()
                == 0 ==> t.primary_label.len() == 0
            &&& e.actions.len() <= 1 && !is_blank_text(e.secondary_route) ==> t.secondary_route
                == e.secondary_route
            &&& e.actions.len() <= 1 && is_blank_text(e.secondary_route) ==> t.secondary_route.len()
                == 0
            &&& e.actions.len() <= 1 && !is_blank_text(e.secondary_label) ==> t.secondary_label
                == e.secondary_label
            &&& e.actions.len() <= 1 && is_blank_text(e.secondary_label) ==> t.secondary_label.len()
                == 0
        }),
{
}

/// Closing the toasts with the id `id` keeps exactly the toasts with another id, in
/// their order: every such toast stays and every toast that stays has another id.
pub proof fn lemma_dismiss_keeps_other_ids(ts: Seq<ToastModel>, id: Seq<char>)
    ensures
        spec_dismiss(ts, id) == ts.filter((|t: ToastModel| t.id != id)),
        forall|k: int|
            0 <= k < ts.len() && ts[k].id != id ==> spec_dismiss(ts, id).contains(#[trigger] ts[k]),
        forall|k: int|
            0 <= k < spec_dismiss(ts, id).len() ==> (#[trigger] spec_dismiss(ts, id)[k]).id != id
                && ts.contains(spec_dismiss(ts, id)[k]),
{
    broadcast use vstd::seq_lib::group_filter_ensures;

    let p = |t: ToastModel| t.id != id;
    assert(p =~= other_id(id));
    let d = spec_dismiss(ts, id);
    assert forall|k: int| 0 <= k < ts.len() && ts[k].id != id implies d.contains(
        #[trigger] ts[k],
    ) by {
        assert(p(ts[k]));
    }
    assert forall|k: int| 0 <= k < d.len() implies (#[trigger] d[k]).id != id && ts.contains(
        d[k],
    ) by {
        ts.lemma_filter_pred(other_id(id), k);
        assert(d.contains(d[k]));
        ts.lemma_filter_contains_rev(other_id(id), d[k]);
    }
}

/// Where a toast goes when it is shown: when no toast had its id, it comes first
/// and the others follow in their order; otherwise it takes the place of the first
/// toast with its id and the others stay where they were.
pub proof fn lemma_upsert_places_toast(ts: Seq<ToastModel>, t: ToastModel)
    ensures
        !has_toast(ts, t.id) ==> spec_upsert(ts, t).len() == ts.len() + 1 && spec_upsert(ts, t)[0]
            == t && forall|k: int|
            0 <= k < ts.len() ==> #[trigger] spec_upsert(ts, t)[k + 1] == ts[k],
        has_toast(ts, t.id) ==> exists|i: int|
            0 <= i < ts.len() && ts[i].id == t.id && (forall|j: int|
                0 <= j < i ==> (#[trigger] ts[j]).id != t.id) && spec_upsert(ts, t) == ts.update(
                i,
                t,
            ),
{
    ids(ts).index_of_first_ensures(t.id);
    match ids(ts).index_of_first(t.id) {
        Some(i) => {
            assert(ids(ts)[i] == ts[i].id);
            assert forall|j: int| 0 <= j < i implies (#[trigger] ts[j]).id != t.id by {
                assert(ids(ts)[j] == ts[j].id);
            }
        },
        None => {
            if has_toast(ts, t.id) {
                assert(false);
            }
        },
    }
}

/// A toast that is shown with the stamp `stamp` is in the store afterwards with
/// that stamp, so at any reading `reading` no earlier than the stamp its age is
/// `reading - stamp`.
pub proof fn lemma_upsert_stamp_not_after_reading(
    ts: Seq<ToastModel>,
    e: EventModel,
    stamp: u64,
    reading: u64,
)
    requires
        stamp <= reading,
    ensures
        exists|k: int|
            0 <= k < spec_upsert(ts, spec_toast_from_event(e, stamp)).len() && (#[trigger] spec_upsert(
                ts,
                spec_toast_from_event(e, stamp),
            )[k]).id == e.toast_id && spec_upsert(ts, spec_toast_from_event(e, stamp))[k].created_at
                <= reading && saturating_diff(
                reading,
                spec_upsert(ts, spec_toast_from_event(e, stamp))[k].created_at,
            ) == reading - stamp,
{
    let t = spec_toast_from_event(e, stamp);
    let u = spec_upsert(ts, t);
    ids(ts).index_of_first_ensures(t.id);
    match ids(ts).index_of_first(t.id) {
        Some(i) => {
            assert(u[i] == t);
        },
        None => {
            assert(u[0] == t);
        },
    }
}

/// The opacity of a toast: it fades in over its first 220 ms, as the fraction of
/// those milliseconds that have passed, and fades out over the last 800 ms before
/// it expires, as the fraction of them still left; an expired toast is invisible,
/// and the fainter of the two fades wins.
pub proof fn lemma_opacity_values(created_at: u64, expires_at: Option<u64>, now: u64)
    ensures
        ({
            let age_ms: int = if now >= created_at {
                (now - created_at) / 1_000_000
            } else {
                0
            };
            let o = spec_opacity_at(created_at, expires_at, now);
            &&& expires_at is None && age_ms >= 220 ==> o == Opacity { numerator: 1, denominator: 1 }
            &&& expires_at is None && age_ms < 220 ==> o == Opacity {
                numerator: age_ms as u64,
                denominator: 220,
            }
            &&& expires_at is Some && expires_at.unwrap() <= now ==> o.numerator == 0
            &&& expires_at is Some && expires_at.unwrap() > now && (expires_at.unwrap() - now)
                / 1_000_000 >= 800 ==> o
                == fade_in(age_ms as u64)
            &&& expires_at is Some && expires_at.unwrap() > now && (expires_at.unwrap() - now)
                / 1_000_000 < 800 && age_ms >= 220 ==> o == Opacity {
                numerator: ((expires_at.unwrap() - now) / 1_000_000) as u64,
                denominator: 800,
            }
        }),
{
    let a = fade_in((saturating_diff(now, created_at) / NANOS_PER_MILLI) as u64);
    let b = fade_out(expires_at, now);
    assert(a.numerator <= a.denominator && (a.denominator == 1 || a.denominator == 220));
    if expires_at is None {
        assert(b == Opacity { numerator: 1, denominator: 1 });
        assert(opacity_le(a, b)) by (nonlinear_arith)
            requires
                a.numerator <= a.denominator,
                b == (Opacity { numerator: 1, denominator: 1 }),
        ;
    }
    if let Some(e) = expires_at {
        if e <= now {
            assert(b == Opacity { numerator: 0, denominator: 1 });
            if opacity_le(a, b) {
                assert(a.numerator == 0) by (nonlinear_arith)
                    requires
                        opacity_le(a, b),
                        b == (Opacity { numerator: 0, denominator: 1 }),
                ;
            }
        } else {
            let r = ((e - now) / (NANOS_PER_MILLI as int)) as u64;
            assert(r == (e - now) / 1_000_000);
            if r >= FADE_OUT_MS {
                assert(b == Opacity { numerator: 1, denominator: 1 });
                assert(opacity_le(a, b)) by (nonlinear_arith)
                    requires
                        a.numerator <= a.denominator,
                        b == (Opacity { numerator: 1, denominator: 1 }),
                ;
            } else {
                assert(b == Opacity { numerator: r, denominator: FADE_OUT_MS });
                if a == (Opacity { numerator: 1, denominator: 1 }) {
                    assert(!opacity_le(a, b)) by (nonlinear_arith)
                        requires
                            a == (Opacity { numerator: 1, denominator: 1 }),
                            b.numerator < 800,
                            b.denominator == 800,
                    ;
                }
            }
        }
    }
}

proof fn lemma_opacity_unit(created_at: u64, expires_at: Option<u64>, now: u64)
    ensures
        is_unit_fraction(spec_opacity_at(created_at, expires_at, now)),
{
}

} // verus!
