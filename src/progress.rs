use crossbeam_channel::{Receiver, SendError, Sender};
use parking_lot::lock_api;
use parking_lot::{Mutex, MutexGuard};
use std::borrow::Cow;
use std::sync::Arc;
use crate::dstr::str_eq;
use crate::switch::Switch;
use vstd::prelude::*;

verus! {

#[verifier::external_type_specification]
#[verifier::external_body]
#[verifier::reject_recursive_types(T)]
pub struct ExSender<T>(Sender<T>);

#[verifier::external_type_specification]
#[verifier::external_body]
#[verifier::reject_recursive_types(T)]
pub struct ExReceiver<T>(Receiver<T>);

#[verifier::external_type_specification]
#[verifier::external_body]
#[verifier::reject_recursive_types(T)]
pub struct ExSendError<T>(SendError<T>);

#[verifier::external_type_specification]
#[verifier::external_body]
pub struct ExRawMutex(parking_lot::RawMutex);

#[verifier::external_type_specification]
#[verifier::external_body]
#[verifier::reject_recursive_types(R)]
#[verifier::reject_recursive_types(T)]
pub struct ExMutex<R, T: ?Sized>(lock_api::Mutex<R, T>);

/// The lock held on a `parking_lot::Mutex`, released when this is dropped.
///
/// Verus cannot be given `parking_lot::MutexGuard` itself, whose declaration
/// is bound by an outside trait, so the guard is carried here unseen.
#[verifier::external_body]
#[verifier::reject_recursive_types(T)]
struct Locked<'a, T> {
    guard: MutexGuard<'a, T>,
}

/// A publisher, able to send to the topic to be broadcast.
pub type Publisher<T> = Sender<T>;

/// A subscriber, able to receive from the topic when a broadcast happens.
pub type Subscriber<T> = Receiver<T>;

/// Relies on `Clone` of `crossbeam_channel::Sender`: another sender on the
/// same channel.
pub assume_specification<T>[ <Sender<T> as Clone>::clone ](s: &Sender<T>) -> Sender<T>;

/// Relies on `crossbeam_channel::unbounded`: a fresh channel whose sender
/// never blocks. The two ends are connected to each other and to nothing else.
#[verifier::external_body]
fn unbounded<T>() -> (r: (Sender<T>, Receiver<T>)) {
    crossbeam_channel::unbounded()
}

/// Relies on `parking_lot::Mutex::new`: an unlocked mutex holding `val`.
#[verifier::external_body]
fn new_mutex<T>(val: T) -> (r: Mutex<T>) {
    Mutex::new(val)
}

/// Relies on `parking_lot::Mutex::lock`: waits until this thread holds the
/// lock; it is released when the guard is dropped.
#[verifier::external_body]
fn lock<T>(m: &Mutex<T>) -> (r: Locked<'_, T>) {
    Locked { guard: m.lock() }
}

/// Relies on `DerefMut` of `parking_lot::MutexGuard`: exclusive access to the
/// value behind the lock while the guard lives.
#[verifier::external_body]
fn guarded<'a, 'b, T>(g: &'b mut Locked<'a, T>) -> (r: &'b mut T) {
    &mut *g.guard
}

/// Relies on `crossbeam_channel::Sender::send`: hands `msg` to the channel, or
/// gives it back in the error when every receiver is gone. Which of the two
/// happens depends on the other end, so nothing is promised of it.
#[verifier::external_body]
fn channel_send<T>(tx: &Sender<T>, msg: T) -> (r: Result<(), SendError<T>>) {
    tx.send(msg)
}

/// The elements of `s` whose flag in `keep` is set, in their order.
pub open spec fn kept<A>(s: Seq<A>, keep: Seq<bool>) -> Seq<A>
    decreases s.len(),
{
    if s.len() == 0 {
        Seq::empty()
    } else {
        let prev = kept(s.drop_last(), keep.take(s.len() - 1));
        if keep[s.len() - 1] {
            prev.push(s.last())
        } else {
            prev
        }
    }
}

/// The number of cleared flags among the first `n` of `keep`.
pub open spec fn dropped_count(keep: Seq<bool>, n: int) -> nat
    decreases n,
{
    if n <= 0 {
        0
    } else if keep[n - 1] {
        dropped_count(keep, n - 1)
    } else {
        dropped_count(keep, n - 1) + 1
    }
}

/// Pruning removes exactly one element for each cleared flag: the list
/// shrinks by the number of failed deliveries and by nothing else.
pub proof fn lemma_kept_len<A>(s: Seq<A>, keep: Seq<bool>)
    requires
        s.len() == keep.len(),
    ensures
        kept(s, keep).len() + dropped_count(keep, keep.len() as int) == s.len(),
    decreases s.len(),
{
    if s.len() > 0 {
        let n = s.len() - 1;
        lemma_kept_len(s.drop_last(), keep.take(n));
        lemma_dropped_count_prefix(keep, n);
    }
}

/// A fan-out pass in which exactly one delivery is refused leaves exactly
/// one slot fewer, and every other slot in its place.
pub proof fn lemma_one_refused<A>(s: Seq<A>, keep: Seq<bool>, i: int)
    requires
        s.len() == keep.len(),
        0 <= i < s.len(),
        !keep[i],
        forall|j: int| 0 <= j < s.len() && j != i ==> keep[j],
    ensures
        kept(s, keep).len() == s.len() - 1,
        kept(s, keep) == s.remove(i),
    decreases s.len(),
{
    lemma_kept_len(s, keep);
    lemma_dropped_count_one(keep, i, keep.len() as int);
    if i == s.len() - 1 {
        lemma_kept_all(s.drop_last(), keep.take(s.len() - 1));
        assert(s.remove(i) =~= s.drop_last());
    } else {
        let n = s.len() - 1;
        lemma_one_refused(s.drop_last(), keep.take(n), i);
        assert(s.remove(i) =~= s.drop_last().remove(i).push(s.last()));
    }
}

/// With no delivery refused, the pass keeps the whole list.
proof fn lemma_kept_all<A>(s: Seq<A>, keep: Seq<bool>)
    requires
        s.len() == keep.len(),
        forall|j: int| 0 <= j < s.len() ==> keep[j],
    ensures
        kept(s, keep) == s,
    decreases s.len(),
{
    if s.len() > 0 {
        lemma_kept_all(s.drop_last(), keep.take(s.len() - 1));
        assert(s.drop_last().push(s.last()) =~= s);
    }
}

proof fn lemma_dropped_count_one(keep: Seq<bool>, i: int, n: int)
    requires
        0 <= i < keep.len(),
        0 <= n <= keep.len(),
        !keep[i],
        forall|j: int| 0 <= j < keep.len() && j != i ==> keep[j],
    ensures
        dropped_count(keep, n) == if n > i { 1nat } else { 0nat },
    decreases n,
{
    if n > 0 {
        lemma_dropped_count_one(keep, i, n - 1);
    }
}

proof fn lemma_dropped_count_prefix(keep: Seq<bool>, n: int)
    requires
        0 <= n <= keep.len(),
    ensures
        dropped_count(keep.take(n), n) == dropped_count(keep, n),
{
    lemma_dropped_count_agree(keep.take(n), keep, n);
}

/// The count over the first `n` flags reads only those flags.
proof fn lemma_dropped_count_agree(a: Seq<bool>, b: Seq<bool>, n: int)
    requires
        0 <= n <= a.len(),
        n <= b.len(),
        forall|j: int| 0 <= j < n ==> a[j] == b[j],
    ensures
        dropped_count(a, n) == dropped_count(b, n),
    decreases n,
{
    if n > 0 {
        lemma_dropped_count_agree(a, b, n - 1);
    }
}

proof fn lemma_kept_extend<A>(s: Seq<A>, keep: Seq<bool>, i: int)
    requires
        s.len() == keep.len(),
        0 <= i < s.len(),
    ensures
        kept(s.take(i + 1), keep.take(i + 1)) == if keep[i] {
            kept(s.take(i), keep.take(i)).push(s[i])
        } else {
            kept(s.take(i), keep.take(i))
        },
{
    assert(s.take(i + 1).drop_last() =~= s.take(i));
    assert(keep.take(i + 1).take(i) =~= keep.take(i));
}

/// Removes, in place, every element whose flag in `keep` is cleared; the
/// others stay in their order.
pub fn retain_delivered<A>(v: &mut Vec<A>, keep: &Vec<bool>)
    requires
        old(v)@.len() == keep@.len(),
    ensures
        final(v)@ == kept(old(v)@, keep@),
{
    let ghost orig = v@;
    let n = keep.len();
    let mut i: usize = 0;
    let mut w: usize = 0;
    while i < n
        invariant
            n == keep@.len(),
            orig.len() == n,
            i <= n,
            w <= i,
            w == kept(orig.take(i as int), keep@.take(i as int)).len(),
            v@ == kept(orig.take(i as int), keep@.take(i as int)) + orig.skip(i as int),
        decreases n - i,
    {
        proof {
            lemma_kept_extend(orig, keep@, i as int);
        }
        let ghost pre = kept(orig.take(i as int), keep@.take(i as int));
        if keep[i] {
            w = w + 1;
            assert(v@ =~= pre.push(orig[i as int]) + orig.skip(i + 1));
        } else {
            v.remove(w);
            assert(v@ =~= pre + orig.skip(i + 1));
        }
        i = i + 1;
    }
    assert(orig.take(n as int) =~= orig);
    assert(keep@.take(n as int) =~= keep@);
}

/// One fan-out pass: offers `item` to every subscriber slot, a copy to each
/// but the last, which gets `item` itself, and then removes each slot whose
/// receiving end was gone.
///
/// Returns, slot by slot in the old order, whether the delivery was taken.
pub fn send_or_remove<T: Clone>(subscribers: &mut Vec<Sender<T>>, item: T) -> (delivered: Vec<bool>)
    ensures
        delivered@.len() == old(subscribers)@.len(),
        final(subscribers)@ == kept(old(subscribers)@, delivered@),
        old(subscribers)@.len() == 0 ==> final(subscribers)@.len() == 0,
{
    let n = subscribers.len();
    let mut delivered: Vec<bool> = Vec::new();
    if n == 0 {
        proof {
            assert(subscribers@ =~= kept(subscribers@, delivered@));
        }
        return delivered;
    }
    let mut i: usize = 0;
    while i + 1 < n
        invariant
            n == subscribers@.len(),
            i < n,
            delivered@.len() == i,
        decreases n - i,
    {
        let ok = match channel_send(&subscribers[i], item.clone()) {
            Ok(_) => true,
            Err(_) => false,
        };
        delivered.push(ok);
        i = i + 1;
    }
    let ok = match channel_send(&subscribers[n - 1], item) {
        Ok(_) => true,
        Err(_) => false,
    };
    delivered.push(ok);
    retain_delivered(subscribers, &delivered);
    delivered
}

/// The character of decimal digit `d`.
pub open spec fn digit_char(d: int) -> char {
    if d == 0 { '0' }
    else if d == 1 { '1' }
    else if d == 2 { '2' }
    else if d == 3 { '3' }
    else if d == 4 { '4' }
    else if d == 5 { '5' }
    else if d == 6 { '6' }
    else if d == 7 { '7' }
    else if d == 8 { '8' }
    else { '9' }
}

/// `pct` in decimal, right-justified in three characters, then `%`.
pub open spec fn percent_field(pct: u8) -> Seq<char> {
    let hundreds = if pct >= 100 { digit_char(pct as int / 100) } else { ' ' };
    let tens = if pct >= 10 { digit_char((pct as int / 10) % 10) } else { ' ' };
    seq![hundreds, tens, digit_char(pct as int % 10), '%']
}

/// The text of a report: the percent field, then ` - ` and the message when
/// there is one.
pub open spec fn rendered(pct: u8, msg: Seq<char>) -> Seq<char> {
    if msg.len() == 0 {
        percent_field(pct)
    } else {
        percent_field(pct) + seq![' ', '-', ' '] + msg
    }
}

fn digit_str(d: u8) -> (r: &'static str)
    requires
        d < 10,
    ensures
        r@ == seq![digit_char(d as int)],
{
    proof {
        reveal_strlit("0");
        reveal_strlit("1");
        reveal_strlit("2");
        reveal_strlit("3");
        reveal_strlit("4");
        reveal_strlit("5");
        reveal_strlit("6");
        reveal_strlit("7");
        reveal_strlit("8");
        reveal_strlit("9");
    }
    match d {
        0 => "0",
        1 => "1",
        2 => "2",
        3 => "3",
        4 => "4",
        5 => "5",
        6 => "6",
        7 => "7",
        8 => "8",
        _ => "9",
    }
}

/// The text of a message, whether borrowed or owned.
fn cow_str<'a>(c: &'a Cow<'static, str>) -> (r: &'a str)
    ensures
        r@ == c@,
{
    match c {
        Cow::Borrowed(b) => *b,
        Cow::Owned(o) => o.as_str(),
    }
}

/// An in-progress report.
#[derive(Debug)]
pub struct Progress {
    /// A progress message, if any.
    pub msg: Cow<'static, str>,
    /// A percentage of progress (if known). Should be an integer from 0-100,
    /// but there is no guarantee: any `u8` value is kept as it is.
    pub pct: u8,
}

impl Progress {
    /// The report as text: `pct` right-justified in three characters and
    /// `%`, then ` - ` and the message if the message is not empty.
    pub fn to_string(&self) -> (r: String)
        ensures
            r@ == rendered(self.pct, self.msg@),
    {
        proof {
            reveal_strlit(" ");
            reveal_strlit("%");
            reveal_strlit(" - ");
        }
        let pct = self.pct;
        let mut out = String::new();
        if pct >= 100 {
            out.append(digit_str(pct / 100));
        } else {
            out.append(" ");
        }
        if pct >= 10 {
            out.append(digit_str((pct / 10) % 10));
        } else {
            out.append(" ");
        }
        out.append(digit_str(pct % 10));
        out.append("%");
        let msg = cow_str(&self.msg);
        if !msg.is_empty() {
            out.append(" - ");
            out.append(msg);
        }
        assert(out@ =~= rendered(self.pct, self.msg@));
        out
    }
}

impl Clone for Progress {
    /// A borrowed message stays borrowed; an owned one is copied.
    fn clone(&self) -> (r: Progress)
        ensures
            r.pct == self.pct,
            r.msg@ == self.msg@,
    {
        let msg = match &self.msg {
            Cow::Borrowed(b) => Cow::Borrowed(*b),
            Cow::Owned(o) => Cow::Owned(o.clone()),
        };
        Progress { msg, pct: self.pct }
    }
}

impl PartialEq for Progress {
    fn eq(&self, other: &Progress) -> (r: bool) {
        self.pct == other.pct && str_eq(cow_str(&self.msg), cow_str(&other.msg))
    }
}

impl vstd::std_specs::cmp::PartialEqSpecImpl for Progress {
    open spec fn obeys_eq_spec() -> bool {
        true
    }

    open spec fn eq_spec(&self, other: &Progress) -> bool {
        self.pct == other.pct && self.msg@ == other.msg@
    }
}

impl Eq for Progress {}

/// The report that `ProgressTx::send` builds: an absent percentage is 0.
fn report_of(pct: Option<u8>, msg: Cow<'static, str>) -> (r: Progress)
    ensures
        r.pct == (match pct {
            Some(p) => p,
            None => 0u8,
        }),
        r.msg@ == msg@,
{
    let pct = match pct {
        Some(p) => p,
        None => 0,
    };
    Progress { msg, pct }
}

/// Progress report transmitter: a publisher of reports together with a
/// cancellation switch.
#[derive(Clone)]
pub struct ProgressTx {
    publisher: Publisher<Progress>,
    cancel: Switch,
}

impl ProgressTx {
    /// The publisher that reports go to.
    pub closed spec fn publisher_of(&self) -> Publisher<Progress> {
        self.publisher
    }

    /// The switch that `cancelled` reads.
    pub closed spec fn switch_of(&self) -> Switch {
        self.cancel
    }

    /// Construct a new progress transmitter, with the given publisher and
    /// cancel switch.
    pub fn new(publisher: Publisher<Progress>, cancel_switch: Switch) -> (r: Self)
        ensures
            r.publisher_of() == publisher,
            r.switch_of() == cancel_switch,
    {
        ProgressTx { publisher, cancel: cancel_switch }
    }

    /// A transmitter linked to no broadcasting system: its channel has no
    /// receiver, and its switch is off and held by nobody else.
    pub fn dummy() -> (r: Self) {
        let (tx, _rx) = unbounded();
        ProgressTx::new(tx, Switch::off())
    }

    /// Send a progress report; an absent percentage is sent as 0.
    pub fn send<P, M>(&self, pct: P, msg: M)
        where
            P: Into<Option<u8>>,
            M: Into<Cow<'static, str>>,
    {
        self.send_report(report_of(pct.into(), msg.into()));
    }

    /// Send a progress report. Whether it reaches anyone is not reported:
    /// with the topic gone it is dropped.
    pub fn send_report(&self, progress: Progress) {
        let _ = channel_send(&self.publisher, progress);
    }

    /// Whether the switch has been flipped to cancel the current processing.
    pub fn cancelled(&self) -> (r: bool) {
        self.cancel.get()
    }
}

/// A broadcasting topic, which can be subscribed or published to.
///
/// Every subscriber slot is the sending half of an unbounded channel whose
/// receiving half was handed out by `subscribe`. All handles made by `clone`
/// share the one list of slots.
#[verifier::reject_recursive_types(T)]
pub struct Topic<T> {
    subscribers: Arc<Mutex<Vec<Sender<T>>>>,
}

impl<T> Topic<T> {
    /// Create a new topic, with no subscribers yet.
    pub fn new() -> (r: Self) {
        Topic { subscribers: Arc::new(new_mutex(Vec::new())) }
    }

    /// Add a subscriber to the topic: it receives every message broadcast
    /// after this call.
    pub fn subscribe(&mut self) -> (r: Subscriber<T>) {
        let (tx, rx) = unbounded();
        let mut guard = lock(&*self.subscribers);
        let subs = guarded(&mut guard);
        subs.push(tx);
        rx
    }

    /// The number of subscriber slots that the topic holds now. A slot whose
    /// receiver was dropped is counted until a broadcast finds it gone.
    pub fn subscriber_count(&self) -> (r: usize) {
        let mut guard = lock(&*self.subscribers);
        let subs = guarded(&mut guard);
        subs.len()
    }

    /// One fan-out pass under the lock: the step that each forwarding task
    /// runs for every message it receives. With no subscriber the message is
    /// dropped.
    ///
    /// Returns, slot by slot, whether the delivery was taken; the slots that
    /// refused it are gone from the topic afterwards.
    pub fn broadcast(&self, item: T) -> (delivered: Vec<bool>)
        where
            T: Clone,
    {
        let mut guard = lock(&*self.subscribers);
        let subs = guarded(&mut guard);
        send_or_remove(subs, item)
    }
}

impl<T> Clone for Topic<T> {
    /// Another handle on the same list of subscribers.
    fn clone(&self) -> (r: Self) {
        Topic { subscribers: Arc::clone(&self.subscribers) }
    }
}

impl<T> Default for Topic<T> {
    fn default() -> (r: Self) {
        Topic::new()
    }
}

} // verus!
