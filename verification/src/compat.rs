//! A collection of impls that provide cross-compatibility between different usage patterns and payload types.
use std::collections::VecDeque;
use std::marker::PhantomData;

use vstd::prelude::*;

use crate::error::Error;
use crate::{
    Callback, CallbackRef, DriveOutcome, Flush, Publish, PublishOutcome, Receive, ReceiveOutcome, Session,
    SessionStatus,
};

verus! {

/// Map a callback from one payload type to another.
///
/// When given a `Fn(I) -> O`, this implements [`Callback`].
/// When given a `Fn(&I) -> O`, this implements [`CallbackRef`].
pub struct MappingCallback<MapFunc, UnderlyingCallback, CallbackPayload, MappedPayload> {
    func: MapFunc,
    callback: UnderlyingCallback,
    _phantom: PhantomData<(CallbackPayload, MappedPayload)>,
}

impl<MapFunc, UnderlyingCallback, CallbackPayload, MappedPayload> MappingCallback<
    MapFunc,
    UnderlyingCallback,
    CallbackPayload,
    MappedPayload,
> {
    /// The function that maps payloads.
    pub closed spec fn map_func(&self) -> MapFunc {
        self.func
    }

    /// The callback that mapped payloads are given to.
    pub closed spec fn inner(&self) -> UnderlyingCallback {
        self.callback
    }

    pub fn new(func: MapFunc, callback: UnderlyingCallback) -> (r: Self)
        ensures
            r.map_func() == func,
            r.inner() == callback,
    {
        Self { func, callback, _phantom: PhantomData }
    }
}

impl<MapFunc, UnderlyingCallback, CallbackPayload, MappedPayload> Callback<CallbackPayload> for MappingCallback<
    MapFunc,
    UnderlyingCallback,
    CallbackPayload,
    MappedPayload,
> where
    MapFunc: Fn(CallbackPayload) -> MappedPayload,
    UnderlyingCallback: Callback<MappedPayload>,
 {
    open spec fn wf(&self) -> bool {
        &&& forall|x: CallbackPayload| #[trigger] call_requires(self.map_func(), (x,))
        &&& self.inner().wf()
    }

    open spec fn calls(&self, payload: CallbackPayload, post: &Self) -> bool {
        &&& post.map_func() == self.map_func()
        &&& exists|y: MappedPayload| #[trigger]
            call_ensures(self.map_func(), (payload,), y) && self.inner().calls(y, &post.inner())
    }

    fn callback(&mut self, payload: CallbackPayload) {
        let mapped = (self.func)(payload);
        assert(call_ensures(old(self).map_func(), (payload,), mapped));
        self.callback.callback(mapped)
    }
}

impl<
    MapFunc,
    UnderlyingCallback,
    CallbackPayload,
    MappedPayload,
> CallbackRef<CallbackPayload> for MappingCallback<
    MapFunc,
    UnderlyingCallback,
    CallbackPayload,
    MappedPayload,
> where
    MapFunc: Fn(&CallbackPayload) -> MappedPayload,
    UnderlyingCallback: Callback<MappedPayload>,
 {
    open spec fn wf(&self) -> bool {
        &&& forall|x: &CallbackPayload| #[trigger] call_requires(self.map_func(), (x,))
        &&& self.inner().wf()
    }

    open spec fn calls_ref(&self, payload: &CallbackPayload, post: &Self) -> bool {
        &&& post.map_func() == self.map_func()
        &&& exists|y: MappedPayload| #[trigger]
            call_ensures(self.map_func(), (payload,), y) && self.inner().calls(y, &post.inner())
    }

    fn callback_ref(&mut self, payload: &CallbackPayload) {
        let mapped = (self.func)(payload);
        assert(call_ensures(old(self).map_func(), (payload,), mapped));
        self.callback.callback(mapped)
    }
}

/// Encapsulate an underlying [`Session`] that can [`Receive`], mapping the received payload using the given map function.
///
/// This effectively transforms a recevier of one type into the receiver of another (mapped) type.
pub struct MappingReceiver<MapFunc, Sess, ReceivePayload> {
    func: MapFunc,
    session: Sess,
    _phantom: PhantomData<ReceivePayload>,
}

impl<MapFunc, Sess, ReceivePayload> MappingReceiver<MapFunc, Sess, ReceivePayload> {
    /// The function that maps payloads.
    pub closed spec fn map_func(&self) -> MapFunc {
        self.func
    }

    /// The underlying session.
    pub closed spec fn inner(&self) -> Sess {
        self.session
    }
}

impl<MapFunc, Sess, ReceivePayload> MappingReceiver<MapFunc, Sess, ReceivePayload> where
    MapFunc: for<'a> Fn(Sess::ReceivePayload<'a>) -> ReceivePayload,
    Sess: Receive + 'static,
 {
    /// Whether a function maps every payload that the underlying session may receive.
    pub open spec fn maps_all<'a>(func: MapFunc) -> bool {
        forall|x: Sess::ReceivePayload<'a>| #[trigger] call_requires(func, (x,))
    }

    /// Whether receiving from the underlying session and mapping the payload may lead to `post` with the result `r`.
    pub open spec fn receives_mapped<'a>(
        func: MapFunc,
        session: &Sess,
        post: &Sess,
        r: Result<ReceiveOutcome<ReceivePayload>, Error>,
    ) -> bool {
        exists|x: Result<ReceiveOutcome<Sess::ReceivePayload<'a>>, Error>| #[trigger]
            session.receives(post, x) && match x {
                Err(e) => r == Err::<ReceiveOutcome<ReceivePayload>, Error>(e),
                Ok(ReceiveOutcome::Idle) => r == Ok::<ReceiveOutcome<ReceivePayload>, Error>(
                    ReceiveOutcome::Idle,
                ),
                Ok(ReceiveOutcome::Buffered) => r == Ok::<ReceiveOutcome<ReceivePayload>, Error>(
                    ReceiveOutcome::Buffered,
                ),
                Ok(ReceiveOutcome::Payload(payload)) => r matches Ok(ReceiveOutcome::Payload(mapped))
                    && call_ensures(func, (payload,), mapped),
            }
    }

    /// Receive from the underlying session and map the payload.
    fn receive_mapped<'a>(func: &MapFunc, session: &'a mut Sess) -> (r: Result<
        ReceiveOutcome<ReceivePayload>,
        Error,
    >)
        requires
            old(session).wf(),
            Self::maps_all(*func),
        ensures
            final(session).wf(),
            Self::receives_mapped(*func, old(session), final(session), r),
    {
        Ok(
            match session.receive()? {
                ReceiveOutcome::Idle => ReceiveOutcome::Idle,
                ReceiveOutcome::Buffered => ReceiveOutcome::Buffered,
                ReceiveOutcome::Payload(payload) => {
                    let mapped = (func)(payload);
                    assert(call_ensures(*func, (payload,), mapped));
                    ReceiveOutcome::Payload(mapped)
                },
            },
        )
    }

    pub fn new(func: MapFunc, session: Sess) -> (r: Self)
        ensures
            r.map_func() == func,
            r.inner() == session,
    {
        Self { func, session, _phantom: PhantomData }
    }
}

impl<MapFunc, Sess, ReceivePayload> Session for MappingReceiver<MapFunc, Sess, ReceivePayload> where
    MapFunc: for<'a> Fn(Sess::ReceivePayload<'a>) -> ReceivePayload,
    Sess: Receive + 'static,
 {
    open spec fn wf(&self) -> bool {
        self.inner().wf() && Self::maps_all(self.map_func())
    }

    open spec fn in_status(&self) -> SessionStatus {
        self.inner().in_status()
    }

    open spec fn closes(&self, post: &Self) -> bool {
        self.inner().closes(&post.inner()) && post.map_func() == self.map_func()
    }

    open spec fn drives(&self, post: &Self, r: Result<DriveOutcome, Error>) -> bool {
        self.inner().drives(&post.inner(), r) && post.map_func() == self.map_func()
    }

    fn status(&self) -> SessionStatus {
        self.session.status()
    }

    fn close(&mut self) {
        self.session.close()
    }

    fn drive(&mut self) -> Result<DriveOutcome, Error> {
        self.session.drive()
    }
}

impl<MapFunc, Sess, ReceivePayload> Receive for MappingReceiver<MapFunc, Sess, ReceivePayload> where
    MapFunc: for<'a> Fn(Sess::ReceivePayload<'a>) -> ReceivePayload + 'static,
    Sess: Receive + 'static,
    ReceivePayload: 'static,
 {
    type ReceivePayload<'a> = ReceivePayload;

    open spec fn receives<'a>(
        &self,
        post: &Self,
        r: Result<ReceiveOutcome<Self::ReceivePayload<'a>>, Error>,
    ) -> bool {
        &&& post.map_func() == self.map_func()
        &&& Self::receives_mapped(self.map_func(), &self.inner(), &post.inner(), r)
    }

    fn receive<'a>(&'a mut self) -> Result<ReceiveOutcome<Self::ReceivePayload<'a>>, Error> {
        Self::receive_mapped(&self.func, &mut self.session)
    }
}

impl<MapFunc, Sess, ReceivePayload> Publish for MappingReceiver<MapFunc, Sess, ReceivePayload> where
    MapFunc: for<'a> Fn(Sess::ReceivePayload<'a>) -> ReceivePayload + 'static,
    Sess: Receive + Publish + 'static,
    ReceivePayload: 'static,
 {
    type PublishPayload<'a> = Sess::PublishPayload<'a>;

    open spec fn publishes<'a>(
        &self,
        payload: Self::PublishPayload<'a>,
        post: &Self,
        r: Result<PublishOutcome<Self::PublishPayload<'a>>, Error>,
    ) -> bool {
        self.inner().publishes(payload, &post.inner(), r) && post.map_func() == self.map_func()
    }

    fn publish<'a>(&mut self, payload: Self::PublishPayload<'a>) -> Result<
        PublishOutcome<Self::PublishPayload<'a>>,
        Error,
    > {
        self.session.publish(payload)
    }
}

impl<MapFunc, Sess, ReceivePayload> Flush for MappingReceiver<MapFunc, Sess, ReceivePayload> where
    MapFunc: for<'a> Fn(Sess::ReceivePayload<'a>) -> ReceivePayload + 'static,
    Sess: Receive + Flush + 'static,
    ReceivePayload: 'static,
 {
    open spec fn flushes(&self, post: &Self, r: Result<(), Error>) -> bool {
        self.inner().flushes(&post.inner(), r) && post.map_func() == self.map_func()
    }

    fn flush(&mut self) -> Result<(), Error> {
        self.session.flush()
    }
}

/// A simple queue implementation. [`RefCellQueue`] and [`MutexQueue`] should satisfy most requirements.
pub trait Queue<T> {
    /// Whether [`Queue::push`] of `x` may lead from this queue to `post`.
    open spec fn pushes(&self, x: T, post: &Self) -> bool {
        true
    }

    /// Whether [`Queue::pop`] may lead from this queue to `post` with the result `r`.
    open spec fn pops(&self, post: &Self, r: Option<T>) -> bool {
        true
    }

    fn push(&mut self, x: T)
        ensures
            old(self).pushes(x, final(self)),
    ;

    fn pop(&mut self) -> (r: Option<T>)
        ensures
            old(self).pops(final(self), r),
    ;
}

/// Whether `post` is `items` without the first of them, which is `r`.
pub open spec fn pops_first<T>(items: Seq<T>, post: Seq<T>, r: Option<T>) -> bool {
    if items.len() == 0 {
        r is None && post == items
    } else {
        r == Some(items[0]) && post == items.drop_first()
    }
}

/// A [`Queue`] for one thread. What was pushed first is popped first.
pub struct RefCellQueue<T> {
    queue: VecDeque<T>,
}

impl<T> RefCellQueue<T> {
    /// The items, in the order in which they are popped.
    pub closed spec fn items(&self) -> Seq<T> {
        self.queue@
    }

    pub fn new() -> (r: Self)
        ensures
            r.items() == Seq::<T>::empty(),
    {
        Self { queue: VecDeque::new() }
    }
}

impl<T> Queue<T> for RefCellQueue<T> {
    open spec fn pushes(&self, x: T, post: &Self) -> bool {
        post.items() == self.items().push(x)
    }

    open spec fn pops(&self, post: &Self, r: Option<T>) -> bool {
        pops_first(self.items(), post.items(), r)
    }

    fn push(&mut self, x: T) {
        self.queue.push_back(x);
        assert(self.items() =~= old(self).items().push(x));
    }

    fn pop(&mut self) -> Option<T> {
        let r = self.queue.pop_front();
        assert(pops_first(old(self).items(), self.items(), r));
        r
    }
}

/// A [`Queue`] for several threads, each of which holds it in turn. What was pushed first is popped first.
pub struct MutexQueue<T> {
    queue: VecDeque<T>,
}

impl<T> MutexQueue<T> {
    /// The items, in the order in which they are popped.
    pub closed spec fn items(&self) -> Seq<T> {
        self.queue@
    }

    pub fn new() -> (r: Self)
        ensures
            r.items() == Seq::<T>::empty(),
    {
        Self { queue: VecDeque::new() }
    }
}

impl<T> Queue<T> for MutexQueue<T> {
    open spec fn pushes(&self, x: T, post: &Self) -> bool {
        post.items() == self.items().push(x)
    }

    open spec fn pops(&self, post: &Self, r: Option<T>) -> bool {
        pops_first(self.items(), post.items(), r)
    }

    fn push(&mut self, x: T) {
        self.queue.push_back(x);
        assert(self.items() =~= old(self).items().push(x));
    }

    fn pop(&mut self) -> Option<T> {
        let r = self.queue.pop_front();
        assert(pops_first(old(self).items(), self.items(), r));
        r
    }
}

/// What was pushed first is popped first: what is pushed comes behind all that was pushed before, and is popped when
/// nothing is left of that.
pub proof fn first_pushed_is_popped_first<T>(
    before: RefCellQueue<T>,
    x: T,
    pushed: RefCellQueue<T>,
    popped: RefCellQueue<T>,
    r: Option<T>,
)
    requires
        before.pushes(x, &pushed),
        pushed.pops(&popped, r),
    ensures
        before.items().len() == 0 ==> r == Some(x) && popped.items() == Seq::<T>::empty(),
        before.items().len() > 0 ==> r == Some(before.items()[0]) && popped.items()
            == before.items().drop_first().push(x),
{
    if before.items().len() == 0 {
        assert(popped.items() =~= Seq::<T>::empty());
    } else {
        assert(popped.items() =~= before.items().drop_first().push(x));
    }
}

/// Of a queue for several threads too, what was pushed first is popped first.
pub proof fn first_pushed_is_popped_first_by_any_thread<T>(
    before: MutexQueue<T>,
    x: T,
    pushed: MutexQueue<T>,
    popped: MutexQueue<T>,
    r: Option<T>,
)
    requires
        before.pushes(x, &pushed),
        pushed.pops(&popped, r),
    ensures
        before.items().len() == 0 ==> r == Some(x) && popped.items() == Seq::<T>::empty(),
        before.items().len() > 0 ==> r == Some(before.items()[0]) && popped.items()
            == before.items().drop_first().push(x),
{
    if before.items().len() == 0 {
        assert(popped.items() =~= Seq::<T>::empty());
    } else {
        assert(popped.items() =~= before.items().drop_first().push(x));
    }
}

/// Encapsulates a [`Session`] and a [`Queue`], polling from the [`Queue`] to implement [`Receive`].
///
/// This is meant to be coupled with a [`QueueCallback`] or [`QueueCallbackRef`], transforming a push-oriented callback into
/// a poll-oriented receiver. Payloads dispatched to the [`QueueCallback`]/[`QueueCallbackRef`] that is the receiver's queue
/// are queued so that they may be polled via [`Receive::receive`].
///
/// [`Queue`] is a trait, giving users have the flexibility to choose an implementation that satisfies their
/// [`Publish`]/[`Sync`] requirements.
pub struct QueueReceiver<Sess, Payload, QueueImpl> {
    session: Sess,
    queue: QueueImpl,
    _phantom: PhantomData<Payload>,
}

impl<Sess, Payload, QueueImpl> QueueReceiver<Sess, Payload, QueueImpl> {
    /// The underlying session.
    pub closed spec fn inner(&self) -> Sess {
        self.session
    }

    /// The queue that is polled.
    pub closed spec fn polled(&self) -> QueueImpl {
        self.queue
    }
}

impl<Sess, Payload, QueueImpl> QueueReceiver<Sess, Payload, QueueImpl> where
    Sess: Session,
    QueueImpl: Queue<Payload>,
 {
    /// Encapsulate the underlying session and queue
    pub fn new(session: Sess, queue: QueueImpl) -> (r: Self)
        ensures
            r.inner() == session,
            r.polled() == queue,
    {
        Self { session, queue, _phantom: PhantomData }
    }

    /// The queue that is polled, to add to it.
    pub fn queue_mut<'a>(&'a mut self) -> (r: &'a mut QueueImpl)
        ensures
            *r == old(self).polled(),
            final(self).polled() == *final(r),
            final(self).inner() == old(self).inner(),
    {
        &mut self.queue
    }
}

impl<Sess, Payload, QueueImpl> Session for QueueReceiver<Sess, Payload, QueueImpl> where
    Sess: Session,
    QueueImpl: Queue<Payload>,
 {
    open spec fn wf(&self) -> bool {
        self.inner().wf()
    }

    open spec fn in_status(&self) -> SessionStatus {
        self.inner().in_status()
    }

    open spec fn closes(&self, post: &Self) -> bool {
        self.inner().closes(&post.inner()) && post.polled() == self.polled()
    }

    open spec fn drives(&self, post: &Self, r: Result<DriveOutcome, Error>) -> bool {
        self.inner().drives(&post.inner(), r) && post.polled() == self.polled()
    }

    fn status(&self) -> SessionStatus {
        self.session.status()
    }

    fn close(&mut self) {
        self.session.close()
    }

    fn drive(&mut self) -> Result<DriveOutcome, Error> {
        self.session.drive()
    }
}

impl<Sess, Payload, QueueImpl> Receive for QueueReceiver<Sess, Payload, QueueImpl> where
    Sess: Session + 'static,
    QueueImpl: Queue<Payload> + 'static,
    Payload: 'static,
 {
    type ReceivePayload<'a> = Payload;

    open spec fn receives<'a>(
        &self,
        post: &Self,
        r: Result<ReceiveOutcome<Self::ReceivePayload<'a>>, Error>,
    ) -> bool {
        &&& post.inner() == self.inner()
        &&& match r {
            Ok(ReceiveOutcome::Payload(x)) => self.polled().pops(&post.polled(), Some(x)),
            Ok(ReceiveOutcome::Idle) => self.polled().pops(&post.polled(), None),
            _ => false,
        }
    }

    fn receive<'a>(&'a mut self) -> Result<ReceiveOutcome<Self::ReceivePayload<'a>>, Error> {
        match self.queue.pop() {
            None => Ok(ReceiveOutcome::Idle),
            Some(x) => Ok(ReceiveOutcome::Payload(x)),
        }
    }
}

impl<Sess, Payload, QueueImpl> Publish for QueueReceiver<Sess, Payload, QueueImpl> where
    Sess: Publish + 'static,
    QueueImpl: Queue<Payload> + 'static,
    Payload: 'static,
 {
    type PublishPayload<'a> = Sess::PublishPayload<'a>;

    open spec fn publishes<'a>(
        &self,
        payload: Self::PublishPayload<'a>,
        post: &Self,
        r: Result<PublishOutcome<Self::PublishPayload<'a>>, Error>,
    ) -> bool {
        self.inner().publishes(payload, &post.inner(), r) && post.polled() == self.polled()
    }

    fn publish<'a>(&mut self, payload: Self::PublishPayload<'a>) -> Result<
        PublishOutcome<Self::PublishPayload<'a>>,
        Error,
    > {
        self.session.publish(payload)
    }
}

impl<Sess, Payload, QueueImpl> Flush for QueueReceiver<Sess, Payload, QueueImpl> where
    Sess: Flush + 'static,
    QueueImpl: Queue<Payload> + 'static,
    Payload: 'static,
 {
    open spec fn flushes(&self, post: &Self, r: Result<(), Error>) -> bool {
        self.inner().flushes(&post.inner(), r) && post.polled() == self.polled()
    }

    fn flush(&mut self) -> Result<(), Error> {
        self.session.flush()
    }
}

/// Dispatched payloads are mapped and added to the end of a queue, so that they may be polled via the [`QueueReceiver`] whose
/// queue this is.
pub struct QueueCallback<CallbackPayload, QueuePayload, MapFunc> {
    queue: VecDeque<QueuePayload>,
    map_func: MapFunc,
    _phantom: PhantomData<CallbackPayload>,
}

impl<CallbackPayload, QueuePayload, MapFunc> QueueCallback<CallbackPayload, QueuePayload, MapFunc> {
    /// The payloads that were queued, oldest first.
    pub closed spec fn items(&self) -> Seq<QueuePayload> {
        self.queue@
    }

    /// The function that maps payloads.
    pub closed spec fn func(&self) -> MapFunc {
        self.map_func
    }

    pub fn new(map_func: MapFunc) -> (r: Self)
        ensures
            r.func() == map_func,
            r.items() == Seq::<QueuePayload>::empty(),
    {
        Self { queue: VecDeque::new(), map_func, _phantom: PhantomData }
    }
}

impl<CallbackPayload, QueuePayload, MapFunc> Queue<QueuePayload> for QueueCallback<
    CallbackPayload,
    QueuePayload,
    MapFunc,
> {
    open spec fn pushes(&self, x: QueuePayload, post: &Self) -> bool {
        post.items() == self.items().push(x) && post.func() == self.func()
    }

    open spec fn pops(&self, post: &Self, r: Option<QueuePayload>) -> bool {
        pops_first(self.items(), post.items(), r) && post.func() == self.func()
    }

    /// Queue a payload as it is.
    fn push(&mut self, x: QueuePayload) {
        self.queue.push_back(x);
        assert(self.items() =~= old(self).items().push(x));
    }

    /// Take the payload that was queued first.
    fn pop(&mut self) -> Option<QueuePayload> {
        let r = self.queue.pop_front();
        assert(pops_first(old(self).items(), self.items(), r));
        r
    }
}

impl<CallbackPayload, QueuePayload, MapFunc> Callback<CallbackPayload> for QueueCallback<
    CallbackPayload,
    QueuePayload,
    MapFunc,
> where MapFunc: Fn(CallbackPayload) -> QueuePayload {
    open spec fn wf(&self) -> bool {
        forall|x: CallbackPayload| #[trigger] call_requires(self.func(), (x,))
    }

    open spec fn calls(&self, data: CallbackPayload, post: &Self) -> bool {
        &&& post.func() == self.func()
        &&& post.items().len() == self.items().len() + 1
        &&& post.items() =~= self.items().push(post.items().last())
        &&& call_ensures(self.func(), (data,), post.items().last())
    }

    fn callback(&mut self, data: CallbackPayload) {
        let mapped = (self.map_func)(data);
        self.queue.push_back(mapped);
        assert(self.func() == old(self).func());
    }
}

/// Dispatched payload references are mapped and added to the end of a queue, so that they may be polled via the
/// [`QueueReceiver`] whose queue this is.
pub struct QueueCallbackRef<CallbackPayload, QueuePayload, MapFunc> {
    queue: VecDeque<QueuePayload>,
    map_func: MapFunc,
    _phantom: PhantomData<CallbackPayload>,
}

impl<CallbackPayload, QueuePayload, MapFunc> QueueCallbackRef<CallbackPayload, QueuePayload, MapFunc> {
    /// The payloads that were queued, oldest first.
    pub closed spec fn items(&self) -> Seq<QueuePayload> {
        self.queue@
    }

    /// The function that maps payloads.
    pub closed spec fn func(&self) -> MapFunc {
        self.map_func
    }

    pub fn new(map_func: MapFunc) -> (r: Self)
        ensures
            r.func() == map_func,
            r.items() == Seq::<QueuePayload>::empty(),
    {
        Self { queue: VecDeque::new(), map_func, _phantom: PhantomData }
    }
}

impl<CallbackPayload, QueuePayload, MapFunc> Queue<QueuePayload> for QueueCallbackRef<
    CallbackPayload,
    QueuePayload,
    MapFunc,
> {
    open spec fn pushes(&self, x: QueuePayload, post: &Self) -> bool {
        post.items() == self.items().push(x) && post.func() == self.func()
    }

    open spec fn pops(&self, post: &Self, r: Option<QueuePayload>) -> bool {
        pops_first(self.items(), post.items(), r) && post.func() == self.func()
    }

    /// Queue a payload as it is.
    fn push(&mut self, x: QueuePayload) {
        self.queue.push_back(x);
        assert(self.items() =~= old(self).items().push(x));
    }

    /// Take the payload that was queued first.
    fn pop(&mut self) -> Option<QueuePayload> {
        let r = self.queue.pop_front();
        assert(pops_first(old(self).items(), self.items(), r));
        r
    }
}

impl<CallbackPayload, QueuePayload, MapFunc> CallbackRef<CallbackPayload> for QueueCallbackRef<
    CallbackPayload,
    QueuePayload,
    MapFunc,
> where MapFunc: Fn(&CallbackPayload) -> QueuePayload {
    open spec fn wf(&self) -> bool {
        forall|x: &CallbackPayload| #[trigger] call_requires(self.func(), (x,))
    }

    open spec fn calls_ref(&self, data: &CallbackPayload, post: &Self) -> bool {
        &&& post.func() == self.func()
        &&& post.items().len() == self.items().len() + 1
        &&& post.items() =~= self.items().push(post.items().last())
        &&& call_ensures(self.func(), (data,), post.items().last())
    }

    fn callback_ref(&mut self, data: &CallbackPayload) {
        let mapped = (self.map_func)(data);
        self.queue.push_back(mapped);
        assert(self.func() == old(self).func());
    }
}

/// A call that is made to a [`QueueReceiver`] or to the callback that is its queue, with its result.
pub enum QueueCall<CallbackPayload, QueuePayload> {
    /// A payload is dispatched to the callback.
    Dispatch(CallbackPayload),
    Receive(Result<ReceiveOutcome<QueuePayload>, Error>),
    Drive(Result<DriveOutcome, Error>),
}

/// The payloads that were dispatched, in that order.
pub open spec fn dispatched<CallbackPayload, QueuePayload>(
    calls: Seq<QueueCall<CallbackPayload, QueuePayload>>,
) -> Seq<CallbackPayload>
    decreases calls.len(),
{
    if calls.len() == 0 {
        Seq::empty()
    } else {
        match calls.last() {
            QueueCall::Dispatch(x) => dispatched(calls.drop_last()).push(x),
            _ => dispatched(calls.drop_last()),
        }
    }
}

/// The payloads that were received, in that order.
pub open spec fn received<CallbackPayload, QueuePayload>(
    calls: Seq<QueueCall<CallbackPayload, QueuePayload>>,
) -> Seq<QueuePayload>
    decreases calls.len(),
{
    if calls.len() == 0 {
        Seq::empty()
    } else {
        match calls.last() {
            QueueCall::Receive(Ok(ReceiveOutcome::Payload(x))) => received(calls.drop_last()).push(x),
            _ => received(calls.drop_last()),
        }
    }
}

/// Whether a call may lead from one content of the queue to the next, where `maps` says what a payload may be mapped to.
pub open spec fn queue_steps<CallbackPayload, QueuePayload>(
    before: Seq<QueuePayload>,
    call: QueueCall<CallbackPayload, QueuePayload>,
    after: Seq<QueuePayload>,
    maps: spec_fn(CallbackPayload, QueuePayload) -> bool,
) -> bool {
    match call {
        QueueCall::Dispatch(x) => {
            &&& after.len() == before.len() + 1
            &&& after == before.push(after.last())
            &&& maps(x, after.last())
        },
        QueueCall::Receive(Ok(ReceiveOutcome::Payload(x))) => pops_first(before, after, Some(x)),
        _ => after == before,
    }
}

/// Whether some payloads are what the dispatched ones may be mapped to, one for one and in that order.
pub open spec fn are_mapped<CallbackPayload, QueuePayload>(
    data: Seq<CallbackPayload>,
    mapped: Seq<QueuePayload>,
    maps: spec_fn(CallbackPayload, QueuePayload) -> bool,
) -> bool {
    &&& mapped.len() == data.len()
    &&& forall|i: int| 0 <= i < data.len() ==> maps(data[i], #[trigger] mapped[i])
}

/// Over any calls, what the queue held and what was queued since is what was received and what the queue holds.
proof fn queue_is_first_in_first_out<CallbackPayload, QueuePayload>(
    items: Seq<Seq<QueuePayload>>,
    calls: Seq<QueueCall<CallbackPayload, QueuePayload>>,
    maps: spec_fn(CallbackPayload, QueuePayload) -> bool,
) -> (mapped: Seq<QueuePayload>)
    requires
        items.len() == calls.len() + 1,
        forall|i: int|
            0 <= i < calls.len() ==> queue_steps(items[i], #[trigger] calls[i], items[i + 1], maps),
    ensures
        are_mapped(dispatched(calls), mapped, maps),
        items.first() + mapped == received(calls) + items.last(),
    decreases calls.len(),
{
    if calls.len() == 0 {
        assert(items.first() + Seq::<QueuePayload>::empty() =~= received(calls) + items.last());
        Seq::empty()
    } else {
        let n = calls.len() - 1;
        let before = items.drop_last();
        assert forall|i: int| 0 <= i < n implies queue_steps(
            before[i],
            #[trigger] calls.drop_last()[i],
            before[i + 1],
            maps,
        ) by {
            assert(queue_steps(items[i], calls[i], items[i + 1], maps));
        }
        let mapped = queue_is_first_in_first_out(before, calls.drop_last(), maps);
        assert(queue_steps(items[n], calls[n], items[n + 1], maps));
        match calls.last() {
            QueueCall::Dispatch(x) => {
                let y = items.last().last();
                assert(items.first() + mapped.push(y) =~= (items.first() + mapped).push(y));
                assert(received(calls) + items.last() =~= (received(calls) + before.last()).push(y));
                mapped.push(y)
            },
            QueueCall::Receive(Ok(ReceiveOutcome::Payload(x))) => {
                assert(seq![x] + items.last() =~= before.last());
                assert(received(calls) + items.last() =~= received(calls.drop_last()) + before.last());
                mapped
            },
            _ => mapped,
        }
    }
}

/// Whether a call may lead from one state of a receiver to the next, where the receiver's queue is a [`QueueCallback`].
pub open spec fn callback_steps<Sess, CallbackPayload, QueuePayload, MapFunc>(
    before: QueueReceiver<Sess, QueuePayload, QueueCallback<CallbackPayload, QueuePayload, MapFunc>>,
    call: QueueCall<CallbackPayload, QueuePayload>,
    after: QueueReceiver<Sess, QueuePayload, QueueCallback<CallbackPayload, QueuePayload, MapFunc>>,
) -> bool where
    Sess: Session + 'static,
    CallbackPayload: 'static,
    QueuePayload: 'static,
    MapFunc: Fn(CallbackPayload) -> QueuePayload + 'static,
 {
    match call {
        QueueCall::Dispatch(x) => before.polled().calls(x, &after.polled()),
        QueueCall::Receive(r) => before.receives(&after, r),
        QueueCall::Drive(r) => before.drives(&after, r),
    }
}

/// The function that maps payloads stays the same.
proof fn callback_is_kept<Sess, CallbackPayload, QueuePayload, MapFunc>(
    receivers: Seq<QueueReceiver<Sess, QueuePayload, QueueCallback<CallbackPayload, QueuePayload, MapFunc>>>,
    calls: Seq<QueueCall<CallbackPayload, QueuePayload>>,
    i: int,
) where
    Sess: Session + 'static,
    CallbackPayload: 'static,
    QueuePayload: 'static,
    MapFunc: Fn(CallbackPayload) -> QueuePayload + 'static,

    requires
        receivers.len() == calls.len() + 1,
        forall|i: int|
            0 <= i < calls.len() ==> callback_steps(receivers[i], #[trigger] calls[i], receivers[i + 1]),
        0 <= i < receivers.len(),
    ensures
        receivers[i].polled().func() == receivers.first().polled().func(),
    decreases i,
{
    if i > 0 {
        callback_is_kept(receivers, calls, i - 1);
        assert(callback_steps(receivers[i - 1], calls[i - 1], receivers[i]));
    }
}

/// Payloads that are dispatched to the [`QueueCallback`] of a [`QueueReceiver`] are mapped and received in the order in
/// which they were dispatched, after those that it held, and each once. Those that were not received yet are in the queue.
pub proof fn dispatched_payloads_are_received<Sess, CallbackPayload, QueuePayload, MapFunc>(
    receivers: Seq<QueueReceiver<Sess, QueuePayload, QueueCallback<CallbackPayload, QueuePayload, MapFunc>>>,
    calls: Seq<QueueCall<CallbackPayload, QueuePayload>>,
) -> (mapped: Seq<QueuePayload>) where
    Sess: Session + 'static,
    CallbackPayload: 'static,
    QueuePayload: 'static,
    MapFunc: Fn(CallbackPayload) -> QueuePayload + 'static,

    requires
        receivers.len() == calls.len() + 1,
        forall|i: int|
            0 <= i < calls.len() ==> callback_steps(receivers[i], #[trigger] calls[i], receivers[i + 1]),
    ensures
        are_mapped(
            dispatched(calls),
            mapped,
            |x: CallbackPayload, y: QueuePayload| call_ensures(receivers.first().polled().func(), (x,), y),
        ),
        receivers.first().polled().items() + mapped == received(calls)
            + receivers.last().polled().items(),
{
    let func = receivers.first().polled().func();
    let maps = |x: CallbackPayload, y: QueuePayload| call_ensures(func, (x,), y);
    let items = Seq::new(receivers.len(), |i: int| receivers[i].polled().items());
    assert forall|i: int| 0 <= i < receivers.len() implies (#[trigger] receivers[i]).polled().func() == func by {
        callback_is_kept(receivers, calls, i);
    }
    assert forall|i: int| 0 <= i < calls.len() implies queue_steps(
        items[i],
        #[trigger] calls[i],
        items[i + 1],
        maps,
    ) by {
        assert(callback_steps(receivers[i], calls[i], receivers[i + 1]));
    }
    queue_is_first_in_first_out(items, calls, maps)
}

/// Whether a call may lead from one state of a receiver to the next, where the receiver's queue is a [`QueueCallbackRef`].
pub open spec fn callback_ref_steps<Sess, CallbackPayload, QueuePayload, MapFunc>(
    before: QueueReceiver<Sess, QueuePayload, QueueCallbackRef<CallbackPayload, QueuePayload, MapFunc>>,
    call: QueueCall<CallbackPayload, QueuePayload>,
    after: QueueReceiver<Sess, QueuePayload, QueueCallbackRef<CallbackPayload, QueuePayload, MapFunc>>,
) -> bool where
    Sess: Session + 'static,
    CallbackPayload: 'static,
    QueuePayload: 'static,
    MapFunc: Fn(&CallbackPayload) -> QueuePayload + 'static,
 {
    match call {
        QueueCall::Dispatch(x) => before.polled().calls_ref(&x, &after.polled()),
        QueueCall::Receive(r) => before.receives(&after, r),
        QueueCall::Drive(r) => before.drives(&after, r),
    }
}

/// The function that maps payloads stays the same.
proof fn callback_ref_is_kept<Sess, CallbackPayload, QueuePayload, MapFunc>(
    receivers: Seq<QueueReceiver<Sess, QueuePayload, QueueCallbackRef<CallbackPayload, QueuePayload, MapFunc>>>,
    calls: Seq<QueueCall<CallbackPayload, QueuePayload>>,
    i: int,
) where
    Sess: Session + 'static,
    CallbackPayload: 'static,
    QueuePayload: 'static,
    MapFunc: Fn(&CallbackPayload) -> QueuePayload + 'static,

    requires
        receivers.len() == calls.len() + 1,
        forall|i: int|
            0 <= i < calls.len() ==> callback_ref_steps(receivers[i], #[trigger] calls[i], receivers[i + 1]),
        0 <= i < receivers.len(),
    ensures
        receivers[i].polled().func() == receivers.first().polled().func(),
    decreases i,
{
    if i > 0 {
        callback_ref_is_kept(receivers, calls, i - 1);
        assert(callback_ref_steps(receivers[i - 1], calls[i - 1], receivers[i]));
    }
}

/// Payloads whose references are dispatched to the [`QueueCallbackRef`] of a [`QueueReceiver`] are mapped and received in
/// the order in which they were dispatched, after those that it held, and each once. Those that were not received yet are
/// in the queue.
pub proof fn dispatched_references_are_received<Sess, CallbackPayload, QueuePayload, MapFunc>(
    receivers: Seq<QueueReceiver<Sess, QueuePayload, QueueCallbackRef<CallbackPayload, QueuePayload, MapFunc>>>,
    calls: Seq<QueueCall<CallbackPayload, QueuePayload>>,
) -> (mapped: Seq<QueuePayload>) where
    Sess: Session + 'static,
    CallbackPayload: 'static,
    QueuePayload: 'static,
    MapFunc: Fn(&CallbackPayload) -> QueuePayload + 'static,

    requires
        receivers.len() == calls.len() + 1,
        forall|i: int|
            0 <= i < calls.len() ==> callback_ref_steps(receivers[i], #[trigger] calls[i], receivers[i + 1]),
    ensures
        are_mapped(
            dispatched(calls),
            mapped,
            |x: CallbackPayload, y: QueuePayload| call_ensures(receivers.first().polled().func(), (&x,), y),
        ),
        receivers.first().polled().items() + mapped == received(calls)
            + receivers.last().polled().items(),
{
    let func = receivers.first().polled().func();
    let maps = |x: CallbackPayload, y: QueuePayload| call_ensures(func, (&x,), y);
    let items = Seq::new(receivers.len(), |i: int| receivers[i].polled().items());
    assert forall|i: int| 0 <= i < receivers.len() implies (#[trigger] receivers[i]).polled().func() == func by {
        callback_ref_is_kept(receivers, calls, i);
    }
    assert forall|i: int| 0 <= i < calls.len() implies queue_steps(
        items[i],
        #[trigger] calls[i],
        items[i + 1],
        maps,
    ) by {
        assert(callback_ref_steps(receivers[i], calls[i], receivers[i + 1]));
    }
    queue_is_first_in_first_out(items, calls, maps)
}

/// This transforms any poll-oriented [`Receive`]-capable [`Session`] into a push-oriented [`Callback`].
///
/// This encapsulate a [`Callback`] and [`Session`] that can [`Receive`].
/// Calls to [`CallbackDriver::drive`] will [`Receive::receive`] and dispatch any received data to the underlying
/// [`Callback`].
pub struct CallbackDriver<R, C> {
    session: R,
    callback: C,
}

impl<R, C> CallbackDriver<R, C> {
    /// The underlying session.
    pub closed spec fn inner(&self) -> R {
        self.session
    }

    /// The callback that received data is dispatched to.
    pub closed spec fn target(&self) -> C {
        self.callback
    }

    pub fn new(session: R, callback: C) -> (r: Self)
        ensures
            r.inner() == session,
            r.target() == callback,
    {
        Self { session, callback }
    }
}

impl<R, C> CallbackDriver<R, C> where
    R: Receive + 'static,
    C: for<'a> Callback<R::ReceivePayload<'a>> + 'static,
 {
    /// Whether the callback may be given every payload that the session may receive.
    pub open spec fn target_wf<'a>(callback: &C) -> bool {
        <C as Callback<R::ReceivePayload<'a>>>::wf(callback)
    }

    /// Whether receiving and dispatching may lead to `post` and `post_callback` with the result `r`, when driving reported
    /// `o`.
    pub open spec fn dispatches<'a>(
        session: &R,
        callback: &C,
        o: DriveOutcome,
        post: &R,
        post_callback: &C,
        r: Result<DriveOutcome, Error>,
    ) -> bool {
        exists|x: Result<ReceiveOutcome<R::ReceivePayload<'a>>, Error>| #[trigger]
            session.receives(post, x) && match x {
                Err(e) => r == Err::<DriveOutcome, Error>(e) && *post_callback == *callback,
                Ok(ReceiveOutcome::Payload(data)) => r == Ok::<DriveOutcome, Error>(DriveOutcome::Active)
                    && callback.calls(data, post_callback),
                Ok(_) => r == Ok::<DriveOutcome, Error>(o) && *post_callback == *callback,
            }
    }

    /// Receive from the session and dispatch what was received.
    fn dispatch<'a>(session: &'a mut R, callback: &mut C, o: DriveOutcome) -> (r: Result<DriveOutcome, Error>)
        requires
            old(session).wf(),
            Self::target_wf(old(callback)),
        ensures
            final(session).wf(),
            Self::target_wf(final(callback)),
            Self::dispatches(old(session), old(callback), o, final(session), final(callback), r),
    {
        let mut outcome = o;
        if let ReceiveOutcome::Payload(data) = session.receive()? {
            callback.callback(data);
            outcome = DriveOutcome::Active;
        }
        Ok(outcome)
    }
}

impl<R, C> Session for CallbackDriver<R, C> where
    R: Receive + 'static,
    C: for<'a> Callback<R::ReceivePayload<'a>> + 'static,
 {
    open spec fn wf(&self) -> bool {
        self.inner().wf() && Self::target_wf(&self.target())
    }

    open spec fn in_status(&self) -> SessionStatus {
        self.inner().in_status()
    }

    open spec fn closes(&self, post: &Self) -> bool {
        self.inner().closes(&post.inner()) && post.target() == self.target()
    }

    open spec fn drives(&self, post: &Self, r: Result<DriveOutcome, Error>) -> bool {
        exists|mid: R, d: Result<DriveOutcome, Error>| #[trigger]
            self.inner().drives(&mid, d) && match d {
                Err(e) => r == d && post.inner() == mid && post.target() == self.target(),
                Ok(o) => Self::dispatches(&mid, &self.target(), o, &post.inner(), &post.target(), r),
            }
    }

    fn status(&self) -> SessionStatus {
        self.session.status()
    }

    fn close(&mut self) {
        self.session.close()
    }

    fn drive(&mut self) -> Result<DriveOutcome, Error> {
        let driven = self.session.drive();
        assert(old(self).inner().drives(&self.inner(), driven));
        let outcome = driven?;
        Self::dispatch(&mut self.session, &mut self.callback, outcome)
    }
}

impl<S, C> Publish for CallbackDriver<S, C> where
    S: Publish + Receive + 'static,
    C: for<'a> Callback<S::ReceivePayload<'a>> + 'static,
 {
    type PublishPayload<'a> = S::PublishPayload<'a>;

    open spec fn publishes<'a>(
        &self,
        data: Self::PublishPayload<'a>,
        post: &Self,
        r: Result<PublishOutcome<Self::PublishPayload<'a>>, Error>,
    ) -> bool {
        self.inner().publishes(data, &post.inner(), r) && post.target() == self.target()
    }

    fn publish<'a>(&mut self, data: Self::PublishPayload<'a>) -> Result<
        PublishOutcome<Self::PublishPayload<'a>>,
        Error,
    > {
        self.session.publish(data)
    }
}

impl<S, C> Flush for CallbackDriver<S, C> where
    S: Flush + Receive + 'static,
    C: for<'a> Callback<S::ReceivePayload<'a>> + 'static,
 {
    open spec fn flushes(&self, post: &Self, r: Result<(), Error>) -> bool {
        self.inner().flushes(&post.inner(), r) && post.target() == self.target()
    }

    fn flush(&mut self) -> Result<(), Error> {
        self.session.flush()
    }
}

/// This transforms any poll-oriented [`Receive`]-capable [`Session`] into a push-oriented [`CallbackRef`].
///
/// This encapsulate a [`CallbackRef`] and [`Session`] that can [`Receive`].
/// Calls to [`CallbackRefDriver::drive`] will [`Receive::receive`] and dispatch any received data to the underlying
/// [`CallbackRef`].
pub struct CallbackRefDriver<R, C> {
    session: R,
    callback: C,
}

impl<R, C> CallbackRefDriver<R, C> {
    /// The underlying session.
    pub closed spec fn inner(&self) -> R {
        self.session
    }

    /// The callback that received data is dispatched to.
    pub closed spec fn target(&self) -> C {
        self.callback
    }

    pub fn new(session: R, callback: C) -> (r: Self)
        ensures
            r.inner() == session,
            r.target() == callback,
    {
        Self { session, callback }
    }
}

impl<R, C> CallbackRefDriver<R, C> where
    R: Receive + 'static,
    C: for<'a> CallbackRef<R::ReceivePayload<'a>> + 'static,
 {
    /// Whether the callback may be given every payload that the session may receive.
    pub open spec fn target_wf<'a>(callback: &C) -> bool {
        <C as CallbackRef<R::ReceivePayload<'a>>>::wf(callback)
    }

    /// Whether receiving and dispatching may lead to `post` and `post_callback` with the result `r`, when driving reported
    /// `o`.
    pub open spec fn dispatches<'a>(
        session: &R,
        callback: &C,
        o: DriveOutcome,
        post: &R,
        post_callback: &C,
        r: Result<DriveOutcome, Error>,
    ) -> bool {
        exists|x: Result<ReceiveOutcome<R::ReceivePayload<'a>>, Error>| #[trigger]
            session.receives(post, x) && match x {
                Err(e) => r == Err::<DriveOutcome, Error>(e) && *post_callback == *callback,
                Ok(ReceiveOutcome::Payload(data)) => r == Ok::<DriveOutcome, Error>(DriveOutcome::Active)
                    && callback.calls_ref(&data, post_callback),
                Ok(_) => r == Ok::<DriveOutcome, Error>(o) && *post_callback == *callback,
            }
    }

    /// Receive from the session and dispatch what was received.
    fn dispatch<'a>(session: &'a mut R, callback: &mut C, o: DriveOutcome) -> (r: Result<DriveOutcome, Error>)
        requires
            old(session).wf(),
            Self::target_wf(old(callback)),
        ensures
            final(session).wf(),
            Self::target_wf(final(callback)),
            Self::dispatches(old(session), old(callback), o, final(session), final(callback), r),
    {
        let mut outcome = o;
        if let ReceiveOutcome::Payload(data) = session.receive()? {
            callback.callback_ref(&data);
            outcome = DriveOutcome::Active;
        }
        Ok(outcome)
    }
}

impl<R, C> Session for CallbackRefDriver<R, C> where
    R: Receive + 'static,
    C: for<'a> CallbackRef<R::ReceivePayload<'a>> + 'static,
 {
    open spec fn wf(&self) -> bool {
        self.inner().wf() && Self::target_wf(&self.target())
    }

    open spec fn in_status(&self) -> SessionStatus {
        self.inner().in_status()
    }

    open spec fn closes(&self, post: &Self) -> bool {
        self.inner().closes(&post.inner()) && post.target() == self.target()
    }

    open spec fn drives(&self, post: &Self, r: Result<DriveOutcome, Error>) -> bool {
        exists|mid: R, d: Result<DriveOutcome, Error>| #[trigger]
            self.inner().drives(&mid, d) && match d {
                Err(e) => r == d && post.inner() == mid && post.target() == self.target(),
                Ok(o) => Self::dispatches(&mid, &self.target(), o, &post.inner(), &post.target(), r),
            }
    }

    fn status(&self) -> SessionStatus {
        self.session.status()
    }

    fn close(&mut self) {
        self.session.close()
    }

    fn drive(&mut self) -> Result<DriveOutcome, Error> {
        let driven = self.session.drive();
        assert(old(self).inner().drives(&self.inner(), driven));
        let outcome = driven?;
        Self::dispatch(&mut self.session, &mut self.callback, outcome)
    }
}

impl<S, C> Publish for CallbackRefDriver<S, C> where
    S: Publish + Receive + 'static,
    C: for<'a> CallbackRef<S::ReceivePayload<'a>> + 'static,
 {
    type PublishPayload<'a> = S::PublishPayload<'a>;

    open spec fn publishes<'a>(
        &self,
        data: Self::PublishPayload<'a>,
        post: &Self,
        r: Result<PublishOutcome<Self::PublishPayload<'a>>, Error>,
    ) -> bool {
        self.inner().publishes(data, &post.inner(), r) && post.target() == self.target()
    }

    fn publish<'a>(&mut self, data: Self::PublishPayload<'a>) -> Result<
        PublishOutcome<Self::PublishPayload<'a>>,
        Error,
    > {
        self.session.publish(data)
    }
}

impl<S, C> Flush for CallbackRefDriver<S, C> where
    S: Flush + Receive + 'static,
    C: for<'a> CallbackRef<S::ReceivePayload<'a>> + 'static,
 {
    open spec fn flushes(&self, post: &Self, r: Result<(), Error>) -> bool {
        self.inner().flushes(&post.inner(), r) && post.target() == self.target()
    }

    fn flush(&mut self) -> Result<(), Error> {
        self.session.flush()
    }
}

/// A payload is mapped once, by the function of the callback, and what it is mapped to is given to the underlying callback.
pub proof fn mapped_payload_is_given_on<MapFunc, UnderlyingCallback, CallbackPayload, MappedPayload>(
    pre: MappingCallback<MapFunc, UnderlyingCallback, CallbackPayload, MappedPayload>,
    payload: CallbackPayload,
    post: MappingCallback<MapFunc, UnderlyingCallback, CallbackPayload, MappedPayload>,
) where MapFunc: Fn(CallbackPayload) -> MappedPayload, UnderlyingCallback: Callback<MappedPayload>
    requires
        pre.calls(payload, &post),
    ensures
        post.map_func() == pre.map_func(),
        exists|y: MappedPayload|
            call_ensures(pre.map_func(), (payload,), y) && #[trigger] pre.inner().calls(y, &post.inner()),
{
    let y = choose|y: MappedPayload| #[trigger]
        call_ensures(pre.map_func(), (payload,), y) && pre.inner().calls(y, &post.inner());
    assert(pre.inner().calls(y, &post.inner()));
}

/// The same of a reference to a payload.
pub proof fn mapped_reference_is_given_on<MapFunc, UnderlyingCallback, CallbackPayload, MappedPayload>(
    pre: MappingCallback<MapFunc, UnderlyingCallback, CallbackPayload, MappedPayload>,
    payload: &CallbackPayload,
    post: MappingCallback<MapFunc, UnderlyingCallback, CallbackPayload, MappedPayload>,
) where MapFunc: Fn(&CallbackPayload) -> MappedPayload, UnderlyingCallback: Callback<MappedPayload>
    requires
        pre.calls_ref(payload, &post),
    ensures
        post.map_func() == pre.map_func(),
        exists|y: MappedPayload|
            call_ensures(pre.map_func(), (payload,), y) && #[trigger] pre.inner().calls(y, &post.inner()),
{
    let y = choose|y: MappedPayload| #[trigger]
        call_ensures(pre.map_func(), (payload,), y) && pre.inner().calls(y, &post.inner());
    assert(pre.inner().calls(y, &post.inner()));
}

/// What is received is what the underlying session receives, with a payload mapped by the function. An outcome without a
/// payload and an error are passed on as they are.
pub proof fn received_payload_is_mapped<'a, MapFunc, Sess, ReceivePayload>(
    pre: MappingReceiver<MapFunc, Sess, ReceivePayload>,
    post: MappingReceiver<MapFunc, Sess, ReceivePayload>,
    r: Result<ReceiveOutcome<ReceivePayload>, Error>,
) where
    MapFunc: for<'b> Fn(Sess::ReceivePayload<'b>) -> ReceivePayload + 'static,
    Sess: Receive + 'static,
    ReceivePayload: 'static,

    requires
        pre.receives(&post, r),
    ensures
        post.map_func() == pre.map_func(),
        exists|x: Result<ReceiveOutcome<Sess::ReceivePayload<'a>>, Error>|
            {
                &&& #[trigger] pre.inner().receives(&post.inner(), x)
                &&& x is Err <==> r is Err
                &&& x is Err ==> x->Err_0 == r->Err_0
                &&& (x is Ok && x->Ok_0 is Idle) <==> (r is Ok && r->Ok_0 is Idle)
                &&& (x is Ok && x->Ok_0 is Buffered) <==> (r is Ok && r->Ok_0 is Buffered)
                &&& (x matches Ok(ReceiveOutcome::Payload(payload)) ==> (r matches Ok(ReceiveOutcome::Payload(mapped))
                    && call_ensures(pre.map_func(), (payload,), mapped)))
            },
{
}

/// A receiver with a queue gives what it pops from the queue, and is idle when there is nothing to pop. It never fails, and
/// the session is not touched.
pub proof fn receiver_gives_what_it_pops<Sess, Payload, QueueImpl>(
    pre: QueueReceiver<Sess, Payload, QueueImpl>,
    post: QueueReceiver<Sess, Payload, QueueImpl>,
    r: Result<ReceiveOutcome<Payload>, Error>,
) where Sess: Session + 'static, QueueImpl: Queue<Payload> + 'static, Payload: 'static
    requires
        pre.receives(&post, r),
    ensures
        r is Ok,
        !(r->Ok_0 is Buffered),
        post.inner() == pre.inner(),
        r matches Ok(ReceiveOutcome::Payload(x)) ==> pre.polled().pops(&post.polled(), Some(x)),
        r matches Ok(ReceiveOutcome::Idle) ==> pre.polled().pops(&post.polled(), None),
{
}

/// What a receiver with a queue does besides receiving is done by its session, and keeps the queue.
pub proof fn queue_is_kept_by_session<'a, Sess, Payload, QueueImpl>(
    pre: QueueReceiver<Sess, Payload, QueueImpl>,
    payload: Sess::PublishPayload<'a>,
    published: QueueReceiver<Sess, Payload, QueueImpl>,
    p: Result<PublishOutcome<Sess::PublishPayload<'a>>, Error>,
    driven: QueueReceiver<Sess, Payload, QueueImpl>,
    d: Result<DriveOutcome, Error>,
    flushed: QueueReceiver<Sess, Payload, QueueImpl>,
    f: Result<(), Error>,
    closed: QueueReceiver<Sess, Payload, QueueImpl>,
) where Sess: Flush + 'static, QueueImpl: Queue<Payload> + 'static, Payload: 'static
    requires
        pre.publishes(payload, &published, p),
        pre.drives(&driven, d),
        pre.flushes(&flushed, f),
        pre.closes(&closed),
    ensures
        pre.in_status() == pre.inner().in_status(),
        pre.inner().publishes(payload, &published.inner(), p) && published.polled() == pre.polled(),
        pre.inner().drives(&driven.inner(), d) && driven.polled() == pre.polled(),
        pre.inner().flushes(&flushed.inner(), f) && flushed.polled() == pre.polled(),
        pre.inner().closes(&closed.inner()) && closed.polled() == pre.polled(),
{
}

/// A drive that does not fail drives the session and then receives from it. A payload that is received is given to the
/// callback, once, and counts as work. When none is received, the callback is not called.
pub proof fn received_payload_is_dispatched<'a, R, C>(
    pre: CallbackDriver<R, C>,
    post: CallbackDriver<R, C>,
    r: Result<DriveOutcome, Error>,
) where R: Receive + 'static, C: for<'b> Callback<R::ReceivePayload<'b>> + 'static
    requires
        pre.drives(&post, r),
    ensures
        r is Ok ==> exists|mid: R, d: Result<DriveOutcome, Error>, x: ReceiveOutcome<R::ReceivePayload<'a>>|
            {
                &&& d is Ok
                &&& #[trigger] pre.inner().drives(&mid, d)
                &&& #[trigger] mid.receives(&post.inner(), Ok(x))
                &&& match x {
                    ReceiveOutcome::Payload(data) => pre.target().calls(data, &post.target()) && r == Ok::<
                        DriveOutcome,
                        Error,
                    >(DriveOutcome::Active),
                    _ => post.target() == pre.target() && r == d,
                }
            },
        r is Err ==> post.target() == pre.target(),
{
    let (mid, d) = choose|mid: R, d: Result<DriveOutcome, Error>| #[trigger]
        pre.inner().drives(&mid, d) && match d {
            Err(e) => r == d && post.inner() == mid && post.target() == pre.target(),
            Ok(o) => CallbackDriver::<R, C>::dispatches(&mid, &pre.target(), o, &post.inner(), &post.target(), r),
        };
    if d is Ok {
        let o = d->Ok_0;
        let x = choose|x: Result<ReceiveOutcome<R::ReceivePayload<'a>>, Error>| #[trigger]
            mid.receives(&post.inner(), x) && match x {
                Err(e) => r == Err::<DriveOutcome, Error>(e) && post.target() == pre.target(),
                Ok(ReceiveOutcome::Payload(data)) => r == Ok::<DriveOutcome, Error>(DriveOutcome::Active)
                    && pre.target().calls(data, &post.target()),
                Ok(_) => r == Ok::<DriveOutcome, Error>(o) && post.target() == pre.target(),
            };
        if x is Ok {
            assert(mid.receives(&post.inner(), Ok(x->Ok_0)));
        }
    }
}

/// The same of a callback that is given references.
pub proof fn received_reference_is_dispatched<'a, R, C>(
    pre: CallbackRefDriver<R, C>,
    post: CallbackRefDriver<R, C>,
    r: Result<DriveOutcome, Error>,
) where R: Receive + 'static, C: for<'b> CallbackRef<R::ReceivePayload<'b>> + 'static
    requires
        pre.drives(&post, r),
    ensures
        r is Ok ==> exists|mid: R, d: Result<DriveOutcome, Error>, x: ReceiveOutcome<R::ReceivePayload<'a>>|
            {
                &&& d is Ok
                &&& #[trigger] pre.inner().drives(&mid, d)
                &&& #[trigger] mid.receives(&post.inner(), Ok(x))
                &&& match x {
                    ReceiveOutcome::Payload(data) => pre.target().calls_ref(&data, &post.target()) && r == Ok::<
                        DriveOutcome,
                        Error,
                    >(DriveOutcome::Active),
                    _ => post.target() == pre.target() && r == d,
                }
            },
        r is Err ==> post.target() == pre.target(),
{
    let (mid, d) = choose|mid: R, d: Result<DriveOutcome, Error>| #[trigger]
        pre.inner().drives(&mid, d) && match d {
            Err(e) => r == d && post.inner() == mid && post.target() == pre.target(),
            Ok(o) => CallbackRefDriver::<R, C>::dispatches(&mid, &pre.target(), o, &post.inner(), &post.target(), r),
        };
    if d is Ok {
        let o = d->Ok_0;
        let x = choose|x: Result<ReceiveOutcome<R::ReceivePayload<'a>>, Error>| #[trigger]
            mid.receives(&post.inner(), x) && match x {
                Err(e) => r == Err::<DriveOutcome, Error>(e) && post.target() == pre.target(),
                Ok(ReceiveOutcome::Payload(data)) => r == Ok::<DriveOutcome, Error>(DriveOutcome::Active)
                    && pre.target().calls_ref(&data, &post.target()),
                Ok(_) => r == Ok::<DriveOutcome, Error>(o) && post.target() == pre.target(),
            };
        if x is Ok {
            assert(mid.receives(&post.inner(), Ok(x->Ok_0)));
        }
    }
}

/// What is published to a session with a callback, and flushing and closing it, is done by the underlying session, and calls
/// no callback.
pub proof fn publishing_calls_no_callback<'a, S, C>(
    pre: CallbackDriver<S, C>,
    data: S::PublishPayload<'a>,
    published: CallbackDriver<S, C>,
    p: Result<PublishOutcome<S::PublishPayload<'a>>, Error>,
    flushed: CallbackDriver<S, C>,
    f: Result<(), Error>,
    closed: CallbackDriver<S, C>,
) where S: Flush + Receive + 'static, C: for<'b> Callback<S::ReceivePayload<'b>> + 'static
    requires
        pre.publishes(data, &published, p),
        pre.flushes(&flushed, f),
        pre.closes(&closed),
    ensures
        pre.in_status() == pre.inner().in_status(),
        pre.inner().publishes(data, &published.inner(), p) && published.target() == pre.target(),
        pre.inner().flushes(&flushed.inner(), f) && flushed.target() == pre.target(),
        pre.inner().closes(&closed.inner()) && closed.target() == pre.target(),
{
}

/// The same of a callback that is given references.
pub proof fn publishing_calls_no_callback_ref<'a, S, C>(
    pre: CallbackRefDriver<S, C>,
    data: S::PublishPayload<'a>,
    published: CallbackRefDriver<S, C>,
    p: Result<PublishOutcome<S::PublishPayload<'a>>, Error>,
    flushed: CallbackRefDriver<S, C>,
    f: Result<(), Error>,
    closed: CallbackRefDriver<S, C>,
) where S: Flush + Receive + 'static, C: for<'b> CallbackRef<S::ReceivePayload<'b>> + 'static
    requires
        pre.publishes(data, &published, p),
        pre.flushes(&flushed, f),
        pre.closes(&closed),
    ensures
        pre.in_status() == pre.inner().in_status(),
        pre.inner().publishes(data, &published.inner(), p) && published.target() == pre.target(),
        pre.inner().flushes(&flushed.inner(), f) && flushed.target() == pre.target(),
        pre.inner().closes(&closed.inner()) && closed.target() == pre.target(),
{
}

/// What a mapping receiver does besides receiving is done by its session, and keeps the function.
pub proof fn function_is_kept_by_session<'a, MapFunc, Sess, ReceivePayload>(
    pre: MappingReceiver<MapFunc, Sess, ReceivePayload>,
    payload: Sess::PublishPayload<'a>,
    published: MappingReceiver<MapFunc, Sess, ReceivePayload>,
    p: Result<PublishOutcome<Sess::PublishPayload<'a>>, Error>,
    driven: MappingReceiver<MapFunc, Sess, ReceivePayload>,
    d: Result<DriveOutcome, Error>,
    flushed: MappingReceiver<MapFunc, Sess, ReceivePayload>,
    f: Result<(), Error>,
    closed: MappingReceiver<MapFunc, Sess, ReceivePayload>,
) where
    MapFunc: for<'b> Fn(Sess::ReceivePayload<'b>) -> ReceivePayload + 'static,
    Sess: Receive + Flush + 'static,
    ReceivePayload: 'static,

    requires
        pre.publishes(payload, &published, p),
        pre.drives(&driven, d),
        pre.flushes(&flushed, f),
        pre.closes(&closed),
    ensures
        pre.in_status() == pre.inner().in_status(),
        pre.inner().publishes(payload, &published.inner(), p) && published.map_func() == pre.map_func(),
        pre.inner().drives(&driven.inner(), d) && driven.map_func() == pre.map_func(),
        pre.inner().flushes(&flushed.inner(), f) && flushed.map_func() == pre.map_func(),
        pre.inner().closes(&closed.inner()) && closed.map_func() == pre.map_func(),
{
}

/// A payload that is dispatched is mapped and goes behind those that are queued, and one that is pushed goes there as it is.
pub proof fn dispatched_payload_is_queued_last<CallbackPayload, QueuePayload, MapFunc>(
    pre: QueueCallback<CallbackPayload, QueuePayload, MapFunc>,
    data: CallbackPayload,
    called: QueueCallback<CallbackPayload, QueuePayload, MapFunc>,
    x: QueuePayload,
    pushed: QueueCallback<CallbackPayload, QueuePayload, MapFunc>,
    popped: QueueCallback<CallbackPayload, QueuePayload, MapFunc>,
    r: Option<QueuePayload>,
) where MapFunc: Fn(CallbackPayload) -> QueuePayload
    requires
        pre.calls(data, &called),
        pre.pushes(x, &pushed),
        pre.pops(&popped, r),
    ensures
        called.func() == pre.func() && pushed.func() == pre.func() && popped.func() == pre.func(),
        called.items().len() == pre.items().len() + 1,
        called.items().drop_last() == pre.items(),
        call_ensures(pre.func(), (data,), called.items().last()),
        pushed.items() == pre.items().push(x),
        match r {
            Some(first) => pre.items() == seq![first] + popped.items(),
            None => pre.items().len() == 0 && popped.items().len() == 0,
        },
{
    assert(called.items().drop_last() =~= pre.items());
    if let Some(first) = r {
        assert(pre.items() =~= seq![first] + popped.items());
    }
}

/// The same of a payload whose reference is dispatched.
pub proof fn dispatched_reference_is_queued_last<CallbackPayload, QueuePayload, MapFunc>(
    pre: QueueCallbackRef<CallbackPayload, QueuePayload, MapFunc>,
    data: &CallbackPayload,
    called: QueueCallbackRef<CallbackPayload, QueuePayload, MapFunc>,
    x: QueuePayload,
    pushed: QueueCallbackRef<CallbackPayload, QueuePayload, MapFunc>,
    popped: QueueCallbackRef<CallbackPayload, QueuePayload, MapFunc>,
    r: Option<QueuePayload>,
) where MapFunc: Fn(&CallbackPayload) -> QueuePayload
    requires
        pre.calls_ref(data, &called),
        pre.pushes(x, &pushed),
        pre.pops(&popped, r),
    ensures
        called.func() == pre.func() && pushed.func() == pre.func() && popped.func() == pre.func(),
        called.items().len() == pre.items().len() + 1,
        called.items().drop_last() == pre.items(),
        call_ensures(pre.func(), (data,), called.items().last()),
        pushed.items() == pre.items().push(x),
        match r {
            Some(first) => pre.items() == seq![first] + popped.items(),
            None => pre.items().len() == 0 && popped.items().len() == 0,
        },
{
    assert(called.items().drop_last() =~= pre.items());
    if let Some(first) = r {
        assert(pre.items() =~= seq![first] + popped.items());
    }
}

} // verus!
