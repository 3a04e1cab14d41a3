//! Timed execution: an in-flight response raced against a deadline. On expiry
//! the in-flight work is handed to the caller inside a retry token, intact.

use vstd::prelude::*;

verus! {

/// An in-flight response `F` with a deadline in milliseconds; zero means none.
/// The slot is emptied when the work is handed out on expiry.
pub struct FutureResponse<F> {
    inner: Option<F>,
    timeout_ms: u64,
}

/// Token for timed-out work: the same in-flight work, to be retried under a
/// new deadline or dropped.
pub struct Timeout<F> {
    inner: F,
}

/// How a timed response failed.
pub enum ResponseError<F, E, T> {
    /// The deadline passed.
    Timeout(Timeout<F>),
    /// The transport failed.
    TransportError(E),
    /// The timer failed; the work is handed out as on a timeout.
    TimerError(T, Timeout<F>),
}

/// What polling the in-flight work gave.
pub enum WorkPoll<R, E> {
    /// The response.
    Ready(R),
    /// A transport error.
    Failed(E),
    /// Not yet.
    Pending,
}

/// What polling the timer gave.
pub enum TimerPoll<T> {
    /// Not yet.
    Pending,
    /// The deadline passed.
    Expired,
    /// The timer failed.
    Failed(T),
}

/// Result of one poll of a timed response.
pub enum Polled<R, F, E, T> {
    /// The response.
    Ready(R),
    /// Keep waiting.
    Pending,
    /// A failure; on expiry it holds the work.
    Error(ResponseError<F, E, T>),
}

impl<F> FutureResponse<F> {
    /// Whether the work is still inside.
    pub closed spec fn armed(&self) -> bool {
        self.inner is Some
    }

    /// The work inside, while armed.
    pub closed spec fn work(&self) -> F {
        self.inner->Some_0
    }

    /// The deadline in milliseconds.
    pub closed spec fn deadline(&self) -> u64 {
        self.timeout_ms
    }

    /// Arms `inner` with a deadline of `timeout_ms` milliseconds; zero means none.
    pub fn new(inner: F, timeout_ms: u64) -> (r: Self)
        ensures
            r.armed(),
            r.work() == inner,
            r.deadline() == timeout_ms,
    {
        FutureResponse { inner: Some(inner), timeout_ms }
    }

    /// The deadline in milliseconds; zero means none.
    pub fn timeout_ms(&self) -> (r: u64)
        ensures
            r == self.deadline(),
    {
        self.timeout_ms
    }

    /// The work inside, to poll it.
    pub fn work_mut(&mut self) -> (r: &mut F)
        requires
            old(self).armed(),
        ensures
            *r == old(self).work(),
            final(self).armed(),
            final(self).work() == *final(r),
            final(self).deadline() == old(self).deadline(),
    {
        self.inner.as_mut().unwrap()
    }

    fn into_timeout(&mut self) -> (r: Timeout<F>)
        requires
            old(self).armed(),
        ensures
            r == token_of(*old(self)),
            !final(self).armed(),
            final(self).deadline() == old(self).deadline(),
    {
        let f = self.inner.take().unwrap();
        Timeout { inner: f }
    }

    /// One poll: a response or a transport error comes out as it is; else, with
    /// a deadline, an expired or failed timer hands the work out in a token.
    pub fn decide<R, E, T>(&mut self, work: WorkPoll<R, E>, timer: TimerPoll<T>) -> (r: Polled<
        R,
        F,
        E,
        T,
    >)
        requires
            old(self).armed(),
        ensures
            final(self).deadline() == old(self).deadline(),
            match work {
                WorkPoll::Ready(v) => r == Polled::<R, F, E, T>::Ready(v) && *final(self) == *old(self),
                WorkPoll::Failed(e) => (r matches Polled::Error(ResponseError::TransportError(e2))
                    && e2 == e) && *final(self) == *old(self),
                WorkPoll::Pending => if old(self).deadline() == 0 {
                    r is Pending && *final(self) == *old(self)
                } else {
                    match timer {
                        TimerPoll::Pending => r is Pending && *final(self) == *old(self),
                        TimerPoll::Expired => (r matches Polled::Error(ResponseError::Timeout(tok))
                            && tok == token_of(*old(self))) && !final(self).armed(),
                        TimerPoll::Failed(t) => (r matches Polled::Error(
                            ResponseError::TimerError(t2, tok),
                        ) && t2 == t && tok == token_of(*old(self))) && !final(self).armed(),
                    }
                },
            },
    {
        match work {
            WorkPoll::Ready(v) => Polled::Ready(v),
            WorkPoll::Failed(e) => Polled::Error(ResponseError::TransportError(e)),
            WorkPoll::Pending => {
                if self.timeout_ms == 0 {
                    return Polled::Pending;
                }
                match timer {
                    TimerPoll::Pending => Polled::Pending,
                    TimerPoll::Expired => Polled::Error(ResponseError::Timeout(self.into_timeout())),
                    TimerPoll::Failed(t) => {
                        let tok = self.into_timeout();
                        Polled::Error(ResponseError::TimerError(t, tok))
                    },
                }
            },
        }
    }
}

impl<F> Timeout<F> {
    /// The work inside.
    pub closed spec fn work(&self) -> F {
        self.inner
    }

    /// The same work under a new deadline of `timeout_ms` milliseconds.
    pub fn retry(self, timeout_ms: u64) -> (r: FutureResponse<F>)
        ensures
            r == rearmed(self, timeout_ms),
    {
        FutureResponse::new(self.inner, timeout_ms)
    }

    /// The work, to drive or drop it.
    pub fn into_inner(self) -> (r: F)
        ensures
            r == self.work(),
    {
        self.inner
    }
}

/// One of two values.
pub enum Either<A, B> {
    Left(A),
    Right(B),
}

/// Two in-flight tasks raced against each other; the first to finish wins and
/// the other is handed back unfinished.
pub struct Pair<A, B> {
    inner: Option<(A, B)>,
}

impl<A, B> Pair<A, B> {
    /// Whether both tasks are still inside.
    pub closed spec fn racing(&self) -> bool {
        self.inner is Some
    }

    /// The two tasks, while racing.
    pub closed spec fn tasks(&self) -> (A, B) {
        self.inner->Some_0
    }

    /// Races `left` against `right`.
    pub fn new(left: A, right: B) -> (r: Self)
        ensures
            r.racing(),
            r.tasks() == (left, right),
    {
        Pair { inner: Some((left, right)) }
    }

    /// One poll: the left result wins over the right one; the loser is handed
    /// out with the winner's result.
    pub fn decide<RA, RB>(&mut self, left: Option<RA>, right: Option<RB>) -> (r: Option<
        Either<(RA, B), (RB, A)>,
    >)
        requires
            old(self).racing(),
        ensures
            match left {
                Some(a) => r == Some(Either::<(RA, B), (RB, A)>::Left((a, old(self).tasks().1)))
                    && !final(self).racing(),
                None => match right {
                    Some(b) => r == Some(Either::<(RA, B), (RB, A)>::Right((b, old(self).tasks().0)))
                        && !final(self).racing(),
                    None => r is None && *final(self) == *old(self),
                },
            },
    {
        match left {
            Some(a) => {
                let (_, b) = self.inner.take().unwrap();
                Some(Either::Left((a, b)))
            },
            None => match right {
                Some(rb) => {
                    let (a, _) = self.inner.take().unwrap();
                    Some(Either::Right((rb, a)))
                },
                None => None,
            },
        }
    }
}

/// The token that expiry makes of a timed response.
pub closed spec fn token_of<F>(fr: FutureResponse<F>) -> Timeout<F> {
    Timeout { inner: fr.inner->Some_0 }
}

/// The timed response that a retry makes of a token.
pub closed spec fn rearmed<F>(tok: Timeout<F>, timeout_ms: u64) -> FutureResponse<F> {
    FutureResponse { inner: Some(tok.inner), timeout_ms }
}

/// Retrying the token of an expired response resumes that very work under the
/// new deadline: expiry and retry neither drop nor replace it.
pub proof fn lemma_retry_resumes_work<F>(fr: FutureResponse<F>, timeout_ms: u64)
    requires
        fr.armed(),
    ensures
        token_of(fr).work() == fr.work(),
        rearmed(token_of(fr), timeout_ms).armed(),
        rearmed(token_of(fr), timeout_ms).work() == fr.work(),
        rearmed(token_of(fr), timeout_ms).deadline() == timeout_ms,
{
}

} // verus!
