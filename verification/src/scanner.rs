//! A cursor over a sequence of items that hands them out from the front.

use vstd::prelude::*;
use std::collections::VecDeque;
use crate::error::Error;

verus! {

/// The items that are still to come, the next one first.
pub struct Scanner<T> {
    vec: VecDeque<T>,
}

/// What a callback of `Scanner::scan` says of the items it was shown.
pub enum ScannerAction<T> {
    /// The items make this result, and no further item can change it.
    Return(T),
    /// The items make this result, unless the next item extends it.
    Request(T),
    /// The items make no result yet: the next item has to help.
    Require,
    /// The last item does not belong with those before it.
    Reject,
}

/// What a scan has been told by the items shown so far.
pub enum Pending<U> {
    /// Nothing that counts: no item was shown yet.
    Nothing,
    /// The items shown make this result.
    Requested(U),
    /// The items shown make no result, and more were asked for.
    Required,
}

impl<U> Pending<U> {
    /// How a scan ends when no further item extends what was shown: with the
    /// result that was requested, with none, or, where more items were
    /// required, with a failure.
    pub open spec fn finish(self) -> Result<Option<U>, Error> {
        match self {
            Pending::Nothing => Ok(None),
            Pending::Requested(res) => Ok(Some(res)),
            Pending::Required => Err(Error::EOL),
        }
    }

    /// What is pending after the callback answered `Request` or `Require`.
    pub open spec fn of(request: Option<U>, require: bool) -> Pending<U> {
        if require {
            Pending::Required
        } else {
            match request {
                Some(res) => Pending::Requested(res),
                None => Pending::Nothing,
            }
        }
    }
}

impl<T> View for Scanner<T> {
    type V = Seq<T>;

    closed spec fn view(&self) -> Seq<T> {
        self.vec@
    }
}

impl<T> Scanner<T> {
    /// A scanner over the items of `vec`, in their order.
    pub fn new(vec: Vec<T>) -> (s: Self)
        ensures
            s@ == vec@,
    {
        let mut deque: VecDeque<T> = VecDeque::new();
        let ghost all = vec@;
        for item in it: vec
            invariant
                it.seq() == all,
                deque@ == all.take(it.index() as int),
        {
            deque.push_back(item);
            assert(all.take(it.index() + 1) =~= all.take(it.index() as int).push(item));
        }
        assert(all.take(all.len() as int) =~= all);
        Self { vec: deque }
    }

    /// The next item, if there is one.
    pub fn peek(&self) -> (r: Option<&T>)
        ensures
            self@.len() == 0 ==> r is None,
            self@.len() > 0 ==> r == Some(&self@[0]),
    {
        if self.vec.len() == 0 {
            None
        } else {
            Some(&self.vec[0])
        }
    }

    /// Takes the next item out, if there is one.
    pub fn pop(&mut self) -> (r: Option<T>)
        ensures
            old(self)@.len() == 0 ==> r is None && final(self)@ == old(self)@,
            old(self)@.len() > 0 ==> r == Some(old(self)@[0])
                && final(self)@ == old(self)@.drop_first(),
    {
        let r = self.vec.pop_front();
        let ghost before = old(self)@;
        assert(before.len() > 0 ==> before.subrange(1, before.len() as int) =~= before.drop_first());
        r
    }

    /// Whether there is a next item and `cb` accepts it.
    pub fn test(&mut self, cb: impl FnOnce(&T) -> bool) -> (r: bool)
        requires
            old(self)@.len() > 0 ==> cb.requires((&old(self)@[0],)),
        ensures
            final(self)@ == old(self)@,
            old(self)@.len() == 0 ==> !r,
            old(self)@.len() > 0 ==> cb.ensures((&old(self)@[0],), r),
    {
        match self.peek() {
            Some(item) => cb(item),
            None => false,
        }
    }

    /// Takes the next item out if `cb` accepts it.
    pub fn take(&mut self, cb: impl FnOnce(&T) -> bool) -> (r: Option<T>)
        requires
            old(self)@.len() > 0 ==> cb.requires((&old(self)@[0],)),
        ensures
            match r {
                Some(item) => {
                    &&& old(self)@.len() > 0
                    &&& item == old(self)@[0]
                    &&& cb.ensures((&item,), true)
                    &&& final(self)@ == old(self)@.drop_first()
                },
                None => {
                    &&& final(self)@ == old(self)@
                    &&& old(self)@.len() > 0 ==> cb.ensures((&old(self)@[0],), false)
                },
            },
    {
        if self.test(cb) {
            self.pop()
        } else {
            None
        }
    }

    /// Takes items out for as long as `cb` accepts the next one.
    pub fn take_while(&mut self, cb: impl Fn(&T) -> bool) -> (res: Vec<T>)
        requires
            forall|item: &T| cb.requires((item,)),
        ensures
            old(self)@ == res@ + final(self)@,
            forall|i: int| 0 <= i < res@.len() ==> cb.ensures((&#[trigger] res@[i],), true),
            final(self)@.len() > 0 ==> cb.ensures((&final(self)@[0],), false),
    {
        let mut res: Vec<T> = Vec::new();
        loop
            invariant
                forall|item: &T| cb.requires((item,)),
                old(self)@ == res@ + self@,
                forall|i: int| 0 <= i < res@.len() ==> cb.ensures((&#[trigger] res@[i],), true),
            decreases self@.len(),
        {
            let ghost before = self@;
            match self.take(&cb) {
                Some(item) => {
                    res.push(item);
                    assert(res@ + self@ =~= old(self)@) by {
                        assert(before =~= seq![item] + self@);
                    }
                },
                None => {
                    return res;
                },
            }
        }
    }

    /// Takes the next item out if `cb` makes something of it.
    pub fn transform<U>(&mut self, cb: impl FnOnce(&T) -> Option<U>) -> (r: Option<U>)
        requires
            old(self)@.len() > 0 ==> cb.requires((&old(self)@[0],)),
        ensures
            old(self)@.len() == 0 ==> r is None && final(self)@ == old(self)@,
            old(self)@.len() > 0 ==> cb.ensures((&old(self)@[0],), r),
            r is Some ==> final(self)@ == old(self)@.drop_first(),
            r is None ==> final(self)@ == old(self)@,
    {
        let res = match self.peek() {
            Some(item) => cb(item),
            None => {
                return None;
            },
        };
        if res.is_some() {
            let _ = self.pop();
        }
        res
    }
}

impl<T> Scanner<T> {
    /// Whether a scan of `items` that has shown the first `shown` of them to
    /// `cb`, and has `pending` from its answers, can end with `result` after
    /// taking out `taken` items.
    ///
    /// The callback is shown ever longer prefixes of the items. `Return` ends
    /// the scan at once; `Request` and `Require` replace what is pending and
    /// go on; `Reject` leaves the last item in and ends the scan with what
    /// was pending, as the end of the items does.
    pub open spec fn scan_from<U, F: Fn(&[T]) -> ScannerAction<U>>(
        cb: F,
        items: Seq<T>,
        shown: nat,
        pending: Pending<U>,
        result: Result<Option<U>, Error>,
        taken: nat,
    ) -> bool
        decreases items.len() - shown,
    {
        if shown >= items.len() {
            result == pending.finish() && taken == shown
        } else {
            exists|prefix: &[T], action: ScannerAction<U>|
                {
                    &&& prefix@ == items.take(shown as int + 1)
                    &&& #[trigger] cb.ensures((prefix,), action)
                    &&& match action {
                        ScannerAction::Return(res) => result == Ok::<Option<U>, Error>(Some(res))
                            && taken == shown + 1,
                        ScannerAction::Request(res) => Self::scan_from(
                            cb,
                            items,
                            shown + 1,
                            Pending::Requested(res),
                            result,
                            taken,
                        ),
                        ScannerAction::Require => Self::scan_from(
                            cb,
                            items,
                            shown + 1,
                            Pending::Required,
                            result,
                            taken,
                        ),
                        ScannerAction::Reject => result == pending.finish() && taken == shown,
                    }
                }
        }
    }

    /// Takes out the longest run of items that `cb` makes a result of.
    ///
    /// The outcome is one that `scan_from` allows from the start; the items
    /// taken out are the first ones.
    pub fn scan<U, F: Fn(&[T]) -> ScannerAction<U>>(&mut self, cb: F) -> (r: Result<
        Option<U>,
        Error,
    >)
        requires
            forall|prefix: &[T]| cb.requires((prefix,)),
        ensures
            final(self)@.len() <= old(self)@.len(),
            final(self)@ == old(self)@.skip(old(self)@.len() - final(self)@.len()),
            Self::scan_from(
                cb,
                old(self)@,
                0,
                Pending::Nothing,
                r,
                (old(self)@.len() - final(self)@.len()) as nat,
            ),
    {
        let mut sequence: Vec<T> = Vec::new();
        let mut require: bool = false;
        let mut request: Option<U> = None;
        let ghost items = self@;
        loop
            invariant
                items == old(self)@,
                forall|prefix: &[T]| cb.requires((prefix,)),
                items == sequence@ + self@,
                forall|result: Result<Option<U>, Error>, taken: nat|
                    Self::scan_from(
                        cb,
                        items,
                        sequence@.len(),
                        Pending::of(request, require),
                        result,
                        taken,
                    ) ==> Self::scan_from(cb, items, 0, Pending::Nothing, result, taken),
            decreases self@.len(),
        {
            let ghost shown = sequence@.len();
            let ghost pending = Pending::of(request, require);
            let item = match self.pop() {
                Some(item) => item,
                None => {
                    assert(sequence@ =~= items);
                    assert(self@ =~= items.skip(items.len() as int));
                    return if require {
                        Err(Error::EOL)
                    } else {
                        Ok(request)
                    };
                },
            };
            sequence.push(item);
            assert(sequence@ =~= items.take(shown as int + 1));
            assert(self@ =~= items.skip(shown as int + 1));
            let prefix = sequence.as_slice();
            let action = cb(prefix);
            assert forall|result: Result<Option<U>, Error>, taken: nat|
                (match action {
                    ScannerAction::Return(res) => result == Ok::<Option<U>, Error>(Some(res))
                        && taken == shown + 1,
                    ScannerAction::Request(res) => Self::scan_from(
                        cb,
                        items,
                        shown + 1,
                        Pending::Requested(res),
                        result,
                        taken,
                    ),
                    ScannerAction::Require => Self::scan_from(
                        cb,
                        items,
                        shown + 1,
                        Pending::Required,
                        result,
                        taken,
                    ),
                    ScannerAction::Reject => result == pending.finish() && taken == shown,
                }) implies Self::scan_from(cb, items, shown, pending, result, taken) by {
                assert(prefix@ == items.take(shown as int + 1));
                assert(cb.ensures((prefix,), action));
            }
            match action {
                ScannerAction::Return(res) => {
                    return Ok(Some(res));
                },
                ScannerAction::Request(res) => {
                    request = Some(res);
                    require = false;
                },
                ScannerAction::Require => {
                    require = true;
                },
                ScannerAction::Reject => {
                    match sequence.pop() {
                        Some(last) => {
                            self.vec.push_front(last);
                        },
                        None => {},
                    }
                    assert(self@ =~= items.skip(shown as int));
                    return if require {
                        Err(Error::EOL)
                    } else {
                        Ok(request)
                    };
                },
            }
        }
    }
}

} // verus!
