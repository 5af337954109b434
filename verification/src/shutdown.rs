//! One-way "take this mount down" signal.
//!
//! A filesystem callback can't unmount itself: it still owes the kernel a reply, and the unmount
//! handle belongs to whoever mounted the filesystem. So when the device is gone for good, the
//! callback records why here and returns an error; the thread that owns the mount picks the reason
//! up and unmounts.
use vstd::prelude::*;

verus! {

/// Shutdown request, one reason, first one wins.
#[derive(Debug)]
pub struct Shutdown {
    reason: Option<String>,
}

impl View for Shutdown {
    type V = Option<Seq<char>>;

    /// The reason, if one was recorded.
    closed spec fn view(&self) -> Option<Seq<char>> {
        match self.reason {
            Some(reason) => Some(reason@),
            None => None,
        }
    }
}

impl Default for Shutdown {
    fn default() -> (shutdown: Self)
        ensures
            shutdown@ is None,
    {
        Shutdown { reason: None }
    }
}

impl Shutdown {
    /// Asks for the mount to go away. Later calls are ignored: the first reason is the one that
    /// explains what happened. Answers whether this was the first.
    pub fn request(&mut self, reason: &str) -> (first: bool)
        ensures
            first == (old(self)@ is None),
            final(self)@ == if old(self)@ is None {
                Some(reason@)
            } else {
                old(self)@
            },
    {
        if self.reason.is_none() {
            self.reason = Some(reason.to_string());
            true
        } else {
            false
        }
    }

    /// Whether a shutdown was requested.
    pub fn is_requested(&self) -> (requested: bool)
        ensures
            requested == (self@ is Some),
    {
        self.reason.is_some()
    }

    /// The reason, if one was recorded.
    pub fn reason(&self) -> (reason: Option<String>)
        ensures
            match reason {
                Some(r) => self@ == Some(r@),
                None => self@ is None,
            },
    {
        match &self.reason {
            Some(reason) => Some(reason.clone()),
            None => None,
        }
    }

    /// What a waiter finds who waits for a request until its time is over: the reason, or `None`
    /// as the answer once its time `is_over`, and nothing at all while it has to keep waiting.
    pub fn wait_timeout(&self, is_over: bool) -> (found: Option<Option<String>>)
        ensures
            match found {
                Some(Some(reason)) => self@ == Some(reason@),
                Some(None) => self@ is None && is_over,
                None => self@ is None && !is_over,
            },
    {
        match &self.reason {
            Some(reason) => Some(Some(reason.clone())),
            None => if is_over {
                Some(None)
            } else {
                None
            },
        }
    }
}

/// Whatever is requested later, the first reason stays.
pub proof fn first_reason_wins(before: Option<Seq<char>>, reasons: Seq<Seq<char>>)
    ensures
        before is Some ==> requested(before, reasons) == before,
        before is None && reasons.len() > 0 ==> requested(before, reasons) == Some(reasons[0]),
    decreases reasons.len(),
{
    if reasons.len() > 0 {
        first_reason_wins(before, reasons.drop_last());
    }
}

/// The reason recorded after all `reasons` were given, one after the other.
pub open spec fn requested(before: Option<Seq<char>>, reasons: Seq<Seq<char>>) -> Option<Seq<char>>
    decreases reasons.len(),
{
    if reasons.len() == 0 {
        before
    } else {
        let earlier = requested(before, reasons.drop_last());
        if earlier is None {
            Some(reasons.last())
        } else {
            earlier
        }
    }
}

} // verus!
