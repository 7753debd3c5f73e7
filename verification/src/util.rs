//! Small helpers shared by the storage tables.

use vstd::prelude::*;

verus! {

/// Endpoint marker for range scans over ordered pairs: `Start` sorts before
/// every `Value` and `End` after every one, so `(key, Start) ..= (key, End)`
/// brackets all pairs carrying `key`.
#[derive(Debug, Ord, PartialOrd, Eq, PartialEq, Copy, Clone)]
pub enum OrderWindow<T> {
    Start,
    Value(T),
    End,
}

impl<T> OrderWindow<T> {
    pub fn new(value: T) -> (r: Self)
        ensures
            r == OrderWindow::Value(value),
    {
        OrderWindow::Value(value)
    }

    pub fn as_option(&self) -> (r: Option<&T>)
        ensures
            match self {
                OrderWindow::Value(t) => r == Some(t),
                _ => r is None,
            },
    {
        match self {
            OrderWindow::Start => None,
            OrderWindow::Value(t) => Some(t),
            OrderWindow::End => None,
        }
    }
}

/// A value paired with an explicit reference count.
#[derive(Debug, Eq, PartialEq, Copy, Clone)]
pub struct Counted<T> {
    pub t: T,
    pub count: u64,
}

impl<T> Counted<T> {
    /// A freshly registered value starts with a single holder.
    pub fn one(t: T) -> (r: Self)
        ensures
            r.count == 1,
            r.t == t,
    {
        Counted { t, count: 1 }
    }

    /// Records one more holder and returns the new count.
    pub fn inc(&mut self) -> (r: u64)
        requires
            old(self).count < u64::MAX,
        ensures
            final(self).count == old(self).count + 1,
            final(self).t == old(self).t,
            r == final(self).count,
    {
        self.count = self.count + 1;
        self.count
    }

    /// Records that one holder is gone and returns the new count.
    pub fn dec(&mut self) -> (r: u64)
        requires
            old(self).count >= 1,
        ensures
            final(self).count == old(self).count - 1,
            final(self).t == old(self).t,
            r == final(self).count,
    {
        self.count = self.count - 1;
        self.count
    }
}

} // verus!
