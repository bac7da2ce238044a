//! What the collector reports while it works.

use vstd::prelude::*;
use crate::digest::Digest;

verus! {

/// An event of the mark phase.
#[derive(Debug)]
pub enum GcMarkEvent<E> {
    /// Progress.
    CustomDebug(String),
    /// A problem that does not end the phase.
    CustomWarning(String, Option<E>),
    /// A collection could not be read to its end, so the live set does not bound it: some of its
    /// members may be in the store and unmarked. The sweep of this cycle must not run.
    TraversalIncomplete(Digest),
    /// The error that ended the phase.
    Error(E),
}

/// An event of the sweep phase.
#[derive(Debug)]
pub enum GcSweepEvent<E> {
    /// Progress.
    CustomDebug(String),
    /// A problem that does not end the phase.
    CustomWarning(String, Option<E>),
    /// The error that ended the phase.
    Error(E),
}

/// A [`GcMarkEvent`] with its text as characters.
pub enum MarkEventView<E> {
    CustomDebug(Seq<char>),
    CustomWarning(Seq<char>, Option<E>),
    TraversalIncomplete(Digest),
    Error(E),
}

/// A [`GcSweepEvent`] with its text as characters.
pub enum SweepEventView<E> {
    CustomDebug(Seq<char>),
    CustomWarning(Seq<char>, Option<E>),
    Error(E),
}

impl<E> View for GcMarkEvent<E> {
    type V = MarkEventView<E>;

    open spec fn view(&self) -> MarkEventView<E> {
        match *self {
            GcMarkEvent::CustomDebug(text) => MarkEventView::CustomDebug(text@),
            GcMarkEvent::CustomWarning(text, error) => MarkEventView::CustomWarning(text@, error),
            GcMarkEvent::TraversalIncomplete(root) => MarkEventView::TraversalIncomplete(root),
            GcMarkEvent::Error(error) => MarkEventView::Error(error),
        }
    }
}

impl<E> View for GcSweepEvent<E> {
    type V = SweepEventView<E>;

    open spec fn view(&self) -> SweepEventView<E> {
        match *self {
            GcSweepEvent::CustomDebug(text) => SweepEventView::CustomDebug(text@),
            GcSweepEvent::CustomWarning(text, error) => SweepEventView::CustomWarning(text@, error),
            GcSweepEvent::Error(error) => SweepEventView::Error(error),
        }
    }
}

} // verus!
