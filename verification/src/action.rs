//! The action bus: the message type that flows between components and the
//! dispatch loop.
//!
//! An action is a closed tagged union of the built-in control actions, plus
//! an extensible variant keyed by a stable integer tag for
//! application-defined payloads. Every holder can compare actions
//! structurally, clone them, and inspect the concrete variant by matching.

use vstd::prelude::*;

verus! {

/// An instruction describing a state change to apply.
///
/// The dispatch loop recognizes only the built-in control variants; all
/// `Custom` traffic is routed, never interpreted, by the loop.
#[derive(Debug, Copy, PartialEq, Eq, Structural)]
pub enum Action {
    /// Shut the application down.
    Quit,
    /// An application heartbeat fired.
    Tick,
    /// A render pass is due.
    RenderTick,
    /// The screen was resized to the given width and height.
    Resize(u16, u16),
    /// Nothing to do.
    Noop,
    /// An application-defined action, identified by a stable integer tag.
    Custom(u64),
}

impl Clone for Action {
    /// Cloning an action yields an equal, independently owned action.
    fn clone(&self) -> (r: Self)
        ensures
            r == *self,
    {
        *self
    }
}

/// Two equal actions are always of the same variant: an action of one
/// variant never equals an action of another, whatever their payloads.
pub proof fn lemma_action_eq_same_variant(a: Action, b: Action)
    requires
        a == b,
    ensures
        a is Quit <==> b is Quit,
        a is Tick <==> b is Tick,
        a is RenderTick <==> b is RenderTick,
        a is Resize <==> b is Resize,
        a is Noop <==> b is Noop,
        a is Custom <==> b is Custom,
{
}

/// A cloned action equals the action it was cloned from.
pub proof fn lemma_action_clone_eq(a: Action, b: Action)
    requires
        vstd::pervasive::cloned::<Action>(a, b),
    ensures
        a == b,
{
}

/// A dot-separated list of labels used to address application-defined
/// actions and subscriptions.
#[derive(Debug, PartialEq, Eq)]
pub struct Tags {
    pub inner: Vec<String>,
}

/// Splits the characters from `start` on at dots, scanning from position
/// `i`; every dot ends the label begun at `start`.
pub open spec fn split_labels_from(s: Seq<char>, start: int, i: int) -> Seq<Seq<char>>
    decreases s.len() - i,
{
    if i < start || i >= s.len() {
        seq![s.subrange(start, s.len() as int)]
    } else if s[i] == '.' {
        seq![s.subrange(start, i)] + split_labels_from(s, i + 1, i + 1)
    } else {
        split_labels_from(s, start, i + 1)
    }
}

/// The labels of a dot-separated string: the maximal dot-free runs, in
/// order. A string without dots is a single label; every dot separates two
/// labels, so consecutive dots produce empty labels.
pub open spec fn split_labels(s: Seq<char>) -> Seq<Seq<char>> {
    split_labels_from(s, 0, 0)
}

impl Tags {
    /// The labels as mathematical sequences of characters.
    pub open spec fn labels(&self) -> Seq<Seq<char>> {
        self.inner@.map_values(|t: String| t@)
    }

    /// No labels at all.
    pub fn empty() -> (r: Tags)
        ensures
            r.labels() == Seq::<Seq<char>>::empty(),
    {
        let r = Tags { inner: Vec::new() };
        proof {
            assert(r.labels() =~= Seq::<Seq<char>>::empty());
        }
        r
    }

    /// Parses a dot-separated string into its labels.
    pub fn from_string(from: &str) -> (r: Tags)
        ensures
            r.labels() == split_labels(from@),
    {
        let len = from.unicode_len();
        let mut inner: Vec<String> = Vec::new();
        let mut start: usize = 0;
        let mut i: usize = 0;
        while i < len
            invariant
                0 <= start <= i <= len,
                len == from@.len(),
                split_labels(from@) == inner@.map_values(|t: String| t@) + split_labels_from(
                    from@,
                    start as int,
                    i as int,
                ),
            decreases len - i,
        {
            let c = from.get_char(i);
            if c == '.' {
                let ghost prev = inner@;
                let label = from.substring_char(start, i).to_owned();
                inner.push(label);
                proof {
                    assert(inner@.map_values(|t: String| t@) =~= prev.map_values(|t: String| t@)
                        + seq![from@.subrange(start as int, i as int)]);
                }
                start = i + 1;
            }
            i = i + 1;
        }
        let last = from.substring_char(start, len).to_owned();
        let ghost prev = inner@;
        inner.push(last);
        proof {
            assert(inner@.map_values(|t: String| t@) =~= prev.map_values(|t: String| t@)
                + seq![from@.subrange(start as int, len as int)]);
        }
        Tags { inner }
    }
}

} // verus!
