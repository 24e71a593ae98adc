//! The rules by which the events of a parsed doc comment are cut down to
//! its first block, and by which its headings are lowered.
use vstd::prelude::*;

verus! {

/// What the cut reads of an event of a parsed doc comment.
#[derive(Debug, Clone, Copy, PartialEq, Eq, Structural)]
pub enum EventKind {
    /// The start of a block or span.
    Start,
    /// The end of a block or span.
    End,
    /// Text, code, math, HTML or a soft break.
    Inline,
    /// A reference to a footnote.
    FootnoteReference,
    /// A hard break, a rule or a task list marker.
    Break,
}

/// The state of the cut after the first `n` events: whether the first
/// block is complete, and how many blocks and spans are open.
pub open spec fn short_state(kinds: Seq<EventKind>, n: int) -> (bool, int)
    decreases n,
{
    if n <= 0 || n > kinds.len() {
        (false, 0)
    } else {
        short_step(short_state(kinds, n - 1), kinds[n - 1]).0
    }
}

/// The state after one more event, and whether the event is kept. Until
/// the first block is complete, starts, ends and inline events are kept;
/// the end that closes the last open block completes it. A break is
/// never kept, and completes the block where nothing is open. A
/// reference to a footnote is always kept.
pub open spec fn short_step(state: (bool, int), kind: EventKind) -> ((bool, int), bool) {
    let (complete, balance) = state;
    match kind {
        EventKind::Start => if complete {
            (state, false)
        } else {
            ((false, balance + 1), true)
        },
        EventKind::End => if complete {
            (state, false)
        } else {
            ((balance - 1 == 0, balance - 1), true)
        },
        EventKind::Inline => (state, !complete),
        EventKind::FootnoteReference => (state, true),
        EventKind::Break => ((complete || balance == 0, balance), false),
    }
}

/// For each event, whether the short form of the comment keeps it.
pub open spec fn short_kept(kinds: Seq<EventKind>) -> Seq<bool> {
    Seq::new(kinds.len(), |i: int| short_step(short_state(kinds, i), kinds[i]).1)
}

/// Tells for each event of a parsed doc comment whether the short form
/// of the comment keeps it.
pub fn short_selection(kinds: &Vec<EventKind>) -> (r: Vec<bool>)
    ensures
        r@ == short_kept(kinds@),
{
    let mut r: Vec<bool> = Vec::new();
    let mut complete = false;
    let mut balance: i128 = 0;
    let mut i: usize = 0;
    while i < kinds.len()
        invariant
            i <= kinds.len(),
            r.len() == i,
            (complete, balance as int) == short_state(kinds@, i as int),
            -(i as int) <= balance <= i,
            forall|k: int|
                0 <= k < i ==> r@[k] == short_step(short_state(kinds@, k), kinds@[k]).1,
        decreases kinds.len() - i,
    {
        let keep = match kinds[i] {
            EventKind::Start => {
                if complete {
                    false
                } else {
                    balance = balance + 1;
                    true
                }
            },
            EventKind::End => {
                if complete {
                    false
                } else {
                    balance = balance - 1;
                    complete = balance == 0;
                    true
                }
            },
            EventKind::Inline => !complete,
            EventKind::FootnoteReference => true,
            EventKind::Break => {
                complete = complete || balance == 0;
                false
            },
        };
        r.push(keep);
        i += 1;
    }
    assert(r@ =~= short_kept(kinds@));
    r
}

/// The level of a heading inside a doc comment: one below the level that
/// was written, and never below the sixth.
pub open spec fn raised_level(level: u8) -> u8 {
    if level >= 6 {
        6
    } else {
        (level + 1) as u8
    }
}

/// The level at which a heading of a doc comment is shown.
pub fn raise_heading_level(level: u8) -> (r: u8)
    ensures
        r == raised_level(level),
{
    if level >= 6 {
        6
    } else {
        level + 1
    }
}

} // verus!
