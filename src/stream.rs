//! Streamed replies: fragments arrive one by one and are put together into
//! one assistant message once the stream has closed.

use vstd::prelude::*;
use crate::message::{Message, Role, message_of};

verus! {

/// One unit of a streamed reply.
#[derive(Clone, Debug, PartialEq, Eq)]
pub enum Fragment {
    /// A piece of the reply's text, with its ordinal position.
    Content { delta: String, response_index: usize },
    /// The start of a reply, with its author.
    BeginResponse { role: Role, response_index: usize },
    /// The end of a reply.
    CloseResponse { response_index: usize },
    /// The end of the stream.
    Done,
}

/// Whether `f` is a content fragment with ordinal `k`.
pub open spec fn content_with(f: Fragment, k: int) -> bool {
    match f {
        Fragment::Content { delta, response_index } => response_index == k,
        _ => false,
    }
}

/// Whether `f` carries text.
pub open spec fn is_content(f: Fragment) -> bool {
    f is Content
}

/// Whether some content fragment of `fs` has ordinal `k`.
pub open spec fn has_ordinal(fs: Seq<Fragment>, k: int) -> bool {
    exists|i: int| 0 <= i < fs.len() && #[trigger] content_with(fs[i], k)
}

/// The texts of the content fragments with ordinal `k`, in arrival order.
pub open spec fn text_at(fs: Seq<Fragment>, k: int) -> Seq<char>
    decreases fs.len(),
{
    if fs.len() == 0 {
        Seq::empty()
    } else {
        let piece = match fs.last() {
            Fragment::Content { delta, response_index } => if response_index == k {
                delta@
            } else {
                Seq::empty()
            },
            _ => Seq::empty(),
        };
        text_at(fs.drop_last(), k) + piece
    }
}

/// The texts of all ordinals below `n`, ordinal by ordinal.
pub open spec fn text_upto(fs: Seq<Fragment>, n: nat) -> Seq<char>
    decreases n,
{
    if n == 0 {
        Seq::empty()
    } else {
        text_upto(fs, (n - 1) as nat) + text_at(fs, n - 1)
    }
}

/// The text of the reply that `fs` streams: the content fragments' texts in
/// the order of their ordinals, those of one ordinal in arrival order.
pub open spec fn reconstructed_text(fs: Seq<Fragment>) -> Seq<char> {
    text_upto(fs, usize::MAX as nat + 1)
}

/// An ordinal that no content fragment carries contributes no text.
pub proof fn lemma_absent_ordinal(fs: Seq<Fragment>, k: int)
    requires
        !has_ordinal(fs, k),
    ensures
        text_at(fs, k) == Seq::<char>::empty(),
    decreases fs.len(),
{
    if fs.len() > 0 {
        assert forall|i: int| 0 <= i < fs.drop_last().len() implies !content_with(
            #[trigger] fs.drop_last()[i],
            k,
        ) by {
            assert(fs.drop_last()[i] == fs[i]);
        }
        lemma_absent_ordinal(fs.drop_last(), k);
        assert(!content_with(fs[fs.len() - 1], k));
    }
}

/// Ordinals that no fragment carries add nothing between `a` and `b`.
pub proof fn lemma_gap(fs: Seq<Fragment>, a: nat, b: nat)
    requires
        a <= b,
        forall|k: int| a <= k < b ==> !has_ordinal(fs, k),
    ensures
        text_upto(fs, b) == text_upto(fs, a),
    decreases b,
{
    if a < b {
        lemma_gap(fs, a, (b - 1) as nat);
        lemma_absent_ordinal(fs, b - 1);
    }
}


/// The text that a fragment carries; empty for a marker.
pub open spec fn fragment_text(f: Fragment) -> Seq<char> {
    match f {
        Fragment::Content { delta, response_index } => delta@,
        _ => Seq::empty(),
    }
}

/// No two content fragments of `fs` share an ordinal.
pub open spec fn distinct_ordinals(fs: Seq<Fragment>) -> bool {
    forall|i: int, j: int, k: int|
        0 <= i < fs.len() && 0 <= j < fs.len() && #[trigger] content_with(fs[i], k)
            && #[trigger] content_with(fs[j], k) ==> i == j
}

/// Where ordinals are distinct, the text at an ordinal is that of the one
/// fragment that carries it.
proof fn lemma_single_text(fs: Seq<Fragment>, i: int, k: int)
    requires
        distinct_ordinals(fs),
        0 <= i < fs.len(),
        content_with(fs[i], k),
    ensures
        text_at(fs, k) == fragment_text(fs[i]),
    decreases fs.len(),
{
    let init = fs.drop_last();
    assert(distinct_ordinals(init)) by {
        assert forall|a: int, b: int, c: int|
            0 <= a < init.len() && 0 <= b < init.len() && #[trigger] content_with(init[a], c)
                && #[trigger] content_with(init[b], c) implies a == b by {
            assert(content_with(fs[a], c) && content_with(fs[b], c));
        }
    }
    if i == fs.len() - 1 {
        assert forall|j: int| 0 <= j < init.len() implies !#[trigger] content_with(init[j], k) by {
            if content_with(init[j], k) {
                assert(content_with(fs[j], k));
            }
        }
        lemma_absent_ordinal(init, k);
    } else {
        assert(init[i] == fs[i]);
        lemma_single_text(init, i, k);
        assert(!content_with(fs[fs.len() - 1], k));
    }
}

/// Sequences that agree on the text of every ordinal agree below any bound.
proof fn lemma_upto_agree(fs1: Seq<Fragment>, fs2: Seq<Fragment>, n: nat)
    requires
        forall|k: int| text_at(fs1, k) == #[trigger] text_at(fs2, k),
    ensures
        text_upto(fs1, n) == text_upto(fs2, n),
    decreases n,
{
    if n > 0 {
        lemma_upto_agree(fs1, fs2, (n - 1) as nat);
        assert(text_at(fs1, n - 1) == text_at(fs2, n - 1));
    }
}

/// The text at an ordinal of `fs1` is found in any `fs2` that holds the
/// same fragments, where both carry distinct ordinals.
proof fn lemma_text_at_moves(fs1: Seq<Fragment>, fs2: Seq<Fragment>, k: int)
    requires
        fs1.to_multiset() == fs2.to_multiset(),
        distinct_ordinals(fs1),
        distinct_ordinals(fs2),
        has_ordinal(fs1, k),
    ensures
        text_at(fs1, k) == text_at(fs2, k),
{
    broadcast use vstd::seq_lib::group_to_multiset_ensures;

    let i = choose|i: int| 0 <= i < fs1.len() && #[trigger] content_with(fs1[i], k);
    assert(fs1.contains(fs1[i]));
    assert(fs2.to_multiset().count(fs1[i]) > 0);
    assert(fs2.contains(fs1[i]));
    let j = choose|j: int| 0 <= j < fs2.len() && fs2[j] == fs1[i];
    assert(content_with(fs2[j], k));
    lemma_single_text(fs1, i, k);
    lemma_single_text(fs2, j, k);
}

/// Reconstruction follows the ordinals, not the arrival order: two streams
/// that deliver the same fragments, each ordinal at most once, in any order,
/// give the same text.
pub proof fn lemma_arrival_order_irrelevant(fs1: Seq<Fragment>, fs2: Seq<Fragment>)
    requires
        fs1.to_multiset() == fs2.to_multiset(),
        distinct_ordinals(fs1),
        distinct_ordinals(fs2),
    ensures
        reconstructed_text(fs1) == reconstructed_text(fs2),
{
    assert forall|k: int| text_at(fs1, k) == #[trigger] text_at(fs2, k) by {
        if has_ordinal(fs1, k) {
            lemma_text_at_moves(fs1, fs2, k);
        } else if has_ordinal(fs2, k) {
            lemma_text_at_moves(fs2, fs1, k);
        } else {
            lemma_absent_ordinal(fs1, k);
            lemma_absent_ordinal(fs2, k);
        }
    }
    lemma_upto_agree(fs1, fs2, usize::MAX as nat + 1);
}

/// A stream without content fragments reconstructs to the empty text.
pub proof fn lemma_no_content_is_empty(fs: Seq<Fragment>)
    requires
        forall|i: int| 0 <= i < fs.len() ==> !is_content(#[trigger] fs[i]),
    ensures
        reconstructed_text(fs) == Seq::<char>::empty(),
{
    assert forall|k: int| 0 <= k < usize::MAX as nat + 1 implies !has_ordinal(fs, k) by {
        assert forall|i: int| 0 <= i < fs.len() implies !#[trigger] content_with(fs[i], k) by {
            assert(!is_content(fs[i]));
        }
    }
    lemma_gap(fs, 0, usize::MAX as nat + 1);
}


/// The least ordinal at or above `lo` that a content fragment carries.
fn least_ordinal_from(fs: &Vec<Fragment>, lo: usize) -> (r: Option<usize>)
    ensures
        r is None ==> forall|k: int| lo <= k <= usize::MAX ==> !has_ordinal(fs@, k),
        r is Some ==> {
            &&& lo <= r->0
            &&& has_ordinal(fs@, r->0 as int)
            &&& forall|k: int| lo <= k < r->0 ==> !has_ordinal(fs@, k)
        },
{
    let mut best: Option<usize> = None;
    let mut i: usize = 0;
    while i < fs.len()
        invariant
            0 <= i <= fs@.len(),
            best is None ==> forall|j: int, k: int|
                0 <= j < i && lo <= k <= usize::MAX ==> !#[trigger] content_with(fs@[j], k),
            best is Some ==> {
                &&& lo <= best->0
                &&& has_ordinal(fs@, best->0 as int)
                &&& forall|j: int, k: int|
                    0 <= j < i && lo <= k < best->0 ==> !#[trigger] content_with(fs@[j], k)
            },
        decreases fs.len() - i,
    {
        match &fs[i] {
            Fragment::Content { delta, response_index } => {
                let o = *response_index;
                if lo <= o {
                    let better = match best {
                        None => true,
                        Some(b) => o < b,
                    };
                    if better {
                        best = Some(o);
                        assert(content_with(fs@[i as int], o as int));
                    }
                }
            },
            _ => {},
        }
        i = i + 1;
    }
    best
}

/// Appends the texts of the content fragments with ordinal `k`, in arrival
/// order.
fn append_ordinal(fs: &Vec<Fragment>, k: usize, out: &mut String)
    ensures
        final(out)@ == old(out)@ + text_at(fs@, k as int),
{
    let mut i: usize = 0;
    while i < fs.len()
        invariant
            0 <= i <= fs@.len(),
            out@ == old(out)@ + text_at(fs@.take(i as int), k as int),
        decreases fs.len() - i,
    {
        proof {
            assert(fs@.take(i as int + 1).drop_last() == fs@.take(i as int));
        }
        match &fs[i] {
            Fragment::Content { delta, response_index } => {
                if *response_index == k {
                    out.append(delta.as_str());
                }
            },
            _ => {},
        }
        i = i + 1;
    }
    proof {
        assert(fs@.take(fs.len() as int) == fs@);
    }
}

/// The text of the reply that `fs` streams, ordinal by ordinal.
pub fn reconstruct_text(fs: &Vec<Fragment>) -> (r: String)
    ensures
        r@ == reconstructed_text(fs@),
{
    let mut out = String::new();
    let mut next: usize = 0;
    let mut finished = false;
    while !finished
        invariant
            !finished ==> out@ == text_upto(fs@, next as nat),
            finished ==> out@ == reconstructed_text(fs@),
        decreases (if finished {
            0
        } else {
            usize::MAX as int + 2 - next
        }),
    {
        match least_ordinal_from(fs, next) {
            None => {
                proof {
                    lemma_gap(fs@, next as nat, usize::MAX as nat + 1);
                }
                finished = true;
            },
            Some(k) => {
                proof {
                    lemma_gap(fs@, next as nat, k as nat);
                }
                append_ordinal(fs, k, &mut out);
                if k == usize::MAX {
                    finished = true;
                } else {
                    next = k + 1;
                }
            },
        }
    }
    out
}

/// The assistant message that a closed stream of fragments amounts to.
/// A stream without content still yields one message, with empty text.
pub fn reconstruct(fs: &Vec<Fragment>) -> (r: Message)
    ensures
        r@ == message_of(Role::Assistant, reconstructed_text(fs@)),
{
    Message::new(Role::Assistant, reconstruct_text(fs))
}

} // verus!
