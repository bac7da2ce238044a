//! What the values that the machines take and give mean.

use vstd::prelude::*;
use crate::chunks::{covers, ChunkRanges};
use crate::cycle::{CycleAction, CycleActionView, CycleInput, CycleInputView};
use crate::digest::{BlobFormat, Digest, HashAndFormat};
use crate::event::{GcMarkEvent, GcSweepEvent, MarkEventView, SweepEventView};
use crate::mark::{
    MarkAction, MarkActionView, MarkInput, MarkInputView, TagEntry, TagView, TempTagEntry,
    TempTagView,
};
use crate::set::{ClaimSet, DigestSet};
use crate::sweep::{SweepAction, SweepActionView};
use crate::text::{decimal, digit, push_decimal};
use crate::upkeep::lemma_contains_extended;

verus! {

/// The number that a text of decimal digits stands for.
pub open spec fn value(text: Seq<char>) -> int
    decreases text.len(),
{
    if text.len() == 0 {
        0
    } else {
        10 * value(text.drop_last()) + (text.last() as int - '0' as int)
    }
}

/// A number in decimal stands for itself, has nothing but digits, and no leading zero.
pub proof fn law_decimal_reads_back(n: nat)
    ensures
        value(decimal(n)) == n,
        decimal(n).len() > 0,
        forall|i: int| 0 <= i < decimal(n).len() ==> '0' <= #[trigger] decimal(n)[i] <= '9',
        n > 0 ==> decimal(n)[0] != '0',
        n == 0 ==> decimal(n).len() == 1,
    decreases n,
{
    let text = decimal(n);
    if n < 10 {
        assert(text.drop_last() =~= Seq::empty());
        assert(value(text.drop_last()) == 0);
    } else {
        law_decimal_reads_back(n / 10);
        assert(text.drop_last() =~= decimal(n / 10));
        assert(text.last() == digit(n % 10));
        assert forall|i: int| 0 <= i < text.len() implies '0' <= #[trigger] text[i] <= '9' by {
            if i < text.len() - 1 {
                assert(text[i] == decimal(n / 10)[i]);
            }
        }
        assert(text[0] == decimal(n / 10)[0]);
    }
}

/// Appending a number keeps the text and adds what reads back as the number.
pub proof fn law_appended_number_reads_back(text: &mut String, n: u64)
    requires
        call_ensures(push_decimal, (text, n), ()),
    ensures
        old(text)@.is_prefix_of(final(text)@),
        final(text)@.len() > old(text)@.len(),
        value(final(text)@.skip(old(text)@.len() as int)) == n,
{
    law_decimal_reads_back(n as nat);
    assert(final(text)@.skip(old(text)@.len() as int) =~= decimal(n as nat));
}

/// No chunk belongs to the set without boundaries, and each boundary changes whether the chunks at
/// and after it belong to the set, and no others.
pub proof fn law_membership_changes_at_boundaries(boundaries: Seq<u64>, at: u64, chunk: u64)
    ensures
        !covers(Seq::empty(), chunk),
        covers(boundaries.push(at), chunk) <==> (at <= chunk) != covers(boundaries, chunk),
{
    let below = |b: u64| b <= chunk;
    reveal(Seq::filter);
    assert(Seq::<u64>::empty().filter(below).len() == 0);
    boundaries.lemma_filter_push(at, below);
}

/// All chunks are in the set of all chunks, and a set of chunks holds those that its boundaries
/// cover.
pub proof fn law_all_chunks_are_covered(all: ChunkRanges, ranges: ChunkRanges, chunk: u64)
    requires
        call_ensures(ChunkRanges::all, (), all),
    ensures
        all@.contains(chunk),
        covers(all.boundaries@, chunk),
        ranges@.contains(chunk) <==> covers(ranges.boundaries@, chunk),
{
}

/// The two claims of one digest are of that digest, and differ in whether they are raw.
pub proof fn law_formats_tell_claims_apart(
    hash: Digest,
    raw: HashAndFormat,
    collection: HashAndFormat,
    raw_is_raw: bool,
    collection_is_raw: bool,
)
    requires
        call_ensures(HashAndFormat::raw, (hash,), raw),
        call_ensures(HashAndFormat::hash_seq, (hash,), collection),
        call_ensures(BlobFormat::is_raw, (&raw.format,), raw_is_raw),
        call_ensures(BlobFormat::is_raw, (&collection.format,), collection_is_raw),
    ensures
        raw.hash == hash,
        collection.hash == hash,
        raw_is_raw,
        !collection_is_raw,
        raw != collection,
{
}

/// A set holds what was inserted and what it held before. An insertion tells whether the digest
/// was new, and the length counts the new ones.
pub proof fn law_set_holds_what_was_inserted(
    set: &mut DigestSet,
    hash: Digest,
    new: bool,
    other: Digest,
    was_in: bool,
    is_in: bool,
    fewer: usize,
    more: usize,
)
    requires
        call_ensures(DigestSet::contains, (&*old(set), &other), was_in),
        call_ensures(DigestSet::len, (&*old(set),), fewer),
        call_ensures(DigestSet::insert, (set, hash), new),
        call_ensures(DigestSet::contains, (&*final(set), &other), is_in),
        call_ensures(DigestSet::len, (&*final(set),), more),
    ensures
        is_in <==> was_in || other == hash,
        other == hash ==> new == !was_in,
        more == fewer + if new {
            1int
        } else {
            0
        },
{
    if !new {
        assert(old(set)@.insert(hash) =~= old(set)@);
    }
}

/// A new set, and one that was cleared, holds nothing.
pub proof fn law_cleared_set_is_empty(
    fresh: DigestSet,
    set: &mut DigestSet,
    hash: Digest,
    fresh_found: bool,
    found: bool,
    fresh_len: usize,
    len: usize,
)
    requires
        call_ensures(DigestSet::new, (), fresh),
        call_ensures(DigestSet::contains, (&fresh, &hash), fresh_found),
        call_ensures(DigestSet::len, (&fresh,), fresh_len),
        call_ensures(DigestSet::clear, (set,), ()),
        call_ensures(DigestSet::contains, (&*final(set), &hash), found),
        call_ensures(DigestSet::len, (&*final(set),), len),
    ensures
        !fresh_found,
        !found,
        fresh_len == 0,
        len == 0,
{
}

/// The claims are kept in the order in which they came, each of them once, and none is lost.
pub proof fn law_claims_are_kept_once(
    empty: ClaimSet,
    set: ClaimSet,
    claim: HashAndFormat,
    more: ClaimSet,
    list: Vec<HashAndFormat>,
    other: HashAndFormat,
)
    requires
        call_ensures(ClaimSet::new, (), empty),
        call_ensures(ClaimSet::insert, (set, claim), more),
        call_ensures(ClaimSet::into_vec, (more,), list),
    ensures
        empty@.len() == 0,
        list@ == more@,
        more@.contains(other) <==> set@.contains(other) || other == claim,
        set@.is_prefix_of(more@),
        set@.contains(claim) ==> more@ == set@,
        set@.no_duplicates() ==> more@.no_duplicates(),
{
    assert(set@.push(claim) =~= set@ + seq![claim]);
    lemma_contains_extended(set@, claim);
}

/// A tag is seen with its name, its claim and the claim's text.
pub proof fn law_tags_are_seen_as_they_are(tag: TagEntry, temp_tag: TempTagEntry)
    ensures
        tag@.name_text == tag.name_text@,
        tag@.claim == tag.claim,
        tag@.claim_text == tag.claim_text@,
        temp_tag@.claim == temp_tag.claim,
        temp_tag@.claim_text == temp_tag.claim_text@,
{
}

/// An input is seen as what it is, with what it brings.
pub proof fn law_inputs_are_seen_as_they_are<E>(
    input: CycleInput<E>,
    mark: MarkInput<E>,
    tag: TagView,
    temp_tag: TempTagView,
    child: Digest,
    text: Seq<char>,
    error: E,
)
    ensures
        input is Begin <==> input@ is Begin,
        input is Cleared <==> input@ is Cleared,
        input matches CycleInput::Cleared(result) ==> input@ == CycleInputView::<E>::Cleared(
            result,
        ),
        input is Mark <==> input@ is Mark,
        input matches CycleInput::Mark(answer) ==> input@ == CycleInputView::<E>::Mark(answer@),
        input is Sweep <==> input@ is Sweep,
        input matches CycleInput::Sweep(answer) ==> input@ == CycleInputView::<E>::Sweep(answer),
        mark is Resume <==> mark@ is Resume,
        mark is Listed <==> mark@ is Listed,
        mark matches MarkInput::Listed(result) ==> mark@ == MarkInputView::<E>::Listed(result),
        mark is Tag <==> mark@ is Tag,
        mark@ == MarkInputView::<E>::Tag(None) <==> (mark matches MarkInput::Tag(None)),
        mark@ == MarkInputView::<E>::Tag(Some(Err(error))) <==> (mark matches MarkInput::Tag(
            Some(Err(e)),
        ) && e == error),
        mark@ == MarkInputView::<E>::Tag(Some(Ok(tag))) <==> (mark matches MarkInput::Tag(
            Some(Ok(entry)),
        ) && entry@ == tag),
        mark is TempTag <==> mark@ is TempTag,
        mark@ == MarkInputView::<E>::TempTag(None) <==> (mark matches MarkInput::TempTag(None)),
        mark@ == MarkInputView::<E>::TempTag(Some(temp_tag)) <==> (mark matches MarkInput::TempTag(
            Some(entry),
        ) && entry@ == temp_tag),
        mark is Child <==> mark@ is Child,
        mark@ == MarkInputView::<E>::Child(None) <==> (mark matches MarkInput::Child(None)),
        mark@ == MarkInputView::<E>::Child(Some(Ok(child))) <==> (mark matches MarkInput::Child(
            Some(Ok(hash)),
        ) && hash == child),
        mark@ == MarkInputView::<E>::Child(Some(Err(text))) <==> (mark matches MarkInput::Child(
            Some(Err(why)),
        ) && why@ == text),
{
}

/// An action is seen as what it is, with what it asks for.
pub proof fn law_actions_are_seen_as_they_are<E>(
    action: CycleAction<E>,
    mark: MarkAction<E>,
    sweep: SweepAction<E>,
)
    ensures
        action is ClearProtected <==> action@ is ClearProtected,
        action is Mark <==> action@ is Mark,
        action matches CycleAction::Mark(asked) ==> action@ == CycleActionView::<E>::Mark(asked@),
        action is Sweep <==> action@ is Sweep,
        action matches CycleAction::Sweep(asked) ==> action@ == CycleActionView::<E>::Sweep(asked@),
        action is Return <==> action@ is Return,
        action matches CycleAction::Return(result) ==> action@ == CycleActionView::<E>::Return(
            result,
        ),
        mark is ListTags <==> mark@ is ListTags,
        mark is NextTag <==> mark@ is NextTag,
        mark is ListTempTags <==> mark@ is ListTempTags,
        mark is NextTempTag <==> mark@ is NextTempTag,
        mark is NextChild <==> mark@ is NextChild,
        mark is OpenChildren <==> mark@ is OpenChildren,
        mark matches MarkAction::OpenChildren(root, chunks) ==> mark@
            == MarkActionView::<E>::OpenChildren(root, chunks@),
        mark is Yield <==> mark@ is Yield,
        mark matches MarkAction::Yield(event) ==> mark@ == MarkActionView::<E>::Yield(event@),
        mark is Return <==> mark@ is Return,
        mark matches MarkAction::Return(result) ==> mark@ == MarkActionView::<E>::Return(result),
        sweep is ListBlobs <==> sweep@ is ListBlobs,
        sweep is NextBlob <==> sweep@ is NextBlob,
        sweep is SyncDb <==> sweep@ is SyncDb,
        sweep is Delete <==> sweep@ is Delete,
        sweep matches SweepAction::Delete(batch) ==> sweep@ == SweepActionView::<E>::Delete(batch@),
        sweep is Yield <==> sweep@ is Yield,
        sweep matches SweepAction::Yield(event) ==> sweep@ == SweepActionView::<E>::Yield(event@),
        sweep is Return <==> sweep@ is Return,
        sweep matches SweepAction::Return(result) ==> sweep@ == SweepActionView::<E>::Return(
            result,
        ),
{
}

/// An event is seen as what it is, with what it reports.
pub proof fn law_events_are_seen_as_they_are<E>(mark: GcMarkEvent<E>, sweep: GcSweepEvent<E>)
    ensures
        mark is CustomDebug <==> mark@ is CustomDebug,
        mark matches GcMarkEvent::CustomDebug(text) ==> mark@ == MarkEventView::<E>::CustomDebug(
            text@,
        ),
        mark is CustomWarning <==> mark@ is CustomWarning,
        mark matches GcMarkEvent::CustomWarning(text, error) ==> mark@
            == MarkEventView::<E>::CustomWarning(text@, error),
        mark is TraversalIncomplete <==> mark@ is TraversalIncomplete,
        mark matches GcMarkEvent::TraversalIncomplete(root) ==> mark@
            == MarkEventView::<E>::TraversalIncomplete(root),
        mark is Error <==> mark@ is Error,
        mark matches GcMarkEvent::Error(error) ==> mark@ == MarkEventView::<E>::Error(error),
        sweep is CustomDebug <==> sweep@ is CustomDebug,
        sweep matches GcSweepEvent::CustomDebug(text) ==> sweep@ == SweepEventView::<
            E,
        >::CustomDebug(text@),
        sweep is CustomWarning <==> sweep@ is CustomWarning,
        sweep matches GcSweepEvent::CustomWarning(text, error) ==> sweep@
            == SweepEventView::<E>::CustomWarning(text@, error),
        sweep is Error <==> sweep@ is Error,
        sweep matches GcSweepEvent::Error(error) ==> sweep@ == SweepEventView::<E>::Error(error),
{
}

} // verus!
