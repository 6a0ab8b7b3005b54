//! What holds of every scan, proved over the counting model.
use vstd::prelude::*;

use crate::extension::{extension_of, is_markdown_name, markdown_bytes, md_bytes};
use crate::scan::{entry_is_markdown, markdown_count};

verus! {

broadcast use vstd::seq_lib::group_to_multiset_ensures;

/// Whether a listed entry was read and its name has extension `ext`.
pub open spec fn entry_has_extension(entry: Option<Seq<u8>>, ext: Seq<u8>) -> bool {
    match entry {
        Some(name) => extension_of(name) == Some(ext),
        None => false,
    }
}

/// How many of the listed entries were read and have extension `ext`.
pub open spec fn extension_count(entries: Seq<Option<Seq<u8>>>, ext: Seq<u8>) -> nat
    decreases entries.len(),
{
    if entries.len() == 0 {
        0
    } else {
        extension_count(entries.drop_last(), ext) + if entry_has_extension(entries.last(), ext) {
            1nat
        } else {
            0nat
        }
    }
}

/// The count over two listings put one after the other is the sum of
/// their counts.
pub proof fn lemma_markdown_count_concat(a: Seq<Option<Seq<u8>>>, b: Seq<Option<Seq<u8>>>)
    ensures
        markdown_count(a + b) == markdown_count(a) + markdown_count(b),
    decreases b.len(),
{
    if b.len() == 0 {
        assert(a + b =~= a);
    } else {
        lemma_markdown_count_concat(a, b.drop_last());
        assert((a + b).drop_last() =~= a + b.drop_last());
        assert((a + b).last() == b.last());
    }
}

/// The total of a scan is the number of entries with extension `md` plus
/// the number with extension `markdown`; entries with any other extension,
/// or none, add nothing.
pub proof fn total_is_md_plus_markdown(entries: Seq<Option<Seq<u8>>>)
    ensures
        markdown_count(entries) == extension_count(entries, md_bytes()) + extension_count(
            entries,
            markdown_bytes(),
        ),
    decreases entries.len(),
{
    if entries.len() > 0 {
        total_is_md_plus_markdown(entries.drop_last());
        assert(md_bytes() != markdown_bytes()) by {
            assert(md_bytes().len() != markdown_bytes().len());
        }
    }
}

/// Adding entries that are not markdown files to a listing, however many,
/// leaves the total as it was.
pub proof fn other_entries_leave_total_unchanged(
    entries: Seq<Option<Seq<u8>>>,
    others: Seq<Option<Seq<u8>>>,
)
    requires
        forall|i: int| 0 <= i < others.len() ==> !entry_is_markdown(#[trigger] others[i]),
    ensures
        markdown_count(entries + others) == markdown_count(entries),
{
    lemma_no_markdown_counts_zero(others);
    lemma_markdown_count_concat(entries, others);
}

proof fn lemma_no_markdown_counts_zero(others: Seq<Option<Seq<u8>>>)
    requires
        forall|i: int| 0 <= i < others.len() ==> !entry_is_markdown(#[trigger] others[i]),
    ensures
        markdown_count(others) == 0,
    decreases others.len(),
{
    if others.len() > 0 {
        let rest = others.drop_last();
        assert forall|i: int| 0 <= i < rest.len() implies !entry_is_markdown(#[trigger] rest[i]) by {
            assert(rest[i] == others[i]);
        }
        lemma_no_markdown_counts_zero(rest);
        assert(!entry_is_markdown(others[others.len() - 1]));
    }
}

/// Extensions are matched with their letter case: a name whose extension
/// is `MD` or `MARKDOWN` is not a markdown file's.
pub proof fn upper_case_extension_not_counted(name: Seq<u8>)
    requires
        extension_of(name) == Some(seq![0x4du8, 0x44u8]) || extension_of(name) == Some(
            seq![0x4du8, 0x41u8, 0x52u8, 0x4bu8, 0x44u8, 0x4fu8, 0x57u8, 0x4eu8],
        ),
    ensures
        !is_markdown_name(name),
{
    let ext = extension_of(name)->0;
    assert(ext[0] != md_bytes()[0]);
    assert(ext[0] != markdown_bytes()[0]);
}

/// The total does not depend on the order in which the entries are
/// listed: two scans of an unchanged directory, whose listings hold the
/// same entries in any order, give the same total.
pub proof fn listing_order_does_not_change_total(
    a: Seq<Option<Seq<u8>>>,
    b: Seq<Option<Seq<u8>>>,
)
    requires
        a.to_multiset() == b.to_multiset(),
    ensures
        markdown_count(a) == markdown_count(b),
    decreases a.len(),
{
    broadcast use vstd::multiset::group_multiset_axioms;

    vstd::seq_lib::to_multiset_len(a);
    vstd::seq_lib::to_multiset_len(b);
    if a.len() > 0 {
        let x = a.last();
        let front = a.drop_last();
        assert(front.push(x) =~= a);
        vstd::seq_lib::to_multiset_build(front, x);
        vstd::seq_lib::to_multiset_contains(b, x);
        let j = choose|j: int| 0 <= j < b.len() && b[j] == x;
        let rest = b.remove(j);
        vstd::seq_lib::to_multiset_remove(b, j);
        assert(rest.to_multiset() =~= front.to_multiset());
        listing_order_does_not_change_total(front, rest);
        let left = b.subrange(0, j);
        let right = b.subrange(j + 1, b.len() as int);
        assert(b =~= left + seq![x] + right);
        assert(rest =~= left + right);
        lemma_markdown_count_concat(left + seq![x], right);
        lemma_markdown_count_concat(left, seq![x]);
        lemma_markdown_count_concat(left, right);
        let one = seq![x];
        assert(one.drop_last() =~= Seq::<Option<Seq<u8>>>::empty());
        assert(markdown_count(one.drop_last()) == 0);
        assert(markdown_count(front) + markdown_count(one) == markdown_count(a));
    }
}

} // verus!
