//! Names, durations and how they are written.
use std::time::Duration;

use vstd::prelude::*;

use crate::service::ServiceName;

verus! {

/// The characters of each name in a list of names.
pub open spec fn name_views(names: Seq<ServiceName>) -> Seq<Seq<char>> {
    Seq::new(names.len(), |i: int| names[i]@)
}

/// A list with every item that already occurred before it left out.
pub open spec fn first_occurrences<T>(items: Seq<T>) -> Seq<T>
    decreases items.len(),
{
    if items.len() == 0 {
        Seq::empty()
    } else if items.drop_last().contains(items.last()) {
        first_occurrences(items.drop_last())
    } else {
        first_occurrences(items.drop_last()).push(items.last())
    }
}

/// Compares two names by `str`'s own `==`, which holds exactly when both are
/// made of the same characters.
#[verifier::external_body]
pub(crate) fn same_name(a: ServiceName, b: ServiceName) -> (same: bool)
    ensures
        same == (a@ == b@),
{
    a == b
}

/// Whether `names` holds a name equal to `name`.
pub(crate) fn contains_name(names: &[ServiceName], name: ServiceName) -> (found: bool)
    ensures
        found == name_views(names@).contains(name@),
{
    let mut i: usize = 0;
    while i < names.len()
        invariant
            i <= names@.len(),
            forall|j: int| 0 <= j < i ==> (#[trigger] names@[j])@ != name@,
        decreases names@.len() - i,
    {
        if same_name(names[i], name) {
            assert(name_views(names@)[i as int] == name@);
            return true;
        }
        i += 1;
    }
    false
}

/// Dedup a slice in-order, preserving the first occurrence of each item.
///
/// Used by the runtime builder so that accidentally listing a dependency twice
/// (`&["storage", "storage"]`) doesn't corrupt the topological sort's indegrees.
pub fn dedup_preserve_order(items: &[ServiceName]) -> (kept: Vec<ServiceName>)
    ensures
        name_views(kept@) == first_occurrences(name_views(items@)),
{
    let mut kept: Vec<ServiceName> = Vec::new();
    let mut i: usize = 0;
    assert(name_views(items@).take(0) =~= Seq::empty());
    assert(name_views(kept@) =~= Seq::empty());
    while i < items.len()
        invariant
            i <= items@.len(),
            name_views(kept@) == first_occurrences(name_views(items@).take(i as int)),
        decreases items@.len() - i,
    {
        let ghost before = name_views(items@).take(i as int);
        let ghost after = name_views(items@).take(i + 1);
        proof {
            assert(after.drop_last() =~= before);
            assert(after.last() == items@[i as int]@);
            lemma_first_occurrences_members(before);
        }
        if !contains_name(kept.as_slice(), items[i]) {
            let ghost kept_before = kept@;
            kept.push(items[i]);
            assert(name_views(kept@) =~= name_views(kept_before).push(items@[i as int]@));
        }
        i += 1;
    }
    assert(name_views(items@).take(i as int) =~= name_views(items@));
    kept
}

/// Leaving repeats out keeps the same members, each of them once.
pub proof fn lemma_first_occurrences_members<T>(items: Seq<T>)
    ensures
        first_occurrences(items).no_duplicates(),
        forall|x: T| #[trigger] first_occurrences(items).contains(x) <==> items.contains(x),
        first_occurrences(items).len() <= items.len(),
    decreases items.len(),
{
    if items.len() > 0 {
        let front = items.drop_last();
        lemma_first_occurrences_members(front);
        let kept = first_occurrences(front);
        assert forall|x: T| #[trigger] items.contains(x) <==> front.contains(x) || x == items.last() by {
            if front.contains(x) {
                let j = choose|j: int| 0 <= j < front.len() && front[j] == x;
                assert(items[j] == x);
            }
            if items.contains(x) && x != items.last() {
                let j = choose|j: int| 0 <= j < items.len() && items[j] == x;
                assert(front[j] == x);
            }
            if x == items.last() {
                assert(items[items.len() - 1] == x);
            }
        }
        if !front.contains(items.last()) {
            let all = kept.push(items.last());
            assert forall|x: T| #[trigger] all.contains(x) <==> kept.contains(x) || x == items.last() by {
                if kept.contains(x) {
                    let j = choose|j: int| 0 <= j < kept.len() && kept[j] == x;
                    assert(all[j] == x);
                }
                if x == items.last() {
                    assert(all[kept.len() as int] == x);
                }
            }
            assert(!kept.contains(items.last()));
        }
    }
}

/// Leaving repeats out of a list without repeats changes nothing.
pub proof fn lemma_first_occurrences_distinct<T>(items: Seq<T>)
    requires
        items.no_duplicates(),
    ensures
        first_occurrences(items) == items,
    decreases items.len(),
{
    if items.len() > 0 {
        let front = items.drop_last();
        lemma_first_occurrences_distinct(front);
        if front.contains(items.last()) {
            let j = choose|j: int| 0 <= j < front.len() && front[j] == items.last();
            assert(items[j] == items[items.len() - 1]);
        }
        assert(front.push(items.last()) =~= items);
    }
}

/// Deduplicating twice gives the same as deduplicating once.
pub proof fn law_dedup_idempotent<T>(items: Seq<T>)
    ensures
        first_occurrences(first_occurrences(items)) == first_occurrences(items),
{
    lemma_first_occurrences_members(items);
    lemma_first_occurrences_distinct(first_occurrences(items));
}

/// What is kept of a list stands in the order of first occurrences.
pub proof fn law_dedup_keeps_order<T>(items: Seq<T>, a: int, b: int)
    requires
        0 <= a < b < first_occurrences(items).len(),
    ensures
        exists|i: int, j: int|
            0 <= i < j < items.len() && items[i] == first_occurrences(items)[a] && items[j]
                == first_occurrences(items)[b] && (forall|h: int|
                0 <= h < j ==> #[trigger] items[h] != items[j]),
    decreases items.len(),
{
    let kept = first_occurrences(items);
    let front = items.drop_last();
    lemma_first_occurrences_members(front);
    if b < first_occurrences(front).len() {
        law_dedup_keeps_order(front, a, b);
        let (i, j) = choose|i: int, j: int|
            0 <= i < j < front.len() && front[i] == first_occurrences(front)[a] && front[j]
                == first_occurrences(front)[b] && (forall|h: int|
                0 <= h < j ==> #[trigger] front[h] != front[j]);
        assert(items[i] == kept[a] && items[j] == kept[b]);
        assert forall|h: int| 0 <= h < j implies #[trigger] items[h] != items[j] by {
            assert(front[h] != front[j]);
        }
    } else {
        let j = items.len() - 1;
        assert(kept[b] == items[j]);
        assert(first_occurrences(front).contains(kept[a]));
        let i = choose|i: int| 0 <= i < front.len() && front[i] == kept[a];
        assert(items[i] == kept[a]);
        assert forall|h: int| 0 <= h < j implies #[trigger] items[h] != items[j] by {
            assert(front[h] == items[h]);
            assert(front.contains(front[h]));
        }
    }
}

/// The length of a duration in nanoseconds.
pub uninterp spec fn duration_nanos(d: Duration) -> nat;

/// Nanoseconds in a millisecond.
pub open spec fn nanos_per_milli() -> nat {
    1_000_000
}

/// The length of the longest duration in nanoseconds: as many seconds as 64 bits can
/// count, and all but a nanosecond of another one.
pub open spec fn max_nanos() -> nat {
    (u64::MAX * 1_000_000_000 + 999_999_999) as nat
}

/// [`Duration::as_secs`]: the whole seconds of a duration.
#[verifier::external_body]
fn as_secs(d: Duration) -> (secs: u64)
    ensures
        secs == duration_nanos(d) / 1_000_000_000,
{
    d.as_secs()
}

/// [`Duration::subsec_nanos`]: the nanoseconds beyond the whole seconds of a duration.
#[verifier::external_body]
fn subsec_nanos(d: Duration) -> (nanos: u32)
    ensures
        nanos == duration_nanos(d) % 1_000_000_000,
{
    d.subsec_nanos()
}

/// [`Duration::new`]: the duration of that many seconds and nanoseconds. More
/// nanoseconds than a second has are left out: they can exceed what a duration holds.
#[verifier::external_body]
fn new_duration(secs: u64, nanos: u32) -> (d: Duration)
    requires
        nanos < 1_000_000_000,
    ensures
        duration_nanos(d) == secs * 1_000_000_000 + nanos,
{
    Duration::new(secs, nanos)
}

/// The length of a duration in nanoseconds.
pub(crate) fn as_nanos(d: Duration) -> (nanos: u128)
    ensures
        nanos == duration_nanos(d),
        nanos <= max_nanos(),
{
    let secs: u64 = as_secs(d);
    let rest: u32 = subsec_nanos(d);
    secs as u128 * 1_000_000_000 + rest as u128
}

/// The duration of that many nanoseconds.
pub(crate) fn from_nanos(nanos: u128) -> (d: Duration)
    requires
        nanos <= max_nanos(),
    ensures
        duration_nanos(d) == nanos,
{
    new_duration((nanos / 1_000_000_000) as u64, (nanos % 1_000_000_000) as u32)
}

/// The duration of that many milliseconds.
pub(crate) fn from_millis(ms: u64) -> (d: Duration)
    ensures
        duration_nanos(d) == ms * nanos_per_milli(),
{
    from_nanos(ms as u128 * 1_000_000)
}

/// How [`Duration`]'s `Debug` writes a duration of that many nanoseconds.
pub uninterp spec fn duration_text(nanos: nat) -> Seq<char>;

/// `format!` of a [`Duration`] with `{:?}`.
#[verifier::external_body]
pub(crate) fn show_duration(d: Duration) -> (text: String)
    ensures
        text@ == duration_text(duration_nanos(d)),
{
    format!("{:?}", d)
}

/// How the `Debug` of a list of strings writes these.
pub uninterp spec fn names_text(names: Seq<Seq<char>>) -> Seq<char>;

/// `format!` of a list of names with `{:?}`.
#[verifier::external_body]
pub(crate) fn show_names(names: &Vec<ServiceName>) -> (text: String)
    ensures
        text@ == names_text(name_views(names@)),
{
    format!("{:?}", names)
}

/// Default drain timeout used by the supervisor when none is set on the builder.
pub const DEFAULT_SHUTDOWN_TIMEOUT_MS: u64 = 10_000;

} // verus!
