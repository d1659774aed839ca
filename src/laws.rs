use vstd::prelude::*;
use crate::device::{released_by, Descriptor, SoundDevice};
use crate::direction::{grants, Direction};
use crate::enumerate::{
    default_name, entry_label, kept, lemma_positions_below, skipped, traversal_of, HintEntry,
    Traversal,
};

verus! {

broadcast use vstd::seq_lib::group_to_multiset_ensures;

/// Filtering: every entry listed for `dir` serves `dir`, and every entry
/// left out does not.
pub proof fn lemma_listed_entries_serve(hints: Seq<HintEntry>, dir: Direction)
    ensures
        forall|j: int|
            0 <= j < kept(hints, dir).len() ==> grants(
                hints[#[trigger] kept(hints, dir)[j]].ioid,
                dir,
            ),
        forall|j: int|
            0 <= j < skipped(hints, dir).len() ==> !grants(
                hints[#[trigger] skipped(hints, dir)[j]].ioid,
                dir,
            ),
    decreases hints.len(),
{
    if hints.len() > 0 {
        let rest = hints.drop_last();
        lemma_listed_entries_serve(rest, dir);
        lemma_positions_below(rest, dir);
        let k = kept(rest, dir);
        let s = skipped(rest, dir);
        assert(forall|j: int| 0 <= j < k.len() ==> hints[#[trigger] k[j]] == rest[k[j]]);
        assert(forall|j: int| 0 <= j < s.len() ==> hints[#[trigger] s[j]] == rest[s[j]]);
        if grants(hints.last().ioid, dir) {
            assert(forall|j: int| 0 <= j < k.len() ==> k.push(hints.len() - 1)[j] == k[j]);
        } else {
            assert(forall|j: int| 0 <= j < s.len() ==> s.push(hints.len() - 1)[j] == s[j]);
        }
    }
}

/// An entry without an `IOID` field is listed both for input and for
/// output.
pub proof fn lemma_undirected_entry_listed_both_ways(hints: Seq<HintEntry>, i: int)
    requires
        0 <= i < hints.len(),
        hints[i].ioid is None,
    ensures
        kept(hints, Direction::Input).contains(i),
        kept(hints, Direction::Output).contains(i),
    decreases hints.len(),
{
    let rest = hints.drop_last();
    let ki = kept(rest, Direction::Input);
    let ko = kept(rest, Direction::Output);
    if i == hints.len() - 1 {
        assert(ki.push(i)[ki.len() as int] == i);
        assert(ko.push(i)[ko.len() as int] == i);
    } else {
        lemma_undirected_entry_listed_both_ways(rest, i);
        let a = choose|a: int| 0 <= a < ki.len() && ki[a] == i;
        let b = choose|b: int| 0 <= b < ko.len() && ko[b] == i;
        if grants(hints.last().ioid, Direction::Input) {
            assert(ki.push(hints.len() - 1)[a] == i);
        }
        if grants(hints.last().ioid, Direction::Output) {
            assert(ko.push(hints.len() - 1)[b] == i);
        }
    }
}

/// The `default` pseudo-device reads `Default`, whatever its `DESC` field
/// holds or whether it has one.
pub proof fn lemma_default_label(e: HintEntry)
    requires
        e.name@ == default_name(),
    ensures
        entry_label(e) == seq!['D', 'e', 'f', 'a', 'u', 'l', 't'],
{
    assert(default_name() != seq![110u8, 117u8, 108u8, 108u8]) by {
        assert(default_name().len() != 4);
    }
}

/// The native names of `hints`, in list order.
pub open spec fn names(hints: Seq<HintEntry>) -> Seq<usize> {
    hints.map_values(|e: HintEntry| e.handle)
}

/// The native names that dropping `devices` releases, in order.
pub open spec fn dropped(devices: Seq<SoundDevice>) -> Seq<usize>
    decreases devices.len(),
{
    if devices.len() == 0 {
        Seq::empty()
    } else {
        dropped(devices.drop_last()) + released_by(devices.last().record().descriptor())
    }
}

/// Every native name released, by the caller at once or by a device when
/// it is dropped.
pub open spec fn released(t: Traversal) -> Seq<usize> {
    dropped(t.devices@) + t.freed@
}

/// Names of the entries at positions `at`.
pub open spec fn names_at(hints: Seq<HintEntry>, at: Seq<int>) -> Seq<usize> {
    at.map_values(|i: int| hints[i].handle)
}

proof fn lemma_dropped_native(devices: Seq<SoundDevice>)
    requires
        forall|j: int| 0 <= j < devices.len() ==> #[trigger] devices[j].record().descriptor() is Native,
    ensures
        dropped(devices).len() == devices.len(),
        forall|j: int|
            0 <= j < devices.len() ==> #[trigger] dropped(devices)[j]
                == devices[j].record().descriptor()->Native_0,
    decreases devices.len(),
{
    if devices.len() > 0 {
        let rest = devices.drop_last();
        assert(forall|j: int| 0 <= j < rest.len() ==> rest[j] == devices[j]);
        lemma_dropped_native(rest);
    }
}

proof fn lemma_split_names(hints: Seq<HintEntry>, dir: Direction)
    ensures
        names_at(hints, kept(hints, dir)).to_multiset().add(
            names_at(hints, skipped(hints, dir)).to_multiset(),
        ) == names(hints).to_multiset(),
    decreases hints.len(),
{
    if hints.len() > 0 {
        let rest = hints.drop_last();
        let n = hints.len() - 1;
        let e = hints.last();
        lemma_split_names(rest, dir);
        lemma_positions_below(rest, dir);
        let k = kept(rest, dir);
        let s = skipped(rest, dir);
        assert(names_at(hints, k) =~= names_at(rest, k));
        assert(names_at(hints, s) =~= names_at(rest, s));
        assert(names(hints) =~= names(rest).push(e.handle));
        if grants(e.ioid, dir) {
            assert(names_at(hints, k.push(n)) =~= names_at(hints, k).push(e.handle));
        } else {
            assert(names_at(hints, s.push(n)) =~= names_at(hints, s).push(e.handle));
        }
        assert(names_at(hints, kept(hints, dir)).to_multiset().add(
            names_at(hints, skipped(hints, dir)).to_multiset(),
        ) =~= names(hints).to_multiset());
    }
}

/// Every native name of the hint list is released exactly once: the
/// names of skipped entries by the caller at once, the others each by the
/// one device that owns it, when that device is dropped.
pub proof fn lemma_each_name_released_once(t: Traversal, hints: Seq<HintEntry>, dir: Direction)
    requires
        traversal_of(t, hints, dir),
    ensures
        released(t).to_multiset() == names(hints).to_multiset(),
{
    let k = kept(hints, dir);
    let s = skipped(hints, dir);
    assert(forall|j: int|
        0 <= j < t.devices@.len() ==> #[trigger] t.devices@[j].record().descriptor()
            == Descriptor::Native(hints[k[j]].handle));
    lemma_dropped_native(t.devices@);
    assert(dropped(t.devices@) =~= names_at(hints, k));
    assert(t.freed@ =~= names_at(hints, s));
    lemma_split_names(hints, dir);
    vstd::seq_lib::lemma_multiset_commutative(dropped(t.devices@), t.freed@);
}

} // verus!
