use vstd::prelude::*;
use crate::device::{AudioDevice, Descriptor, SoundDevice};
use crate::direction::{grants, serves, Direction};
use crate::label::{description_text, fold_newlines, lossy_text};

verus! {

/// One entry of the sound library's hint list, as read by the caller.
#[derive(Debug)]
pub struct HintEntry {
    /// Bytes of the `NAME` field (the device's descriptor).
    pub name: Vec<u8>,
    /// Address of the native `NAME` string, which is released once.
    pub handle: usize,
    /// Bytes of the `DESC` field, where it was read.
    pub desc: Option<Vec<u8>>,
    /// Leading byte of the `IOID` field, `None` where the field is absent.
    pub ioid: Option<u8>,
}

/// The name of the null pseudo-device, `null`.
pub open spec fn null_name() -> Seq<u8> {
    seq![110u8, 117u8, 108u8, 108u8]
}

/// The name of the default pseudo-device, `default`.
pub open spec fn default_name() -> Seq<u8> {
    seq![100u8, 101u8, 102u8, 97u8, 117u8, 108u8, 116u8]
}

/// Whether an entry of this name shows its `DESC` field: all but the two
/// pseudo-devices do.
pub open spec fn shows_description(name: Seq<u8>) -> bool {
    name != null_name() && name != default_name()
}

/// The display text of an entry.
pub open spec fn entry_label(e: HintEntry) -> Seq<char> {
    if e.name@ == null_name() {
        seq!['N', 'u', 'l', 'l']
    } else if e.name@ == default_name() {
        seq!['D', 'e', 'f', 'a', 'u', 'l', 't']
    } else {
        match e.desc {
            Some(d) => fold_newlines(lossy_text(d@)),
            None => Seq::empty(),
        }
    }
}

/// Every entry that shows its description has one.
pub open spec fn well_formed(hints: Seq<HintEntry>) -> bool {
    forall|i: int|
        0 <= i < hints.len() && #[trigger] shows_description(hints[i].name@) ==> hints[i].desc
            is Some
}

/// Positions of the entries that serve `dir`, in list order.
pub open spec fn kept(hints: Seq<HintEntry>, dir: Direction) -> Seq<int>
    decreases hints.len(),
{
    if hints.len() == 0 {
        Seq::empty()
    } else {
        let rest = kept(hints.drop_last(), dir);
        if grants(hints.last().ioid, dir) {
            rest.push(hints.len() - 1)
        } else {
            rest
        }
    }
}

/// Positions of the entries that do not serve `dir`, in list order.
pub open spec fn skipped(hints: Seq<HintEntry>, dir: Direction) -> Seq<int>
    decreases hints.len(),
{
    if hints.len() == 0 {
        Seq::empty()
    } else {
        let rest = skipped(hints.drop_last(), dir);
        if grants(hints.last().ioid, dir) {
            rest
        } else {
            rest.push(hints.len() - 1)
        }
    }
}

/// What enumeration made of a hint list: the devices kept, and the native
/// names of the entries skipped, which the caller releases at once.
pub struct Traversal {
    pub devices: Vec<SoundDevice>,
    pub freed: Vec<usize>,
}

/// The device made of entry `e` for direction `dir`.
pub open spec fn made_of(d: SoundDevice, e: HintEntry, dir: Direction) -> bool {
    &&& d.dir() == dir
    &&& d.record().label() == entry_label(e)
    &&& d.record().descriptor() == Descriptor::Native(e.handle)
}

/// Whether `t` is what enumerating `hints` for `dir` gives.
pub open spec fn traversal_of(t: Traversal, hints: Seq<HintEntry>, dir: Direction) -> bool {
    &&& t.devices@.len() == kept(hints, dir).len()
    &&& forall|j: int|
        0 <= j < t.devices@.len() ==> made_of(
            #[trigger] t.devices@[j],
            hints[kept(hints, dir)[j]],
            dir,
        )
    &&& t.freed@.len() == skipped(hints, dir).len()
    &&& forall|j: int|
        0 <= j < t.freed@.len() ==> #[trigger] t.freed@[j] == hints[skipped(hints, dir)[j]].handle
}

/// Whether `name` is exactly `word`.
fn same_bytes(name: &Vec<u8>, word: &Vec<u8>) -> (r: bool)
    ensures
        r == (name@ == word@),
{
    if name.len() != word.len() {
        return false;
    }
    let mut i: usize = 0;
    while i < name.len()
        invariant
            i <= name@.len(),
            name@.len() == word@.len(),
            forall|k: int| 0 <= k < i ==> name@[k] == word@[k],
        decreases name@.len() - i,
    {
        if name[i] != word[i] {
            return false;
        }
        i = i + 1;
    }
    assert(name@ =~= word@);
    true
}

/// Whether `name` is `null`.
fn is_null_name(name: &Vec<u8>) -> (r: bool)
    ensures
        r == (name@ == null_name()),
{
    let word: Vec<u8> = vec![110, 117, 108, 108];
    assert(word@ =~= null_name());
    same_bytes(name, &word)
}

/// Whether `name` is `default`.
fn is_default_name(name: &Vec<u8>) -> (r: bool)
    ensures
        r == (name@ == default_name()),
{
    let word: Vec<u8> = vec![100, 101, 102, 97, 117, 108, 116];
    assert(word@ =~= default_name());
    same_bytes(name, &word)
}

/// Whether the `DESC` field of an entry named `name` is to be read: it is
/// for every device but the `null` and `default` pseudo-devices.
pub fn needs_description(name: &Vec<u8>) -> (r: bool)
    ensures
        r == shows_description(name@),
{
    !is_null_name(name) && !is_default_name(name)
}

/// The display text of an entry: `Null` and `Default` for the two
/// pseudo-devices, whatever their `DESC` holds, else the description on one
/// line.
pub fn label_of(e: &HintEntry) -> (r: String)
    requires
        shows_description(e.name@) ==> e.desc is Some,
    ensures
        r@ == entry_label(*e),
{
    if is_null_name(&e.name) {
        let r = "Null".to_owned();
        proof {
            reveal_strlit("Null");
        }
        r
    } else if is_default_name(&e.name) {
        let r = "Default".to_owned();
        proof {
            reveal_strlit("Default");
        }
        r
    } else {
        match &e.desc {
            Some(d) => description_text(d.as_slice()),
            None => String::new(),
        }
    }
}

/// Walks `hints` in order for direction `dir`. Each entry that serves `dir`
/// becomes a device that owns the entry's native name; the name of each
/// other entry is listed in `freed`, for the caller to release at once.
pub fn traverse(hints: &Vec<HintEntry>, dir: Direction) -> (r: Traversal)
    requires
        well_formed(hints@),
    ensures
        traversal_of(r, hints@, dir),
{
    let mut devices: Vec<SoundDevice> = Vec::new();
    let mut freed: Vec<usize> = Vec::new();
    let mut i: usize = 0;
    while i < hints.len()
        invariant
            i <= hints@.len(),
            well_formed(hints@),
            traversal_of(Traversal { devices, freed }, hints@.take(i as int), dir),
        decreases hints@.len() - i,
    {
        let e = &hints[i];
        let ghost prefix = hints@.take(i as int);
        let ghost next = hints@.take(i + 1);
        assert(next.drop_last() == prefix);
        assert(forall|k: int| 0 <= k < prefix.len() ==> prefix[k] == next[k]);
        assert(shows_description(hints@[i as int].name@) ==> hints@[i as int].desc is Some);
        proof {
            lemma_positions_below(prefix, dir);
        }
        if serves(e.ioid, dir) {
            let label = label_of(e);
            let device = AudioDevice::new(label, Descriptor::Native(e.handle));
            devices.push(SoundDevice::from_device(dir, device));
        } else {
            freed.push(e.handle);
        }
        i = i + 1;
    }
    assert(hints@.take(hints@.len() as int) == hints@);
    Traversal { devices, freed }
}

/// Every position that `kept` or `skipped` lists lies inside the list.
pub proof fn lemma_positions_below(hints: Seq<HintEntry>, dir: Direction)
    ensures
        forall|j: int| 0 <= j < kept(hints, dir).len() ==> 0 <= #[trigger] kept(hints, dir)[j] < hints.len(),
        forall|j: int| 0 <= j < skipped(hints, dir).len() ==> 0 <= #[trigger] skipped(hints, dir)[j] < hints.len(),
    decreases hints.len(),
{
    if hints.len() > 0 {
        let rest = hints.drop_last();
        lemma_positions_below(rest, dir);
        let k = kept(rest, dir);
        let s = skipped(rest, dir);
        assert(forall|j: int| 0 <= j < k.len() ==> 0 <= #[trigger] k[j] < rest.len());
        assert(forall|j: int| 0 <= j < s.len() ==> 0 <= #[trigger] s[j] < rest.len());
        if grants(hints.last().ioid, dir) {
            assert(forall|j: int| 0 <= j < k.len() ==> k.push(hints.len() - 1)[j] == k[j]);
        } else {
            assert(forall|j: int| 0 <= j < s.len() ==> s.push(hints.len() - 1)[j] == s[j]);
        }
    }
}

/// `item` is what `project` gave for the device made of entry `e`.
pub open spec fn projected<T, F: Fn(SoundDevice) -> T>(
    project: F,
    e: HintEntry,
    dir: Direction,
    item: T,
) -> bool {
    exists|d: SoundDevice| made_of(d, e, dir) && #[trigger] project.ensures((d,), item)
}

/// The projections of the devices found, and the native names that the
/// caller releases at once.
pub struct Listing<T> {
    pub items: Vec<T>,
    pub freed: Vec<usize>,
}

/// Lists the devices of direction `dir` found in `hints`, in list order,
/// each handed to `project`. `hints` is `None` where the sound library is
/// unavailable or its enumeration failed: the listing is then empty.
pub fn list_devices<T, F: Fn(SoundDevice) -> T>(
    hints: &Option<Vec<HintEntry>>,
    dir: Direction,
    project: F,
) -> (r: Listing<T>)
    requires
        forall|d: SoundDevice| #[trigger] project.requires((d,)),
        hints matches Some(h) ==> well_formed(h@),
    ensures
        hints is None ==> r.items@.len() == 0 && r.freed@.len() == 0,
        hints matches Some(h) ==> {
            &&& r.items@.len() == kept(h@, dir).len()
            &&& forall|j: int|
                0 <= j < r.items@.len() ==> projected(
                    project,
                    h@[kept(h@, dir)[j]],
                    dir,
                    #[trigger] r.items@[j],
                )
            &&& r.freed@.len() == skipped(h@, dir).len()
            &&& forall|j: int|
                0 <= j < r.freed@.len() ==> #[trigger] r.freed@[j]
                    == h@[skipped(h@, dir)[j]].handle
        },
{
    match hints {
        None => Listing { items: Vec::new(), freed: Vec::new() },
        Some(h) => {
            let t = traverse(h, dir);
            let ghost all = t.devices@;
            let mut devices = t.devices;
            let mut items: Vec<T> = Vec::new();
            while devices.len() > 0
                invariant
                    items@.len() + devices@.len() == all.len(),
                    devices@ == all.skip(items@.len() as int),
                    forall|d: SoundDevice| #[trigger] project.requires((d,)),
                    forall|j: int|
                        0 <= j < items@.len() ==> #[trigger] project.ensures(
                            (all[j],),
                            items@[j],
                        ),
                decreases devices@.len(),
            {
                let ghost n = items@.len();
                let d = devices.remove(0);
                assert(d == all[n as int]);
                items.push(project(d));
                assert(devices@ =~= all.skip(items@.len() as int));
            }
            let r = Listing { items, freed: t.freed };
            assert forall|j: int| 0 <= j < r.items@.len() implies projected(
                project,
                h@[kept(h@, dir)[j]],
                dir,
                #[trigger] r.items@[j],
            ) by {
                assert(made_of(all[j], h@[kept(h@, dir)[j]], dir));
                assert(project.ensures((all[j],), r.items@[j]));
            }
            assert forall|j: int| 0 <= j < r.freed@.len() implies #[trigger] r.freed@[j]
                == h@[skipped(h@, dir)[j]].handle by {
                assert(t.freed@[j] == h@[skipped(h@, dir)[j]].handle);
            }
            r
        },
    }
}

} // verus!
