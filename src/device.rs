use vstd::prelude::*;
use crate::direction::Direction;

verus! {

/// The native identifier of a device, as a record holds it.
#[derive(Clone, Copy, Debug, PartialEq, Eq, Structural)]
pub enum Descriptor {
    /// No string of the record's own: the static `"default"` marker stands in,
    /// and nothing is released.
    Default,
    /// A native string, identified by its address, that the record owns and
    /// releases exactly once.
    Native(usize),
}

/// What dropping a record with descriptor `d` releases.
pub open spec fn released_by(d: Descriptor) -> Seq<usize> {
    match d {
        Descriptor::Default => Seq::empty(),
        Descriptor::Native(h) => seq![h],
    }
}

/// A discovered device: its display text and the descriptor that opens it.
#[derive(Debug)]
pub struct AudioDevice {
    name: String,
    desc: Descriptor,
}

impl AudioDevice {
    /// The display text.
    pub closed spec fn label(&self) -> Seq<char> {
        self.name@
    }

    /// The descriptor held.
    pub closed spec fn descriptor(&self) -> Descriptor {
        self.desc
    }

    /// A record that owns `desc` and shows `name`.
    pub(crate) fn new(name: String, desc: Descriptor) -> (r: AudioDevice)
        ensures
            r.label() == name@,
            r.descriptor() == desc,
    {
        AudioDevice { name, desc }
    }

    /// The display text.
    pub fn name(&self) -> (r: &String)
        ensures
            r@ == self.label(),
    {
        &self.name
    }

    /// The descriptor that opens the device: the record's own, or the
    /// static default marker where it has none.
    pub fn desc(&self) -> (r: Descriptor)
        ensures
            r == self.descriptor(),
    {
        self.desc
    }

    /// The native string to release when the record is dropped: its own
    /// descriptor, never the static default marker.
    pub fn release_on_drop(&self) -> (r: Option<usize>)
        ensures
            r == match self.descriptor() {
                Descriptor::Default => None::<usize>,
                Descriptor::Native(h) => Some(h),
            },
    {
        match self.desc {
            Descriptor::Default => None,
            Descriptor::Native(h) => Some(h),
        }
    }
}

impl Default for AudioDevice {
    fn default() -> (r: AudioDevice)
        ensures
            r.label() == Seq::<char>::empty(),
            r.descriptor() == Descriptor::Default,
    {
        AudioDevice { name: String::new(), desc: Descriptor::Default }
    }
}

/// A device seen from one direction: a capture source or a playback
/// destination. It is made only from a record that enumeration produced.
#[derive(Debug)]
pub struct SoundDevice {
    direction: Direction,
    device: AudioDevice,
}

impl SoundDevice {
    /// The direction this view was made for.
    pub closed spec fn dir(&self) -> Direction {
        self.direction
    }

    /// The record viewed.
    pub closed spec fn record(&self) -> &AudioDevice {
        &self.device
    }

    /// Views `device` as a device of direction `direction`.
    pub(crate) fn from_device(direction: Direction, device: AudioDevice) -> (r: SoundDevice)
        ensures
            r.dir() == direction,
            r.record() == device,
    {
        SoundDevice { direction, device }
    }

    /// True for a capture source, false for a playback destination.
    pub fn is_input(&self) -> (r: bool)
        ensures
            r == (self.dir() == Direction::Input),
    {
        self.direction.is_input()
    }

    /// The direction this view was made for.
    pub fn direction(&self) -> (r: Direction)
        ensures
            r == self.dir(),
    {
        self.direction
    }

    /// The text to show for the device.
    pub fn to_string(&self) -> (r: String)
        ensures
            r@ == self.record().label(),
    {
        self.device.name().clone()
    }

    /// The descriptor that opens the device.
    pub fn desc(&self) -> (r: Descriptor)
        ensures
            r == self.record().descriptor(),
    {
        self.device.desc()
    }

    /// The native string to release when the device is dropped.
    pub fn release_on_drop(&self) -> (r: Option<usize>)
        ensures
            r == match self.record().descriptor() {
                Descriptor::Default => None::<usize>,
                Descriptor::Native(h) => Some(h),
            },
    {
        self.device.release_on_drop()
    }

    /// The record viewed, handed back to its owner.
    pub fn into_device(self) -> (r: AudioDevice)
        ensures
            r == self.record(),
    {
        self.device
    }
}

} // verus!
