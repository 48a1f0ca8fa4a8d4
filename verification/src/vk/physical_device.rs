//! Physical devices and their queue families, as a loader reported them.

use crate::arc_array::{is_live, released, Slot, UnsafeArcArray};
use crate::vk::flags::contains_graphics;
use crate::vk::instance::Instance;
use vstd::prelude::*;

verus! {

/// What a loader reports of one queue family.
pub struct QueueFamilyProperties {
    /// The flag word of the family's capabilities.
    pub queue_flags: u32,
    /// The number of queues in the family.
    pub queue_count: u32,
}

/// What an `AvailableQueue` holds, as contracts see it.
pub struct QueueInfo {
    /// The raw handle of the device that the family belongs to.
    pub device: u64,
    /// The index of the family on its device.
    pub idx: usize,
    /// The flag word of the family's capabilities.
    pub flags: u32,
}

/// The graphics flag of a queue flag word is its lowest bit.
pub open spec fn graphics_flag_set(flags: u32) -> bool {
    flags & 0x1 == 0x1
}

/// Properties of an available queue family. Guarantees that the queue
/// family is available on the stored device.
#[derive(Debug)]
pub struct AvailableQueue {
    device: u64,
    idx: usize,
    flags: u32,
}

impl View for AvailableQueue {
    type V = QueueInfo;

    closed spec fn view(&self) -> QueueInfo {
        QueueInfo { device: self.device, idx: self.idx, flags: self.flags }
    }
}

impl AvailableQueue {
    /// Checks if the queue has the graphics bit.
    pub fn has_graphics(&self) -> (has: bool)
        ensures
            has == graphics_flag_set(self@.flags),
    {
        contains_graphics(self.flags)
    }

    /// Checks if the queue belongs to the given physical device.
    pub fn belongs_to_device(&self, device: &PhysicalDevice) -> (belongs: bool)
        ensures
            belongs == (device@.device == self@.device),
    {
        device.device == self.device
    }

    /// Get the index of the queue family.
    pub fn get_family_idx(&self) -> (idx: usize)
        ensures
            idx == self@.idx,
    {
        self.idx
    }
}

/// What a `PhysicalDevice` holds, as contracts see it.
pub struct DeviceInfo {
    /// The slot that the device's instance handle refers to.
    pub instance_slot: int,
    /// The raw handle of the device.
    pub device: u64,
}

/// A handle to a physical device. Can only be acquired from enumerating
/// physical devices, guaranteeing that the device is available. It keeps
/// its instance alive through a handle of its own.
#[derive(Debug)]
pub struct PhysicalDevice {
    instance: Instance,
    device: u64,
}

impl View for PhysicalDevice {
    type V = DeviceInfo;

    closed spec fn view(&self) -> DeviceInfo {
        DeviceInfo { instance_slot: self.instance.slot(), device: self.device }
    }
}

impl PhysicalDevice {
    /// Get the raw handle of the device.
    pub fn raw_device(&self) -> (device: u64)
        ensures
            device == self@.device,
    {
        self.device
    }

    /// The handle to the instance that the device was enumerated from.
    pub fn instance(&self) -> (instance: &Instance)
        ensures
            instance.slot() == self@.instance_slot,
    {
        &self.instance
    }

    /// Get a vec of available queue families: one entry for each family
    /// that was reported for this device, under its index in the report.
    pub fn get_available_queues(&self, families: &[QueueFamilyProperties]) -> (queues: Vec<AvailableQueue>)
        ensures
            queues.len() == families.len(),
            forall|i: int|
                0 <= i < families.len() ==> (#[trigger] queues[i])@ == (QueueInfo {
                    device: self@.device,
                    idx: i as usize,
                    flags: families[i].queue_flags,
                }),
    {
        let mut queues: Vec<AvailableQueue> = Vec::with_capacity(families.len());
        let mut idx: usize = 0;
        while idx < families.len()
            invariant
                idx <= families.len(),
                queues.len() == idx,
                forall|i: int|
                    0 <= i < idx ==> (#[trigger] queues[i])@ == (QueueInfo {
                        device: self@.device,
                        idx: i as usize,
                        flags: families[i].queue_flags,
                    }),
            decreases families.len() - idx,
        {
            queues.push(AvailableQueue { device: self.device, idx, flags: families[idx].queue_flags });
            idx += 1;
        }
        queues
    }

    /// Gives the device up, and with it its handle to the instance.
    pub fn dispose<const N: usize, T>(self, registry: &mut UnsafeArcArray<N, T>)
        requires
            old(registry).wf(),
            is_live(old(registry)@, self@.instance_slot),
        ensures
            final(registry).wf(),
            final(registry)@ == released(old(registry)@, self@.instance_slot),
    {
        self.instance.dispose(registry);
    }
}

/// The table after `more` further handles to slot `index` were made.
pub open spec fn retained_by<T>(slots: Seq<Slot<T>>, index: int, more: nat) -> Seq<Slot<T>> {
    slots.update(index, Slot { count: slots[index].count + more, value: slots[index].value })
}

/// Makes the list of available physical devices of the raw handles that an
/// instance reported: one entry for each handle, in the same order. Each
/// entry holds a handle of its own to the instance, so the count of the
/// instance's slot grows by the number of devices.
pub fn enumerate<const N: usize, T>(
    registry: &mut UnsafeArcArray<N, T>,
    instance: &Instance,
    devices: Vec<u64>,
) -> (found: Vec<PhysicalDevice>)
    requires
        instance.valid_in(old(registry)),
        old(registry)@[instance.slot()].count + devices.len() <= u64::MAX,
    ensures
        final(registry).wf(),
        final(registry)@ == retained_by(old(registry)@, instance.slot(), devices.len() as nat),
        found.len() == devices.len(),
        forall|i: int|
            0 <= i < devices.len() ==> (#[trigger] found[i])@ == (DeviceInfo {
                instance_slot: instance.slot(),
                device: devices[i],
            }),
{
    let mut found: Vec<PhysicalDevice> = Vec::with_capacity(devices.len());
    let mut at: usize = 0;
    assert(registry@ =~= retained_by(old(registry)@, instance.slot(), 0));
    while at < devices.len()
        invariant
            at <= devices.len(),
            found.len() == at,
            instance.valid_in(old(registry)),
            old(registry)@[instance.slot()].count + devices.len() <= u64::MAX,
            instance.valid_in(registry),
            registry@ == retained_by(old(registry)@, instance.slot(), at as nat),
            forall|i: int|
                0 <= i < at ==> (#[trigger] found[i])@ == (DeviceInfo {
                    instance_slot: instance.slot(),
                    device: devices[i],
                }),
        decreases devices.len() - at,
    {
        let handle = instance.duplicate(registry);
        found.push(PhysicalDevice { instance: handle, device: devices[at] });
        assert(registry@ =~= retained_by(old(registry)@, instance.slot(), (at + 1) as nat));
        at += 1;
    }
    found
}

} // verus!
