use pibaf::arc_array::UnsafeArcArray;
use pibaf::vk::instance::Instance;
use pibaf::vk::physical_device::{enumerate, QueueFamilyProperties};
use std::cell::Cell;
use std::rc::Rc;

struct Raw {
    destroyed: Rc<Cell<u32>>,
}

impl Drop for Raw {
    fn drop(&mut self) {
        self.destroyed.set(self.destroyed.get() + 1);
    }
}

fn families() -> Vec<QueueFamilyProperties> {
    vec![
        QueueFamilyProperties {
            queue_flags: 0b1100,
            queue_count: 2,
        },
        QueueFamilyProperties {
            queue_flags: 0b0111,
            queue_count: 16,
        },
        QueueFamilyProperties {
            queue_flags: 0b0010,
            queue_count: 8,
        },
        QueueFamilyProperties {
            queue_flags: 0b0001,
            queue_count: 1,
        },
    ]
}

#[test]
fn device_is_found() {
    let mut registry = UnsafeArcArray::<1, u8>::new();
    let instance = Instance::from_raw(&mut registry, 0);

    let devices = enumerate(&mut registry, &instance, vec![0x5000, 0x6000]);

    assert!(!devices.is_empty());
    assert_eq!(devices.len(), 2);
    assert_eq!(devices[0].raw_device(), 0x5000);
    assert_eq!(devices[1].raw_device(), 0x6000);
}

#[test]
fn debug_fmt() {
    let mut registry = UnsafeArcArray::<1, u8>::new();
    let instance = Instance::from_raw(&mut registry, 0);

    let devices = enumerate(&mut registry, &instance, vec![0x5000]);

    assert!(!devices.is_empty());

    assert!(format!("{:?}", devices[0]).contains("PhysicalDevice"));
}

#[test]
fn has_graphics_queue() {
    let mut registry = UnsafeArcArray::<1, u8>::new();
    let instance = Instance::from_raw(&mut registry, 0);

    let devices = enumerate(&mut registry, &instance, vec![0x5000, 0x6000]);

    assert!(!devices.is_empty());

    let graphic_families = devices[0]
        .get_available_queues(&families())
        .into_iter()
        .enumerate()
        .filter(|(_idx, qf)| qf.has_graphics())
        .collect::<Vec<_>>();

    assert!(graphic_families.len() > 0);
    assert!(graphic_families[0].1.has_graphics());
    assert!(graphic_families[0].1.belongs_to_device(&devices[0]));
    assert_eq!(
        graphic_families[0].1.get_family_idx(),
        graphic_families[0].0
    );
}

#[test]
fn graphics_is_the_lowest_queue_flag() {
    let mut registry = UnsafeArcArray::<1, u8>::new();
    let instance = Instance::from_raw(&mut registry, 0);
    let devices = enumerate(&mut registry, &instance, vec![7]);
    let queues = devices[0].get_available_queues(&families());
    let graphics: Vec<bool> = queues.iter().map(|q| q.has_graphics()).collect();
    assert_eq!(graphics, vec![false, true, false, true]);
    let indices: Vec<usize> = queues.iter().map(|q| q.get_family_idx()).collect();
    assert_eq!(indices, vec![0, 1, 2, 3]);
}

#[test]
fn queue_belongs_to_the_device_it_was_listed_for() {
    let mut registry = UnsafeArcArray::<1, u8>::new();
    let instance = Instance::from_raw(&mut registry, 0);
    let devices = enumerate(&mut registry, &instance, vec![0x5000, 0x6000]);
    let queues = devices[1].get_available_queues(&families());
    assert_eq!(queues.len(), 4);
    assert!(queues[0].belongs_to_device(&devices[1]));
    assert!(!queues[0].belongs_to_device(&devices[0]));
    assert!(devices[0].get_available_queues(&[]).is_empty());
}

#[test]
fn each_device_holds_a_handle_to_the_instance() {
    let destroyed = Rc::new(Cell::new(0));
    let mut registry = UnsafeArcArray::<1, Raw>::new();
    let instance = Instance::from_raw(
        &mut registry,
        Raw {
            destroyed: destroyed.clone(),
        },
    );
    let devices = enumerate(&mut registry, &instance, vec![1, 2, 3]);
    assert_eq!(devices.len(), 3);
    assert_eq!(registry.ref_count(instance.id()), 4);
    assert_eq!(devices[2].instance().id(), instance.id());
    instance.dispose(&mut registry);
    assert_eq!(destroyed.get(), 0);
    let mut left = devices.len();
    for device in devices {
        assert_eq!(device.instance().deref(&registry).destroyed.get(), 0);
        device.dispose(&mut registry);
        left -= 1;
        assert_eq!(destroyed.get(), if left == 0 { 1 } else { 0 });
    }
}

#[test]
fn no_device_takes_no_handle() {
    let destroyed = Rc::new(Cell::new(0));
    let mut registry = UnsafeArcArray::<1, Raw>::new();
    let instance = Instance::from_raw(
        &mut registry,
        Raw {
            destroyed: destroyed.clone(),
        },
    );
    let devices = enumerate(&mut registry, &instance, Vec::new());
    assert!(devices.is_empty());
    instance.dispose(&mut registry);
    assert_eq!(destroyed.get(), 1);
}
