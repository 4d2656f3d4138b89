use rhyolite::select::{
    find_queue_families, find_queue_family, pick_queue_families, select_physical_device,
    DeviceCandidate, DeviceKind, QueueFamilies, QUEUE_COMPUTE, QUEUE_GRAPHICS, QUEUE_TRANSFER,
};

#[test]
fn queue_family_first_match() {
    let families = vec![
        QUEUE_TRANSFER,
        QUEUE_GRAPHICS | QUEUE_COMPUTE | QUEUE_TRANSFER,
        QUEUE_GRAPHICS | QUEUE_TRANSFER,
    ];
    assert_eq!(find_queue_family(QUEUE_GRAPHICS, &families), Some(1));
    assert_eq!(find_queue_family(QUEUE_TRANSFER, &families), Some(0));
    assert_eq!(find_queue_family(QUEUE_GRAPHICS | QUEUE_COMPUTE, &families), Some(1));
    assert_eq!(find_queue_family(0x8, &families), None);
}

#[test]
fn queue_families_sorted_without_repetition() {
    let families = vec![QUEUE_TRANSFER, QUEUE_GRAPHICS | QUEUE_TRANSFER];
    // Graphics lands on family 1, transfer on family 0: sorted ascending.
    let qs = find_queue_families(&vec![QUEUE_GRAPHICS, QUEUE_TRANSFER], &families).unwrap();
    assert_eq!(qs, vec![0, 1]);
    // Both requirements land on the same family: listed once.
    let both = QUEUE_GRAPHICS | QUEUE_TRANSFER;
    let qs = find_queue_families(&vec![QUEUE_GRAPHICS, QUEUE_TRANSFER], &vec![both]).unwrap();
    assert_eq!(qs, vec![0]);
    // A requirement no family serves fails the whole selection.
    assert!(find_queue_families(&vec![QUEUE_GRAPHICS, QUEUE_COMPUTE], &families).is_none());
}

fn candidate(kind: DeviceKind, flags: Vec<u32>) -> DeviceCandidate {
    DeviceCandidate { supports_extensions: true, kind, queue_flags: flags }
}

#[test]
fn device_selection_prefers_discrete() {
    let required = vec![QUEUE_GRAPHICS, QUEUE_TRANSFER];
    let all = QUEUE_GRAPHICS | QUEUE_TRANSFER;
    let devices = vec![
        candidate(DeviceKind::Cpu, vec![all]),
        candidate(DeviceKind::IntegratedGpu, vec![all]),
        candidate(DeviceKind::DiscreteGpu, vec![all]),
    ];
    let (idx, qs) = select_physical_device(&required, &devices).unwrap();
    assert_eq!(idx, 2);
    assert_eq!(qs, vec![0]);
}

#[test]
fn device_selection_takes_first_of_equal_rank() {
    let required = vec![QUEUE_GRAPHICS];
    let devices = vec![
        candidate(DeviceKind::IntegratedGpu, vec![QUEUE_GRAPHICS]),
        candidate(DeviceKind::IntegratedGpu, vec![QUEUE_GRAPHICS]),
    ];
    let (idx, _) = select_physical_device(&required, &devices).unwrap();
    assert_eq!(idx, 0);
}

#[test]
fn device_selection_skips_unusable_devices() {
    let required = vec![QUEUE_GRAPHICS];
    let mut no_ext = candidate(DeviceKind::DiscreteGpu, vec![QUEUE_GRAPHICS]);
    no_ext.supports_extensions = false;
    let devices = vec![
        no_ext,
        candidate(DeviceKind::DiscreteGpu, vec![QUEUE_TRANSFER]),
        candidate(DeviceKind::VirtualGpu, vec![QUEUE_GRAPHICS]),
    ];
    let (idx, _) = select_physical_device(&required, &devices).unwrap();
    assert_eq!(idx, 2);

    let none = vec![
        candidate(DeviceKind::DiscreteGpu, vec![QUEUE_TRANSFER]),
    ];
    assert!(select_physical_device(&required, &none).is_none());
}

#[test]
fn device_kind_ranking() {
    assert_eq!(DeviceKind::DiscreteGpu.rank(), 0);
    assert_eq!(DeviceKind::IntegratedGpu.rank(), 1);
    assert_eq!(DeviceKind::VirtualGpu.rank(), 2);
    assert_eq!(DeviceKind::Cpu.rank(), 3);
    assert_eq!(DeviceKind::Other.rank(), 4);
    assert_eq!(DeviceKind::Unknown.rank(), 5);
}

#[test]
fn queue_families_struct_carries_indices() {
    let qf = QueueFamilies { graphics: 1, transfer: 0 };
    assert_eq!(qf.graphics, 1);
    assert_eq!(qf.transfer, 0);
}

#[test]
fn queue_picking_walks_created_queues() {
    // Families: 0 transfer-only, 1 graphics+transfer. Queues were created
    // for family 1 then family 0.
    let family_flags = vec![QUEUE_TRANSFER, QUEUE_GRAPHICS | QUEUE_TRANSFER];
    let queue_families = vec![1, 0];
    let qf = pick_queue_families(&queue_families, &family_flags).unwrap();
    assert_eq!(qf, QueueFamilies { graphics: 1, transfer: 1 });
    // With no graphics-capable queue the pick fails.
    let only_transfer = vec![0, 0];
    assert!(pick_queue_families(&only_transfer, &family_flags[..1].to_vec()).is_none());
}
