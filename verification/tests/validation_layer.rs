use pibaf::vk::validation_layer::{
    enumerate, AvailableValidationLayer, AvailableValidationLayers, LayerProperties,
    ValidationLayer,
};

fn reported() -> Vec<LayerProperties> {
    vec![
        LayerProperties {
            name: b"VK_LAYER_MESA_overlay".to_vec(),
            description: b"Mesa Overlay layer".to_vec(),
            spec_version: 4_194_307,
            implementation_version: 1,
        },
        LayerProperties {
            name: b"VK_LAYER_KHRONOS_validation".to_vec(),
            description: b"Khronos Validation Layer".to_vec(),
            spec_version: 4_206_865,
            implementation_version: 1,
        },
        LayerProperties {
            name: b"VK_LAYER_KHRONOS_validation".to_vec(),
            description: b"Another build".to_vec(),
            spec_version: 4_206_866,
            implementation_version: 2,
        },
    ]
}

#[test]
fn validation_layer_name() {
    let layer = ValidationLayer::KhronosValidation;
    assert_eq!(b"VK_LAYER_KHRONOS_validation".as_slice(), layer.name());
}

#[test]
fn validation_layer_identify() {
    let layer = ValidationLayer::identify_name(b"VK_LAYER_KHRONOS_validation");
    assert_eq!(layer, ValidationLayer::KhronosValidation);
}

#[test]
fn validation_layer_identify_not_found() {
    let layer = ValidationLayer::identify_name(b"garbage");
    assert_eq!(layer, ValidationLayer::UnknownLayer);
}

#[test]
fn validation_layer_has_khronos() {
    let available = enumerate(reported());
    let required = [ValidationLayer::KhronosValidation];

    let res =
        AvailableValidationLayers::from_available_and_required(&available, &required).unwrap();

    assert_eq!(res.layers().len(), 1);
    let layer = &res.layers()[0];
    assert_eq!(layer.layer(), ValidationLayer::KhronosValidation);
    assert_ne!(layer.spec_version(), 0);
    assert_ne!(layer.implementation_version(), 0);
    assert_ne!(layer.description(), b"".as_slice());
}

#[test]
fn validation_layer_manual_add() {
    let available = enumerate(reported());

    let khr = available
        .into_iter()
        .find(|l| l.layer() == ValidationLayer::KhronosValidation)
        .expect("KhronosValidation layer not found");

    let mut res = AvailableValidationLayers::default();
    res.add(khr);

    assert_eq!(res.names(), &[b"VK_LAYER_KHRONOS_validation".as_slice()]);
}

#[test]
fn validation_layer_does_not_have_unreachable() {
    let available = enumerate(reported());
    let required = [ValidationLayer::UnreachableLayer];

    let res = AvailableValidationLayers::from_available_and_required(&available, &required);

    assert!(res.is_none());
}

#[test]
fn validation_layer_names() {
    let available = enumerate(reported());
    let required = [ValidationLayer::KhronosValidation];

    let res =
        AvailableValidationLayers::from_available_and_required(&available, &required).unwrap();

    assert_eq!(&res.names(), &[b"VK_LAYER_KHRONOS_validation".as_slice()]);
}

#[test]
fn validation_layer_names_of_the_other_variants() {
    assert_eq!(
        ValidationLayer::UnknownLayer.name(),
        b"__UNKNOW_LAYER".as_slice()
    );
    assert_eq!(
        ValidationLayer::UnreachableLayer.name(),
        b"__UNREACHABLE_LAYER".as_slice()
    );
}

#[test]
fn validation_layer_identify_reads_every_variant_name() {
    assert_eq!(
        ValidationLayer::identify_name(b"__UNKNOW_LAYER"),
        ValidationLayer::UnknownLayer
    );
    assert_eq!(
        ValidationLayer::identify_name(b"__UNREACHABLE_LAYER"),
        ValidationLayer::UnreachableLayer
    );
    assert_eq!(
        ValidationLayer::identify_name(b""),
        ValidationLayer::UnknownLayer
    );
    assert_eq!(
        ValidationLayer::identify_name(b"VK_LAYER_KHRONOS_validatio"),
        ValidationLayer::UnknownLayer
    );
    for layer in [
        ValidationLayer::KhronosValidation,
        ValidationLayer::UnknownLayer,
        ValidationLayer::UnreachableLayer,
    ] {
        assert_eq!(ValidationLayer::identify_name(layer.name()), layer);
    }
}

#[test]
fn validation_layer_enumerate_keeps_every_report_in_order() {
    let available = enumerate(reported());
    assert_eq!(available.len(), 3);
    assert_eq!(available[0].layer(), ValidationLayer::UnknownLayer);
    assert_eq!(available[0].name(), b"VK_LAYER_MESA_overlay".as_slice());
    assert_eq!(available[0].description(), b"Mesa Overlay layer".as_slice());
    assert_eq!(available[0].spec_version(), 4_194_307);
    assert_eq!(available[0].implementation_version(), 1);
    assert_eq!(available[1].layer(), ValidationLayer::KhronosValidation);
    assert_eq!(available[2].layer(), ValidationLayer::KhronosValidation);
    assert_eq!(available[2].description(), b"Another build".as_slice());
    assert_eq!(available[2].implementation_version(), 2);
    assert!(enumerate(Vec::new()).is_empty());
}

#[test]
fn validation_layer_selection_takes_the_first_entry_of_each_required() {
    let available = enumerate(reported());
    let required = [
        ValidationLayer::KhronosValidation,
        ValidationLayer::UnknownLayer,
    ];
    let res =
        AvailableValidationLayers::from_available_and_required(&available, &required).unwrap();
    assert_eq!(res.layers().len(), 2);
    assert_eq!(res.layers()[0].spec_version(), 4_206_865);
    assert_eq!(
        res.layers()[0].description(),
        b"Khronos Validation Layer".as_slice()
    );
    assert_eq!(res.layers()[1].name(), b"VK_LAYER_MESA_overlay".as_slice());
    assert_eq!(
        res.names(),
        vec![
            b"VK_LAYER_KHRONOS_validation".as_slice(),
            b"VK_LAYER_MESA_overlay".as_slice()
        ]
    );
}

#[test]
fn validation_layer_selection_needs_every_required() {
    let available = enumerate(reported());
    let required = [
        ValidationLayer::KhronosValidation,
        ValidationLayer::UnreachableLayer,
    ];
    assert!(
        AvailableValidationLayers::from_available_and_required(&available, &required).is_none()
    );
    let nothing: Vec<AvailableValidationLayer> = Vec::new();
    let empty = AvailableValidationLayers::from_available_and_required(&nothing, &[]).unwrap();
    assert!(empty.layers().is_empty());
}

#[test]
fn validation_layer_clone_keeps_the_entry() {
    let available = enumerate(reported());
    let copy = available[1].clone();
    assert_eq!(copy.layer(), ValidationLayer::KhronosValidation);
    assert_eq!(copy.name(), b"VK_LAYER_KHRONOS_validation".as_slice());
    assert_eq!(copy.description(), b"Khronos Validation Layer".as_slice());
    assert_eq!(copy.spec_version(), 4_206_865);
    assert_eq!(copy.implementation_version(), 1);
}
