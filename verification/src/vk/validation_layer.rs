//! Validation layers: the ones known here by name, and the ones a loader
//! reported as available.

use crate::vk::names::{copy_bytes, same_bytes};
use vstd::prelude::*;
use vstd::string::StringSliceAdditionalSpecFns;

verus! {

/// Enumeration of all supported validation layers, plus UnknownLayer and
/// UnreachableLayer.
#[derive(Clone, Copy, PartialEq, Eq, Debug, Structural)]
pub enum ValidationLayer {
    KhronosValidation,
    UnknownLayer,
    UnreachableLayer,
}

impl ValidationLayer {
    /// The name of the layer, as bytes.
    pub open spec fn spec_name(self) -> Seq<u8> {
        match self {
            ValidationLayer::KhronosValidation => "VK_LAYER_KHRONOS_validation".spec_bytes(),
            ValidationLayer::UnknownLayer => "__UNKNOW_LAYER".spec_bytes(),
            ValidationLayer::UnreachableLayer => "__UNREACHABLE_LAYER".spec_bytes(),
        }
    }

    /// The variant that a name stands for: the first one, in the order of
    /// declaration, that has this name, and `UnknownLayer` for a name
    /// that no variant has.
    pub open spec fn identified(name: Seq<u8>) -> ValidationLayer {
        if name == ValidationLayer::KhronosValidation.spec_name() {
            ValidationLayer::KhronosValidation
        } else if name == ValidationLayer::UnknownLayer.spec_name() {
            ValidationLayer::UnknownLayer
        } else if name == ValidationLayer::UnreachableLayer.spec_name() {
            ValidationLayer::UnreachableLayer
        } else {
            ValidationLayer::UnknownLayer
        }
    }

    /// Every variant is the one that its own name stands for: no two
    /// variants share a name.
    pub proof fn lemma_identified_inverts_name(self)
        ensures
            Self::identified(self.spec_name()) == self,
    {
        reveal_strlit("VK_LAYER_KHRONOS_validation");
        reveal_strlit("__UNKNOW_LAYER");
        reveal_strlit("__UNREACHABLE_LAYER");
        vstd::string::is_ascii_spec_bytes("VK_LAYER_KHRONOS_validation");
        vstd::string::is_ascii_spec_bytes("__UNKNOW_LAYER");
        vstd::string::is_ascii_spec_bytes("__UNREACHABLE_LAYER");
        assert(ValidationLayer::KhronosValidation.spec_name().len() == 27);
        assert(ValidationLayer::UnknownLayer.spec_name().len() == 14);
        assert(ValidationLayer::UnreachableLayer.spec_name().len() == 19);
    }

    /// Get the name of the layer.
    pub fn name(&self) -> (name: &'static [u8])
        ensures
            name@ == self.spec_name(),
    {
        match self {
            ValidationLayer::KhronosValidation => "VK_LAYER_KHRONOS_validation".as_bytes(),
            ValidationLayer::UnknownLayer => "__UNKNOW_LAYER".as_bytes(),
            ValidationLayer::UnreachableLayer => "__UNREACHABLE_LAYER".as_bytes(),
        }
    }

    /// Return the first enum variant with name matching the given string.
    /// Returns UnknownLayer if the name doesn't match any variant.
    pub fn identify_name(name: &[u8]) -> (layer: Self)
        ensures
            layer == Self::identified(name@),
    {
        let variants = [
            ValidationLayer::KhronosValidation,
            ValidationLayer::UnknownLayer,
            ValidationLayer::UnreachableLayer,
        ];
        let mut at: usize = 0;
        while at < 3
            invariant
                at <= 3,
                variants[0] == ValidationLayer::KhronosValidation,
                variants[1] == ValidationLayer::UnknownLayer,
                variants[2] == ValidationLayer::UnreachableLayer,
                forall|j: int| 0 <= j < at ==> (#[trigger] variants[j]).spec_name() != name@,
            decreases 3 - at,
        {
            let candidate = variants[at];
            if same_bytes(candidate.name(), name) {
                return candidate;
            }
            at += 1;
        }
        assert(variants[0].spec_name() != name@);
        assert(variants[1].spec_name() != name@);
        assert(variants[2].spec_name() != name@);
        ValidationLayer::UnknownLayer
    }
}

/// What a loader reports of one layer.
pub struct LayerProperties {
    /// The layer's name, without a terminating zero.
    pub name: Vec<u8>,
    /// The layer's description, without a terminating zero.
    pub description: Vec<u8>,
    /// The version of the specification that the layer was written to.
    pub spec_version: u32,
    /// The version of the layer itself.
    pub implementation_version: u32,
}

/// What an `AvailableValidationLayer` holds, as contracts see it.
pub struct LayerInfo {
    pub layer: ValidationLayer,
    pub spec_version: u32,
    pub implementation_version: u32,
    pub name: Seq<u8>,
    pub description: Seq<u8>,
}

/// The entry that enumeration makes of what a loader reported.
pub open spec fn described(properties: LayerProperties) -> LayerInfo {
    LayerInfo {
        layer: ValidationLayer::identified(properties.name@),
        spec_version: properties.spec_version,
        implementation_version: properties.implementation_version,
        name: properties.name@,
        description: properties.description@,
    }
}

/// Stores info about a layer. Guarantees the layer's availability,
/// meaning this struct can only be obtained from enumerating the layers.
#[derive(Debug)]
pub struct AvailableValidationLayer {
    layer: ValidationLayer,
    spec_version: u32,
    implementation_version: u32,
    name: Vec<u8>,
    description: Vec<u8>,
}

impl View for AvailableValidationLayer {
    type V = LayerInfo;

    closed spec fn view(&self) -> LayerInfo {
        LayerInfo {
            layer: self.layer,
            spec_version: self.spec_version,
            implementation_version: self.implementation_version,
            name: self.name@,
            description: self.description@,
        }
    }
}

impl Clone for AvailableValidationLayer {
    fn clone(&self) -> (copy: Self)
        ensures
            copy@ == self@,
    {
        AvailableValidationLayer {
            layer: self.layer,
            spec_version: self.spec_version,
            implementation_version: self.implementation_version,
            name: copy_bytes(self.name.as_slice()),
            description: copy_bytes(self.description.as_slice()),
        }
    }
}

impl AvailableValidationLayer {
    /// Returns the layer variant.
    pub fn layer(&self) -> (layer: ValidationLayer)
        ensures
            layer == self@.layer,
    {
        self.layer
    }

    /// Layer's name.
    pub fn name(&self) -> (name: &[u8])
        ensures
            name@ == self@.name,
    {
        self.name.as_slice()
    }

    /// Layer's description.
    pub fn description(&self) -> (description: &[u8])
        ensures
            description@ == self@.description,
    {
        self.description.as_slice()
    }

    /// Layer's spec version.
    pub fn spec_version(&self) -> (spec_version: u32)
        ensures
            spec_version == self@.spec_version,
    {
        self.spec_version
    }

    /// Layer's implementation version.
    pub fn implementation_version(&self) -> (implementation_version: u32)
        ensures
            implementation_version == self@.implementation_version,
    {
        self.implementation_version
    }
}

/// The entries of a list, as contracts see them.
pub open spec fn infos(layers: Seq<AvailableValidationLayer>) -> Seq<LayerInfo> {
    Seq::new(layers.len(), |i: int| layers[i]@)
}

/// Makes the list of available validation layers of what a loader
/// reported: one entry for each report, in the same order, under the variant
/// that its name stands for. Names that stand for no variant are kept, as
/// `UnknownLayer`.
pub fn enumerate(properties: Vec<LayerProperties>) -> (layers: Vec<AvailableValidationLayer>)
    ensures
        layers.len() == properties.len(),
        forall|i: int|
            0 <= i < properties.len() ==> (#[trigger] layers[i])@ == described(properties[i]),
{
    let mut layers: Vec<AvailableValidationLayer> = Vec::with_capacity(properties.len());
    let mut at: usize = 0;
    while at < properties.len()
        invariant
            at <= properties.len(),
            layers.len() == at,
            forall|i: int| 0 <= i < at ==> (#[trigger] layers[i])@ == described(properties[i]),
        decreases properties.len() - at,
    {
        let name = copy_bytes(properties[at].name.as_slice());
        let description = copy_bytes(properties[at].description.as_slice());
        let layer = ValidationLayer::identify_name(name.as_slice());
        layers.push(
            AvailableValidationLayer {
                layer,
                spec_version: properties[at].spec_version,
                implementation_version: properties[at].implementation_version,
                name,
                description,
            },
        );
        at += 1;
    }
    layers
}

/// Some entry of the list is of the wanted layer.
pub open spec fn offers(available: Seq<LayerInfo>, wanted: ValidationLayer) -> bool {
    exists|i: int| 0 <= i < available.len() && (#[trigger] available[i]).layer == wanted
}

/// `index` is the first entry of the list that is of the wanted layer.
pub open spec fn is_first_offer(available: Seq<LayerInfo>, wanted: ValidationLayer, index: int) -> bool {
    &&& 0 <= index < available.len()
    &&& available[index].layer == wanted
    &&& forall|j: int| 0 <= j < index ==> (#[trigger] available[j]).layer != wanted
}

/// The first entry of `available` that is of the wanted layer, if there
/// is one.
fn find_offer(available: &[AvailableValidationLayer], wanted: ValidationLayer) -> (found: Option<usize>)
    ensures
        found is Some <==> offers(infos(available@), wanted),
        found is Some ==> is_first_offer(infos(available@), wanted, found->0 as int),
{
    let mut at: usize = 0;
    while at < available.len()
        invariant
            at <= available.len(),
            forall|j: int| 0 <= j < at ==> (#[trigger] infos(available@)[j]).layer != wanted,
        decreases available.len() - at,
    {
        if available[at].layer == wanted {
            assert(infos(available@)[at as int].layer == wanted);
            return Some(at);
        }
        at += 1;
    }
    None
}

/// List of some of the available layers. Guarantees availability. Used
/// to safely enable those layers without additional checks.
#[derive(Debug)]
pub struct AvailableValidationLayers {
    layers: Vec<AvailableValidationLayer>,
}

impl View for AvailableValidationLayers {
    type V = Seq<LayerInfo>;

    closed spec fn view(&self) -> Seq<LayerInfo> {
        infos(self.layers@)
    }
}

impl Default for AvailableValidationLayers {
    fn default() -> (list: Self)
        ensures
            list@ == Seq::<LayerInfo>::empty(),
    {
        let list = AvailableValidationLayers { layers: Vec::new() };
        assert(list@ =~= Seq::<LayerInfo>::empty());
        list
    }
}

impl AvailableValidationLayers {
    /// Returns Vec of contained layers' names.
    pub fn names(&self) -> (names: Vec<&[u8]>)
        ensures
            names.len() == self@.len(),
            forall|i: int| 0 <= i < self@.len() ==> (#[trigger] names[i])@ == self@[i].name,
    {
        let mut names: Vec<&[u8]> = Vec::with_capacity(self.layers.len());
        let mut at: usize = 0;
        while at < self.layers.len()
            invariant
                at <= self.layers.len(),
                names.len() == at,
                forall|i: int| 0 <= i < at ==> (#[trigger] names[i])@ == self@[i].name,
            decreases self.layers.len() - at,
        {
            names.push(self.layers[at].name());
            at += 1;
        }
        names
    }

    /// Slice of available layers.
    pub fn layers(&self) -> (layers: &[AvailableValidationLayer])
        ensures
            infos(layers@) == self@,
    {
        self.layers.as_slice()
    }

    /// Adds a layer to the available layer list.
    pub fn add(&mut self, layer: AvailableValidationLayer)
        ensures
            final(self)@ == old(self)@.push(layer@),
    {
        self.layers.push(layer);
        assert(self@ =~= old(self)@.push(layer@));
    }

    /// If `available` contains each element from `required`, returns Self
    /// containing, for each required layer in turn, the first available
    /// entry of it; else returns None.
    pub fn from_available_and_required(
        available: &[AvailableValidationLayer],
        required: &[ValidationLayer],
    ) -> (selection: Option<Self>)
        ensures
            selection is Some <==> forall|k: int|
                0 <= k < required.len() ==> offers(infos(available@), #[trigger] required[k]),
            selection is Some ==> {
                &&& selection->0@.len() == required.len()
                &&& forall|k: int, i: int|
                    0 <= k < required.len() && is_first_offer(infos(available@), required[k], i)
                        ==> #[trigger] selection->0@[k] == #[trigger] infos(available@)[i]
            },
    {
        let mut selected: Vec<AvailableValidationLayer> = Vec::with_capacity(required.len());
        let mut at: usize = 0;
        while at < required.len()
            invariant
                at <= required.len(),
                selected.len() == at,
                forall|k: int| 0 <= k < at ==> offers(infos(available@), #[trigger] required[k]),
                forall|k: int, i: int|
                    0 <= k < at && is_first_offer(infos(available@), required[k], i)
                        ==> #[trigger] infos(selected@)[k] == #[trigger] infos(available@)[i],
            decreases required.len() - at,
        {
            match find_offer(available, required[at]) {
                Some(found) => {
                    let ghost before = infos(selected@);
                    selected.push(available[found].clone());
                    proof {
                        assert(infos(selected@) =~= before.push(infos(available@)[found as int]));
                        assert forall|k: int, i: int|
                            0 <= k < at + 1 && is_first_offer(
                                infos(available@),
                                required[k],
                                i,
                            ) implies #[trigger] infos(selected@)[k] == #[trigger] infos(
                            available@,
                        )[i] by {
                            if k == at {
                                if i < found {
                                    assert(infos(available@)[i].layer != required[k]);
                                } else if found < i {
                                    assert(infos(available@)[found as int].layer
                                        != required[k]);
                                }
                            } else {
                                assert(infos(selected@)[k] == before[k]);
                            }
                        }
                    }
                },
                None => {
                    return None;
                },
            }
            at += 1;
        }
        Some(AvailableValidationLayers { layers: selected })
    }
}

} // verus!
