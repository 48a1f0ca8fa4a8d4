//! Instance extensions: the ones known here by name, and the ones a loader
//! reported as available.

use crate::vk::names::{copy_bytes, same_bytes};
use vstd::prelude::*;
use vstd::string::StringSliceAdditionalSpecFns;

verus! {

/// Enumeration of all supported extensions, plus UnknownExtension and
/// UnreachableExtension.
#[derive(Clone, Copy, PartialEq, Eq, Debug, Structural)]
pub enum Extension {
    KhrSurface,
    UnknownExtension,
    UnreachableExtension,
}

impl Extension {
    /// The name of the extension, as bytes.
    pub open spec fn spec_name(self) -> Seq<u8> {
        match self {
            Extension::KhrSurface => "VK_KHR_surface".spec_bytes(),
            Extension::UnknownExtension => "__UNKNOWN_EXTENSION".spec_bytes(),
            Extension::UnreachableExtension => "__UNREACHABLE_EXTENSION".spec_bytes(),
        }
    }

    /// The variant that a name stands for: the first one, in the order of
    /// declaration, that has this name, and `UnknownExtension` for a name
    /// that no variant has.
    pub open spec fn identified(name: Seq<u8>) -> Extension {
        if name == Extension::KhrSurface.spec_name() {
            Extension::KhrSurface
        } else if name == Extension::UnknownExtension.spec_name() {
            Extension::UnknownExtension
        } else if name == Extension::UnreachableExtension.spec_name() {
            Extension::UnreachableExtension
        } else {
            Extension::UnknownExtension
        }
    }

    /// Every variant is the one that its own name stands for: no two
    /// variants share a name.
    pub proof fn lemma_identified_inverts_name(self)
        ensures
            Self::identified(self.spec_name()) == self,
    {
        reveal_strlit("VK_KHR_surface");
        reveal_strlit("__UNKNOWN_EXTENSION");
        reveal_strlit("__UNREACHABLE_EXTENSION");
        vstd::string::is_ascii_spec_bytes("VK_KHR_surface");
        vstd::string::is_ascii_spec_bytes("__UNKNOWN_EXTENSION");
        vstd::string::is_ascii_spec_bytes("__UNREACHABLE_EXTENSION");
        assert(Extension::KhrSurface.spec_name().len() == 14);
        assert(Extension::UnknownExtension.spec_name().len() == 19);
        assert(Extension::UnreachableExtension.spec_name().len() == 23);
    }

    /// Get the name of the extension.
    pub fn name(&self) -> (name: &'static [u8])
        ensures
            name@ == self.spec_name(),
    {
        match self {
            Extension::KhrSurface => "VK_KHR_surface".as_bytes(),
            Extension::UnknownExtension => "__UNKNOWN_EXTENSION".as_bytes(),
            Extension::UnreachableExtension => "__UNREACHABLE_EXTENSION".as_bytes(),
        }
    }

    /// Return the first enum variant with name matching the given string.
    /// Returns UnknownExtension if the name doesn't match any variant.
    pub fn identify_name(name: &[u8]) -> (extension: Self)
        ensures
            extension == Self::identified(name@),
    {
        let variants = [
            Extension::KhrSurface,
            Extension::UnknownExtension,
            Extension::UnreachableExtension,
        ];
        let mut at: usize = 0;
        while at < 3
            invariant
                at <= 3,
                variants[0] == Extension::KhrSurface,
                variants[1] == Extension::UnknownExtension,
                variants[2] == Extension::UnreachableExtension,
                forall|j: int| 0 <= j < at ==> (#[trigger] variants[j]).spec_name() != name@,
            decreases 3 - at,
        {
            let candidate = variants[at];
            if same_bytes(candidate.name(), name) {
                return candidate;
            }
            at += 1;
        }
        assert(variants[0].spec_name() != name@);
        assert(variants[1].spec_name() != name@);
        assert(variants[2].spec_name() != name@);
        Extension::UnknownExtension
    }
}

/// What a loader reports of one extension.
pub struct ExtensionProperties {
    /// The extension's name, without a terminating zero.
    pub name: Vec<u8>,
    /// The version of the extension's specification.
    pub spec_version: u32,
}

/// What an `AvailableExtension` holds, as contracts see it.
pub struct ExtensionInfo {
    pub extension: Extension,
    pub name: Seq<u8>,
    pub spec_version: u32,
}

/// The entry that enumeration makes of what a loader reported.
pub open spec fn described(properties: ExtensionProperties) -> ExtensionInfo {
    ExtensionInfo {
        extension: Extension::identified(properties.name@),
        name: properties.name@,
        spec_version: properties.spec_version,
    }
}

/// Stores info about an extension. Guarantees the extension's availability,
/// meaning this struct can only be obtained from enumerating the extensions.
#[derive(Debug)]
pub struct AvailableExtension {
    extension: Extension,
    name: Vec<u8>,
    spec_version: u32,
}

impl View for AvailableExtension {
    type V = ExtensionInfo;

    closed spec fn view(&self) -> ExtensionInfo {
        ExtensionInfo {
            extension: self.extension,
            name: self.name@,
            spec_version: self.spec_version,
        }
    }
}

impl Clone for AvailableExtension {
    fn clone(&self) -> (copy: Self)
        ensures
            copy@ == self@,
    {
        AvailableExtension {
            extension: self.extension,
            name: copy_bytes(self.name.as_slice()),
            spec_version: self.spec_version,
        }
    }
}

impl AvailableExtension {
    /// Returns the extension variant.
    pub fn extension(&self) -> (extension: Extension)
        ensures
            extension == self@.extension,
    {
        self.extension
    }

    /// Extension name.
    pub fn name(&self) -> (name: &[u8])
        ensures
            name@ == self@.name,
    {
        self.name.as_slice()
    }

    /// Extension spec version.
    pub fn spec_version(&self) -> (spec_version: u32)
        ensures
            spec_version == self@.spec_version,
    {
        self.spec_version
    }
}

/// The entries of a list, as contracts see them.
pub open spec fn infos(extensions: Seq<AvailableExtension>) -> Seq<ExtensionInfo> {
    Seq::new(extensions.len(), |i: int| extensions[i]@)
}

/// Makes the list of available instance extensions of what a loader
/// reported: one entry for each report, in the same order, under the variant
/// that its name stands for. Names that stand for no variant are kept, as
/// `UnknownExtension`.
pub fn enumerate(properties: Vec<ExtensionProperties>) -> (extensions: Vec<AvailableExtension>)
    ensures
        extensions.len() == properties.len(),
        forall|i: int|
            0 <= i < properties.len() ==> (#[trigger] extensions[i])@ == described(properties[i]),
{
    let mut extensions: Vec<AvailableExtension> = Vec::with_capacity(properties.len());
    let mut at: usize = 0;
    while at < properties.len()
        invariant
            at <= properties.len(),
            extensions.len() == at,
            forall|i: int| 0 <= i < at ==> (#[trigger] extensions[i])@ == described(properties[i]),
        decreases properties.len() - at,
    {
        let name = copy_bytes(properties[at].name.as_slice());
        let extension = Extension::identify_name(name.as_slice());
        extensions.push(AvailableExtension { extension, name, spec_version: properties[at].spec_version });
        at += 1;
    }
    extensions
}

/// Some entry of the list is of the wanted extension.
pub open spec fn offers(available: Seq<ExtensionInfo>, wanted: Extension) -> bool {
    exists|i: int| 0 <= i < available.len() && (#[trigger] available[i]).extension == wanted
}

/// `index` is the first entry of the list that is of the wanted extension.
pub open spec fn is_first_offer(available: Seq<ExtensionInfo>, wanted: Extension, index: int) -> bool {
    &&& 0 <= index < available.len()
    &&& available[index].extension == wanted
    &&& forall|j: int| 0 <= j < index ==> (#[trigger] available[j]).extension != wanted
}

/// The first entry of `available` that is of the wanted extension, if there
/// is one.
fn find_offer(available: &[AvailableExtension], wanted: Extension) -> (found: Option<usize>)
    ensures
        found is Some <==> offers(infos(available@), wanted),
        found is Some ==> is_first_offer(infos(available@), wanted, found->0 as int),
{
    let mut at: usize = 0;
    while at < available.len()
        invariant
            at <= available.len(),
            forall|j: int| 0 <= j < at ==> (#[trigger] infos(available@)[j]).extension != wanted,
        decreases available.len() - at,
    {
        if available[at].extension == wanted {
            assert(infos(available@)[at as int].extension == wanted);
            return Some(at);
        }
        at += 1;
    }
    None
}

/// List of some of the available extensions. Guarantees availability. Used
/// to safely enable those extensions without additional checks.
#[derive(Debug)]
pub struct AvailableExtensions {
    extensions: Vec<AvailableExtension>,
}

impl View for AvailableExtensions {
    type V = Seq<ExtensionInfo>;

    closed spec fn view(&self) -> Seq<ExtensionInfo> {
        infos(self.extensions@)
    }
}

impl Default for AvailableExtensions {
    fn default() -> (list: Self)
        ensures
            list@ == Seq::<ExtensionInfo>::empty(),
    {
        let list = AvailableExtensions { extensions: Vec::new() };
        assert(list@ =~= Seq::<ExtensionInfo>::empty());
        list
    }
}

impl AvailableExtensions {
    /// Returns Vec of contained extensions' names.
    pub fn names(&self) -> (names: Vec<&[u8]>)
        ensures
            names.len() == self@.len(),
            forall|i: int| 0 <= i < self@.len() ==> (#[trigger] names[i])@ == self@[i].name,
    {
        let mut names: Vec<&[u8]> = Vec::with_capacity(self.extensions.len());
        let mut at: usize = 0;
        while at < self.extensions.len()
            invariant
                at <= self.extensions.len(),
                names.len() == at,
                forall|i: int| 0 <= i < at ==> (#[trigger] names[i])@ == self@[i].name,
            decreases self.extensions.len() - at,
        {
            names.push(self.extensions[at].name());
            at += 1;
        }
        names
    }

    /// Slice of available extensions.
    pub fn extensions(&self) -> (extensions: &[AvailableExtension])
        ensures
            infos(extensions@) == self@,
    {
        self.extensions.as_slice()
    }

    /// Adds an extension to the available extension list.
    pub fn add(&mut self, extension: AvailableExtension)
        ensures
            final(self)@ == old(self)@.push(extension@),
    {
        self.extensions.push(extension);
        assert(self@ =~= old(self)@.push(extension@));
    }

    /// If `available` contains each element from `required`, returns Self
    /// containing, for each required extension in turn, the first available
    /// entry of it; else returns None.
    pub fn from_available_and_required(
        available: &[AvailableExtension],
        required: &[Extension],
    ) -> (selection: Option<Self>)
        ensures
            selection is Some <==> forall|k: int|
                0 <= k < required.len() ==> offers(infos(available@), #[trigger] required[k]),
            selection is Some ==> {
                &&& selection->0@.len() == required.len()
                &&& forall|k: int, i: int|
                    0 <= k < required.len() && is_first_offer(infos(available@), required[k], i)
                        ==> #[trigger] selection->0@[k] == #[trigger] infos(available@)[i]
            },
    {
        let mut selected: Vec<AvailableExtension> = Vec::with_capacity(required.len());
        let mut at: usize = 0;
        while at < required.len()
            invariant
                at <= required.len(),
                selected.len() == at,
                forall|k: int| 0 <= k < at ==> offers(infos(available@), #[trigger] required[k]),
                forall|k: int, i: int|
                    0 <= k < at && is_first_offer(infos(available@), required[k], i)
                        ==> #[trigger] infos(selected@)[k] == #[trigger] infos(available@)[i],
            decreases required.len() - at,
        {
            match find_offer(available, required[at]) {
                Some(found) => {
                    let ghost before = infos(selected@);
                    selected.push(available[found].clone());
                    proof {
                        assert(infos(selected@) =~= before.push(infos(available@)[found as int]));
                        assert forall|k: int, i: int|
                            0 <= k < at + 1 && is_first_offer(
                                infos(available@),
                                required[k],
                                i,
                            ) implies #[trigger] infos(selected@)[k] == #[trigger] infos(
                            available@,
                        )[i] by {
                            if k == at {
                                if i < found {
                                    assert(infos(available@)[i].extension != required[k]);
                                } else if found < i {
                                    assert(infos(available@)[found as int].extension
                                        != required[k]);
                                }
                            } else {
                                assert(infos(selected@)[k] == before[k]);
                            }
                        }
                    }
                },
                None => {
                    return None;
                },
            }
            at += 1;
        }
        Some(AvailableExtensions { extensions: selected })
    }
}

} // verus!
