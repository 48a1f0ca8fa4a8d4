//! Handles to registered instances, and the description an instance is
//! created from.

use crate::arc_array::{claimed, has_free, is_first_free, is_live, released, retained, UnsafeArcArray};
use crate::vk::extension::{AvailableExtensions, ExtensionInfo};
use crate::vk::flags::{no_instance_flags, with_enumerate_portability};
use crate::vk::names::{copy_bytes, find_nul, has_nul, nul_position};
use crate::vk::validation_layer::{AvailableValidationLayers, LayerInfo};
use vstd::prelude::*;

verus! {

/// A handle to a registered instance. It stands for one reference to the
/// slot of the registry that stores the instance.
#[derive(Debug)]
pub struct Instance {
    id: usize,
}

impl Instance {
    /// The slot that the handle refers to.
    pub closed spec fn slot(&self) -> int {
        self.id as int
    }

    /// The index of the slot that the handle refers to.
    pub fn id(&self) -> (id: usize)
        ensures
            id == self.slot(),
    {
        self.id
    }

    /// The handle refers to a live slot of a well-formed registry.
    pub open spec fn valid_in<const N: usize, T>(&self, registry: &UnsafeArcArray<N, T>) -> bool {
        registry.wf() && is_live(registry@, self.slot())
    }

    /// Registers `raw_instance` in the first free slot and returns the first
    /// handle to it. A full registry is left as it is: there is no handle
    /// then, and `raw_instance` is dropped.
    pub fn try_from_raw<const N: usize, T>(
        registry: &mut UnsafeArcArray<N, T>,
        raw_instance: T,
    ) -> (handle: Option<Self>)
        requires
            old(registry).wf(),
        ensures
            final(registry).wf(),
            handle is Some <==> has_free(old(registry)@),
            handle is None ==> final(registry)@ == old(registry)@,
            handle is Some ==> {
                &&& is_first_free(old(registry)@, handle->0.slot())
                &&& final(registry)@ == claimed(old(registry)@, handle->0.slot(), raw_instance)
                &&& handle->0.valid_in(final(registry))
            },
    {
        let ghost stored = raw_instance;
        let init = move || -> (made: T)
            ensures
                made == stored,
            { raw_instance };
        match registry.acquire_and_init(init) {
            Some(id) => Some(Instance { id }),
            None => None,
        }
    }

    /// Registers `raw_instance` in the first free slot of a registry that
    /// has one, and returns the first handle to it.
    pub fn from_raw<const N: usize, T>(registry: &mut UnsafeArcArray<N, T>, raw_instance: T) -> (handle: Self)
        requires
            old(registry).wf(),
            has_free(old(registry)@),
        ensures
            final(registry).wf(),
            is_first_free(old(registry)@, handle.slot()),
            final(registry)@ == claimed(old(registry)@, handle.slot(), raw_instance),
            handle.valid_in(final(registry)),
    {
        Self::try_from_raw(registry, raw_instance).unwrap()
    }

    /// Makes one more handle to the same instance.
    pub fn duplicate<const N: usize, T>(&self, registry: &mut UnsafeArcArray<N, T>) -> (copy: Self)
        requires
            self.valid_in(old(registry)),
            old(registry)@[self.slot()].count < u64::MAX,
        ensures
            copy.slot() == self.slot(),
            final(registry)@ == retained(old(registry)@, self.slot()),
            final(registry).wf(),
            copy.valid_in(final(registry)),
            self.valid_in(final(registry)),
    {
        registry.inc_count(self.id);
        Instance { id: self.id }
    }

    /// Gives the handle up. The instance is dropped with its last handle.
    pub fn dispose<const N: usize, T>(self, registry: &mut UnsafeArcArray<N, T>)
        requires
            self.valid_in(old(registry)),
        ensures
            final(registry)@ == released(old(registry)@, self.slot()),
            final(registry).wf(),
    {
        registry.dec_count(self.id);
    }

    /// The instance that the handle refers to.
    pub fn deref<'a, const N: usize, T>(&self, registry: &'a UnsafeArcArray<N, T>) -> (raw_instance: &'a T)
        requires
            self.valid_in(registry),
        ensures
            registry@[self.slot()].value == Some(*raw_instance),
    {
        registry.get_ref(self.id)
    }
}

/// `ash::LoadingError`: why the Vulkan library could not be loaded. The
/// library only carries such a value along and never looks into it.
#[verifier::external_type_specification]
#[verifier::external_body]
pub struct ExLoadingError(ash::LoadingError);

/// Why no instance could be created.
#[derive(Debug)]
pub enum InstanceCreateError {
    /// Vulkan could not be loaded.
    VulkanLoadFailure(ash::LoadingError),
}

impl InstanceCreateError {
    /// The error in words.
    pub fn message(&self) -> (message: String)
        ensures
            message@ == "Vulkan could not be loaded"@,
    {
        match self {
            InstanceCreateError::VulkanLoadFailure(_) => "Vulkan could not be loaded".to_owned(),
        }
    }
}

impl From<ash::LoadingError> for InstanceCreateError {
    fn from(source: ash::LoadingError) -> (error: Self)
        ensures
            error == InstanceCreateError::VulkanLoadFailure(source),
    {
        InstanceCreateError::VulkanLoadFailure(source)
    }
}

impl vstd::std_specs::convert::FromSpecImpl<ash::LoadingError> for InstanceCreateError {
    open spec fn obeys_from_spec() -> bool {
        true
    }

    open spec fn from_spec(source: ash::LoadingError) -> Self {
        InstanceCreateError::VulkanLoadFailure(source)
    }
}

/// Why a name cannot be passed on as a C string: it holds a zero byte.
#[derive(Debug)]
pub struct NulError {
    position: usize,
    bytes: Vec<u8>,
}

/// What a `NulError` holds, as contracts see it.
pub struct NulErrorInfo {
    /// Where the first zero byte stands.
    pub position: int,
    /// The name that was refused.
    pub bytes: Seq<u8>,
}

impl View for NulError {
    type V = NulErrorInfo;

    closed spec fn view(&self) -> NulErrorInfo {
        NulErrorInfo { position: self.position as int, bytes: self.bytes@ }
    }
}

impl NulError {
    /// The position of the first zero byte in the name that was refused.
    pub fn nul_position(&self) -> (position: usize)
        ensures
            position == self@.position,
    {
        self.position
    }

    /// The name that was refused.
    pub fn into_vec(self) -> (bytes: Vec<u8>)
        ensures
            bytes@ == self@.bytes,
    {
        self.bytes
    }
}

/// The owned copy of a name, or the reason why it is no C string.
pub open spec fn checked(name: Seq<u8>) -> Result<Seq<u8>, NulErrorInfo> {
    match nul_position(name) {
        Some(position) => Err(NulErrorInfo { position, bytes: name }),
        None => Ok(name),
    }
}

/// Copies a name that holds no zero byte, and refuses one that does.
fn check_name(name: &[u8]) -> (owned: Result<Vec<u8>, NulError>)
    ensures
        owned is Ok <==> !has_nul(name@),
        match owned {
            Ok(bytes) => checked(name@) == Ok::<Seq<u8>, NulErrorInfo>(bytes@),
            Err(error) => checked(name@) == Err::<Seq<u8>, NulErrorInfo>(error@),
        },
{
    match find_nul(name) {
        Some(position) => Err(NulError { position, bytes: copy_bytes(name) }),
        None => Ok(copy_bytes(name)),
    }
}

/// The names of the entries of a list of layers.
pub open spec fn layer_names(layers: Seq<LayerInfo>) -> Seq<Seq<u8>> {
    Seq::new(layers.len(), |i: int| layers[i].name)
}

/// The names of the entries of a list of extensions.
pub open spec fn extension_names(extensions: Seq<ExtensionInfo>) -> Seq<Seq<u8>> {
    Seq::new(extensions.len(), |i: int| extensions[i].name)
}

/// What an instance is to be created from, as the caller states it.
pub struct InstanceCreateArgs {
    pub validation_layers: Option<Seq<LayerInfo>>,
    pub extensions: Option<Seq<ExtensionInfo>>,
    pub enumerate_portability: Option<bool>,
    pub application_name: Option<Seq<u8>>,
    pub application_version: Option<u32>,
    pub engine_name: Option<Seq<u8>>,
    pub engine_version: Option<u32>,
    pub api_version: u32,
}

/// What an `InstanceCreateInfo` holds, as contracts see it.
pub struct InstanceDescription {
    pub enabled_validation_layers: Seq<Seq<u8>>,
    pub enabled_extensions: Seq<Seq<u8>>,
    pub flags: u32,
    pub application_name: Seq<u8>,
    pub application_version: u32,
    pub engine_name: Seq<u8>,
    pub engine_version: u32,
    pub api_version: u32,
}

/// The flag word of an instance: the lowest bit asks for portability
/// enumeration, and no other bit is set.
pub open spec fn instance_flags(enumerate_portability: Option<bool>) -> u32 {
    if enumerate_portability == Some(true) {
        1
    } else {
        0
    }
}

/// The description that the arguments give: names, versions and flags are
/// taken over, what is left out is empty or zero, and the first of the
/// application's and the engine's name that holds a zero byte is refused.
pub open spec fn described(args: InstanceCreateArgs) -> Result<InstanceDescription, NulErrorInfo> {
    let application_name = checked(args.application_name.unwrap_or(Seq::empty()));
    let engine_name = checked(args.engine_name.unwrap_or(Seq::empty()));
    if application_name is Err {
        Err(application_name->Err_0)
    } else if engine_name is Err {
        Err(engine_name->Err_0)
    } else {
        Ok(
            InstanceDescription {
                enabled_validation_layers: layer_names(
                    args.validation_layers.unwrap_or(Seq::empty()),
                ),
                enabled_extensions: extension_names(args.extensions.unwrap_or(Seq::empty())),
                flags: instance_flags(args.enumerate_portability),
                application_name: application_name->Ok_0,
                application_version: args.application_version.unwrap_or(0),
                engine_name: engine_name->Ok_0,
                engine_version: args.engine_version.unwrap_or(0),
                api_version: args.api_version,
            },
        )
    }
}

/// A list of names, as contracts see it.
pub open spec fn name_list(names: Seq<Vec<u8>>) -> Seq<Seq<u8>> {
    Seq::new(names.len(), |i: int| names[i]@)
}

/// Owned copies of the given names.
fn own_names(names: &Vec<&[u8]>) -> (owned: Vec<Vec<u8>>)
    ensures
        owned.len() == names.len(),
        forall|i: int| 0 <= i < names.len() ==> (#[trigger] owned[i])@ == names[i]@,
{
    let mut owned: Vec<Vec<u8>> = Vec::with_capacity(names.len());
    let mut at: usize = 0;
    while at < names.len()
        invariant
            at <= names.len(),
            owned.len() == at,
            forall|i: int| 0 <= i < at ==> (#[trigger] owned[i])@ == names[i]@,
        decreases names.len() - at,
    {
        owned.push(copy_bytes(names[at]));
        at += 1;
    }
    owned
}

/// Owned data for the creation of an instance.
#[derive(Debug)]
pub struct InstanceCreateInfo {
    enabled_validation_layers: Vec<Vec<u8>>,
    enabled_extensions: Vec<Vec<u8>>,
    flags: u32,
    application_name: Vec<u8>,
    application_version: u32,
    engine_name: Vec<u8>,
    engine_version: u32,
    api_version: u32,
}

impl View for InstanceCreateInfo {
    type V = InstanceDescription;

    closed spec fn view(&self) -> InstanceDescription {
        InstanceDescription {
            enabled_validation_layers: name_list(self.enabled_validation_layers@),
            enabled_extensions: name_list(self.enabled_extensions@),
            flags: self.flags,
            application_name: self.application_name@,
            application_version: self.application_version,
            engine_name: self.engine_name@,
            engine_version: self.engine_version,
            api_version: self.api_version,
        }
    }
}

/// The result of a creation, as contracts see it.
pub open spec fn outcome(result: Result<InstanceCreateInfo, NulError>) -> Result<
    InstanceDescription,
    NulErrorInfo,
> {
    match result {
        Ok(info) => Ok(info@),
        Err(error) => Err(error@),
    }
}

/// The bytes of a name that was given, if one was.
pub open spec fn given(name: Option<&[u8]>) -> Option<Seq<u8>> {
    match name {
        Some(bytes) => Some(bytes@),
        None => None,
    }
}

/// The entries of a list of layers that was given, if one was.
pub open spec fn given_layers(layers: Option<AvailableValidationLayers>) -> Option<Seq<LayerInfo>> {
    match layers {
        Some(list) => Some(list@),
        None => None,
    }
}

/// The entries of a list of extensions that was given, if one was.
pub open spec fn given_extensions(extensions: Option<AvailableExtensions>) -> Option<
    Seq<ExtensionInfo>,
> {
    match extensions {
        Some(list) => Some(list@),
        None => None,
    }
}

impl InstanceCreateInfo {
    /// Creates InstanceCreateInfo. Fails if any of the given strings contain
    /// nulls.
    pub fn new(
        validation_layers: Option<AvailableValidationLayers>,
        extensions: Option<AvailableExtensions>,
        enumerate_portability: Option<bool>,
        application_name: Option<&[u8]>,
        application_version: Option<u32>,
        engine_name: Option<&[u8]>,
        engine_version: Option<u32>,
        api_version: u32,
    ) -> (result: Result<Self, NulError>)
        ensures
            outcome(result) == described(
                InstanceCreateArgs {
                    validation_layers: given_layers(validation_layers),
                    extensions: given_extensions(extensions),
                    enumerate_portability,
                    application_name: given(application_name),
                    application_version,
                    engine_name: given(engine_name),
                    engine_version,
                    api_version,
                },
            ),
    {
        let application_name = match application_name {
            Some(name) => match check_name(name) {
                Ok(owned) => owned,
                Err(error) => {
                    return Err(error);
                },
            },
            None => {
                let empty: Vec<u8> = Vec::new();
                assert(!has_nul(empty@));
                empty
            },
        };
        let engine_name = match engine_name {
            Some(name) => match check_name(name) {
                Ok(owned) => owned,
                Err(error) => {
                    return Err(error);
                },
            },
            None => {
                let empty: Vec<u8> = Vec::new();
                assert(!has_nul(empty@));
                empty
            },
        };
        let enabled_validation_layers = match &validation_layers {
            Some(layers) => own_names(&layers.names()),
            None => Vec::new(),
        };
        let enabled_extensions = match &extensions {
            Some(extensions) => own_names(&extensions.names()),
            None => Vec::new(),
        };
        let mut flags = no_instance_flags();
        if let Some(true) = enumerate_portability {
            flags = with_enumerate_portability(flags);
            assert(0u32 | 0x1 == 1) by (bit_vector);
        }
        let application_version = match application_version {
            Some(version) => version,
            None => 0,
        };
        let engine_version = match engine_version {
            Some(version) => version,
            None => 0,
        };
        let info = InstanceCreateInfo {
            enabled_validation_layers,
            enabled_extensions,
            flags,
            application_name,
            application_version,
            engine_name,
            engine_version,
            api_version,
        };
        proof {
            let layers = given_layers(validation_layers).unwrap_or(Seq::empty());
            let extensions = given_extensions(extensions).unwrap_or(Seq::empty());
            assert(info@.enabled_validation_layers =~= layer_names(layers));
            assert(info@.enabled_extensions =~= extension_names(extensions));
        }
        Ok(info)
    }

    /// Starts a description with nothing stated yet. The API version has to
    /// be stated before the description can be built.
    pub fn builder<'a>() -> (builder: InstanceCreateInfoBuilder<'a, false>)
        ensures
            builder@ == (InstanceCreateArgs {
                validation_layers: None,
                extensions: None,
                enumerate_portability: None,
                application_name: None,
                application_version: None,
                engine_name: None,
                engine_version: None,
                api_version: 0,
            }),
    {
        InstanceCreateInfoBuilder {
            validation_layers: None,
            extensions: None,
            enumerate_portability: None,
            application_name: None,
            application_version: None,
            engine_name: None,
            engine_version: None,
            api_version: 0,
        }
    }

    /// Names of the validation layers to enable.
    pub fn enabled_validation_layers(&self) -> (names: &[Vec<u8>])
        ensures
            name_list(names@) == self@.enabled_validation_layers,
    {
        self.enabled_validation_layers.as_slice()
    }

    /// Names of the extensions to enable.
    pub fn enabled_extensions(&self) -> (names: &[Vec<u8>])
        ensures
            name_list(names@) == self@.enabled_extensions,
    {
        self.enabled_extensions.as_slice()
    }

    /// The flag word of the instance.
    pub fn flags(&self) -> (flags: u32)
        ensures
            flags == self@.flags,
    {
        self.flags
    }

    /// The application's name; it holds no zero byte.
    pub fn application_name(&self) -> (name: &[u8])
        ensures
            name@ == self@.application_name,
    {
        self.application_name.as_slice()
    }

    /// The application's version.
    pub fn application_version(&self) -> (version: u32)
        ensures
            version == self@.application_version,
    {
        self.application_version
    }

    /// The engine's name; it holds no zero byte.
    pub fn engine_name(&self) -> (name: &[u8])
        ensures
            name@ == self@.engine_name,
    {
        self.engine_name.as_slice()
    }

    /// The engine's version.
    pub fn engine_version(&self) -> (version: u32)
        ensures
            version == self@.engine_version,
    {
        self.engine_version
    }

    /// The version of the API that the application is written for.
    pub fn api_version(&self) -> (version: u32)
        ensures
            version == self@.api_version,
    {
        self.api_version
    }
}

/// Collects what an instance is to be created from, one statement at a
/// time. `VERSIONED` says whether the API version was stated.
pub struct InstanceCreateInfoBuilder<'a, const VERSIONED: bool> {
    validation_layers: Option<AvailableValidationLayers>,
    extensions: Option<AvailableExtensions>,
    enumerate_portability: Option<bool>,
    application_name: Option<&'a [u8]>,
    application_version: Option<u32>,
    engine_name: Option<&'a [u8]>,
    engine_version: Option<u32>,
    api_version: u32,
}

impl<'a, const VERSIONED: bool> View for InstanceCreateInfoBuilder<'a, VERSIONED> {
    type V = InstanceCreateArgs;

    closed spec fn view(&self) -> InstanceCreateArgs {
        InstanceCreateArgs {
            validation_layers: given_layers(self.validation_layers),
            extensions: given_extensions(self.extensions),
            enumerate_portability: self.enumerate_portability,
            application_name: given(self.application_name),
            application_version: self.application_version,
            engine_name: given(self.engine_name),
            engine_version: self.engine_version,
            api_version: self.api_version,
        }
    }
}

impl<'a, const VERSIONED: bool> InstanceCreateInfoBuilder<'a, VERSIONED> {
    /// States the validation layers to enable.
    pub fn validation_layers(self, layers: AvailableValidationLayers) -> (builder: Self)
        ensures
            builder@ == (InstanceCreateArgs { validation_layers: Some(layers@), ..self@ }),
    {
        InstanceCreateInfoBuilder { validation_layers: Some(layers), ..self }
    }

    /// States the extensions to enable.
    pub fn extensions(self, extensions: AvailableExtensions) -> (builder: Self)
        ensures
            builder@ == (InstanceCreateArgs { extensions: Some(extensions@), ..self@ }),
    {
        InstanceCreateInfoBuilder { extensions: Some(extensions), ..self }
    }

    /// States whether portability enumeration is asked for.
    pub fn enumerate_portability(self, enumerate_portability: bool) -> (builder: Self)
        ensures
            builder@ == (InstanceCreateArgs {
                enumerate_portability: Some(enumerate_portability),
                ..self@
            }),
    {
        InstanceCreateInfoBuilder { enumerate_portability: Some(enumerate_portability), ..self }
    }

    /// States the application's name.
    pub fn application_name(self, name: &'a [u8]) -> (builder: Self)
        ensures
            builder@ == (InstanceCreateArgs { application_name: Some(name@), ..self@ }),
    {
        InstanceCreateInfoBuilder { application_name: Some(name), ..self }
    }

    /// States the application's version.
    pub fn application_version(self, version: u32) -> (builder: Self)
        ensures
            builder@ == (InstanceCreateArgs { application_version: Some(version), ..self@ }),
    {
        InstanceCreateInfoBuilder { application_version: Some(version), ..self }
    }

    /// States the engine's name.
    pub fn engine_name(self, name: &'a [u8]) -> (builder: Self)
        ensures
            builder@ == (InstanceCreateArgs { engine_name: Some(name@), ..self@ }),
    {
        InstanceCreateInfoBuilder { engine_name: Some(name), ..self }
    }

    /// States the engine's version.
    pub fn engine_version(self, version: u32) -> (builder: Self)
        ensures
            builder@ == (InstanceCreateArgs { engine_version: Some(version), ..self@ }),
    {
        InstanceCreateInfoBuilder { engine_version: Some(version), ..self }
    }

    /// States the version of the API that the application is written for.
    pub fn api_version(self, version: u32) -> (builder: InstanceCreateInfoBuilder<'a, true>)
        ensures
            builder@ == (InstanceCreateArgs { api_version: version, ..self@ }),
    {
        InstanceCreateInfoBuilder {
            validation_layers: self.validation_layers,
            extensions: self.extensions,
            enumerate_portability: self.enumerate_portability,
            application_name: self.application_name,
            application_version: self.application_version,
            engine_name: self.engine_name,
            engine_version: self.engine_version,
            api_version: version,
        }
    }
}

impl<'a> InstanceCreateInfoBuilder<'a, true> {
    /// Creates the description from what was stated. Fails if any of the
    /// given names contains a zero byte.
    pub fn build(self) -> (result: Result<InstanceCreateInfo, NulError>)
        ensures
            outcome(result) == described(self@),
    {
        InstanceCreateInfo::new(
            self.validation_layers,
            self.extensions,
            self.enumerate_portability,
            self.application_name,
            self.application_version,
            self.engine_name,
            self.engine_version,
            self.api_version,
        )
    }
}

} // verus!
