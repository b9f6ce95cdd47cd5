//! The main registry: its key space, which takes in the keys of the platform
//! extensions under a namespace, and the builder that fills it.

use vstd::prelude::*;
use vstd::string::StrSliceExecFns;
use vstd::string::StringExecFns;

use crate::document::from_json;
use crate::document::json_document;
use crate::document::registry_from_entries;
use crate::document::registry_of_document;
use crate::document::text_block;
use crate::document::to_json;
use crate::document::decoded;
use crate::error::DeviceInfoError;
use crate::internal::string_pairs;
use crate::internal::text_pairs;
use crate::internal::BaseDeviceInfoBuilder;
use crate::internal::ComponentMap;
use crate::internal::IDeviceInfoBuilder;
use crate::key::ComponentKey;
use crate::macos::MacOSBuilder;
use crate::macos::MacOSBuilderComponents;
use crate::order::lemma_ordered_keys;
use crate::order::listing;
use crate::order::ordered_keys;
use crate::order::ordered_pairs;
use crate::platform::host_arch;
use crate::platform::host_device_name;
use crate::platform::host_distro;
use crate::platform::host_platform;
use crate::platform::host_user_name;
use crate::platform::PlatformFamily;
use crate::string_tools::same_text;
use crate::windows::WindowsBuilder;
use crate::windows::WindowsBuilderComponents;

verus! {

/// Every attribute that a registry can hold: the five that every host has,
/// and the keys of each platform extension, tagged with their platform.
#[derive(Debug, Hash, PartialEq, Eq, Structural, Clone, Copy, PartialOrd, Ord)]
pub enum MainBuilderComponents {
    UserName,
    DeviceName,
    OSPlatform,
    OSDistro,
    CpuArch,
    WindowsBuilderComponents(WindowsBuilderComponents),
    MacOSBuilderComponents(MacOSBuilderComponents),
}

/// The prefix of a Windows key's canonical string.
pub open spec fn windows_namespace() -> Seq<char> {
    "Windows::"@
}

/// The prefix of a macOS key's canonical string.
pub open spec fn macos_namespace() -> Seq<char> {
    "MacOS::"@
}

impl MainBuilderComponents {
    /// The key belongs to no platform extension.
    pub open spec fn is_core(self) -> bool {
        !(self is WindowsBuilderComponents) && !(self is MacOSBuilderComponents)
    }

    /// Position of the key in declaration order: the core keys first, then
    /// the Windows keys, then the macOS keys, each group in its own order.
    pub open spec fn position(self) -> nat {
        match self {
            MainBuilderComponents::UserName => 0,
            MainBuilderComponents::DeviceName => 1,
            MainBuilderComponents::OSPlatform => 2,
            MainBuilderComponents::OSDistro => 3,
            MainBuilderComponents::CpuArch => 4,
            MainBuilderComponents::WindowsBuilderComponents(w) => 5 + w.position(),
            MainBuilderComponents::MacOSBuilderComponents(m) => 12 + m.position(),
        }
    }

    /// The canonical string of the key. A platform key's string is its
    /// platform's namespace followed by its own canonical string.
    pub open spec fn name(self) -> Seq<char> {
        match self {
            MainBuilderComponents::UserName => "userName"@,
            MainBuilderComponents::DeviceName => "deviceName"@,
            MainBuilderComponents::OSPlatform => "platform"@,
            MainBuilderComponents::OSDistro => "osDistro"@,
            MainBuilderComponents::CpuArch => "cpuArch"@,
            MainBuilderComponents::WindowsBuilderComponents(w) => windows_namespace() + w.name(),
            MainBuilderComponents::MacOSBuilderComponents(m) => macos_namespace() + m.name(),
        }
    }

    /// The length of the key's canonical string.
    pub open spec fn name_length(self) -> nat {
        match self {
            MainBuilderComponents::UserName => 8,
            MainBuilderComponents::DeviceName => 10,
            MainBuilderComponents::OSPlatform => 8,
            MainBuilderComponents::OSDistro => 8,
            MainBuilderComponents::CpuArch => 7,
            MainBuilderComponents::WindowsBuilderComponents(w) => 9 + w.name().len(),
            MainBuilderComponents::MacOSBuilderComponents(m) => 7 + m.name().len(),
        }
    }

    /// The first character of the key's canonical string: a capital letter
    /// for the keys of an extension, a lower-case letter for a core key.
    pub open spec fn name_initial(self) -> char {
        match self {
            MainBuilderComponents::UserName => 'u',
            MainBuilderComponents::DeviceName => 'd',
            MainBuilderComponents::OSPlatform => 'p',
            MainBuilderComponents::OSDistro => 'o',
            MainBuilderComponents::CpuArch => 'c',
            MainBuilderComponents::WindowsBuilderComponents(_) => 'W',
            MainBuilderComponents::MacOSBuilderComponents(_) => 'M',
        }
    }

    /// How long each canonical string is and how it begins, and that a
    /// namespaced string falls apart into its namespace and the canonical
    /// string of the platform's key.
    pub proof fn lemma_names(k: Self)
        ensures
            k.name().len() == k.name_length(),
            k.name()[0] == k.name_initial(),
            k matches MainBuilderComponents::WindowsBuilderComponents(w) ==> k.name().subrange(0, 9)
                == windows_namespace() && k.name().subrange(9, k.name().len() as int) == w.name(),
            k matches MainBuilderComponents::MacOSBuilderComponents(m) ==> k.name().subrange(0, 7)
                == macos_namespace() && k.name().subrange(7, k.name().len() as int) == m.name(),
    {
        reveal_strlit("userName");
        reveal_strlit("deviceName");
        reveal_strlit("platform");
        reveal_strlit("osDistro");
        reveal_strlit("cpuArch");
        reveal_strlit("Windows::");
        reveal_strlit("MacOS::");
        match k {
            MainBuilderComponents::WindowsBuilderComponents(w) => {
                assert(k.name().subrange(0, 9) =~= windows_namespace());
                assert(k.name().subrange(9, k.name().len() as int) =~= w.name());
            },
            MainBuilderComponents::MacOSBuilderComponents(m) => {
                assert(k.name().subrange(0, 7) =~= macos_namespace());
                assert(k.name().subrange(7, k.name().len() as int) =~= m.name());
            },
            _ => {},
        }
    }

    /// The canonical string of the key.
    pub fn as_string(&self) -> (name: String)
        ensures
            name@ == self.name(),
    {
        match *self {
            MainBuilderComponents::UserName => String::from_str("userName"),
            MainBuilderComponents::DeviceName => String::from_str("deviceName"),
            MainBuilderComponents::OSPlatform => String::from_str("platform"),
            MainBuilderComponents::OSDistro => String::from_str("osDistro"),
            MainBuilderComponents::CpuArch => String::from_str("cpuArch"),
            MainBuilderComponents::WindowsBuilderComponents(ref component) => {
                String::from_str("Windows::").concat(component.as_string().as_str())
            },
            MainBuilderComponents::MacOSBuilderComponents(ref component) => {
                String::from_str("MacOS::").concat(component.as_string().as_str())
            },
        }
    }

    /// The key whose canonical string is `s`. A string that is no key's
    /// canonical string gives `None`: there is no default key.
    pub fn from_str(s: &str) -> (key: Option<Self>)
        ensures
            match key {
                Some(k) => k.name() == s@,
                None => forall|k: Self| k.name() != s@,
            },
    {
        if same_text(s, "userName") {
            return Some(MainBuilderComponents::UserName);
        }
        if same_text(s, "deviceName") {
            return Some(MainBuilderComponents::DeviceName);
        }
        if same_text(s, "platform") {
            return Some(MainBuilderComponents::OSPlatform);
        }
        if same_text(s, "osDistro") {
            return Some(MainBuilderComponents::OSDistro);
        }
        if same_text(s, "cpuArch") {
            return Some(MainBuilderComponents::CpuArch);
        }
        proof {
            reveal_strlit("Windows::");
            reveal_strlit("MacOS::");
        }
        let length: usize = s.unicode_len();
        if length >= 9 && same_text(s.substring_char(0, 9), "Windows::") {
            let component = s.substring_char(9, length);
            assert(s@ =~= windows_namespace() + component@);
            match WindowsBuilderComponents::from_str(component) {
                Some(v) => Some(MainBuilderComponents::WindowsBuilderComponents(v)),
                None => {
                    assert forall|k: Self| k.name() != s@ by {
                        Self::lemma_names(k);
                    }
                    None
                },
            }
        } else if length >= 7 && same_text(s.substring_char(0, 7), "MacOS::") {
            let component = s.substring_char(7, length);
            assert(s@ =~= macos_namespace() + component@);
            match MacOSBuilderComponents::from_str(component) {
                Some(v) => Some(MainBuilderComponents::MacOSBuilderComponents(v)),
                None => {
                    assert forall|k: Self| k.name() != s@ by {
                        Self::lemma_names(k);
                    }
                    None
                },
            }
        } else {
            assert forall|k: Self| k.name() != s@ by {
                Self::lemma_names(k);
            }
            None
        }
    }
}

impl ComponentKey for MainBuilderComponents {
    open spec fn rank(self) -> nat {
        self.position()
    }

    open spec fn canonical(self) -> Seq<char> {
        self.name()
    }

    proof fn lemma_rank_injective(a: Self, b: Self) {
    }

    proof fn lemma_canonical_injective(a: Self, b: Self) {
        Self::lemma_names(a);
        Self::lemma_names(b);
        if a.name() == b.name() {
            assert(a.name_initial() == b.name_initial() && a.name_length() == b.name_length());
            match (a, b) {
                (
                    MainBuilderComponents::WindowsBuilderComponents(x),
                    MainBuilderComponents::WindowsBuilderComponents(y),
                ) => {
                    WindowsBuilderComponents::lemma_canonical_injective(x, y);
                },
                (
                    MainBuilderComponents::MacOSBuilderComponents(x),
                    MainBuilderComponents::MacOSBuilderComponents(y),
                ) => {
                    MacOSBuilderComponents::lemma_canonical_injective(x, y);
                },
                _ => {},
            }
        }
    }

    fn ordinal(&self) -> (position: u8) {
        match *self {
            MainBuilderComponents::UserName => 0,
            MainBuilderComponents::DeviceName => 1,
            MainBuilderComponents::OSPlatform => 2,
            MainBuilderComponents::OSDistro => 3,
            MainBuilderComponents::CpuArch => 4,
            MainBuilderComponents::WindowsBuilderComponents(ref component) => 5
                + component.ordinal(),
            MainBuilderComponents::MacOSBuilderComponents(ref component) => 12
                + component.ordinal(),
        }
    }

    fn to_canonical(&self) -> (name: String) {
        self.as_string()
    }

    fn from_canonical(name: &str) -> (key: Option<Self>) {
        Self::from_str(name)
    }
}

/// Namespaces keep the key spaces apart: a Windows key, a macOS key and a
/// core key never share a canonical string, whatever the attributes are.
pub proof fn lemma_namespaces_disjoint(
    core: MainBuilderComponents,
    windows: WindowsBuilderComponents,
    macos: MacOSBuilderComponents,
)
    requires
        core.is_core(),
    ensures
        MainBuilderComponents::WindowsBuilderComponents(windows) != core,
        MainBuilderComponents::MacOSBuilderComponents(macos) != core,
        MainBuilderComponents::WindowsBuilderComponents(windows).name() != core.name(),
        MainBuilderComponents::MacOSBuilderComponents(macos).name() != core.name(),
        MainBuilderComponents::WindowsBuilderComponents(windows).name()
            != MainBuilderComponents::MacOSBuilderComponents(macos).name(),
{
    MainBuilderComponents::lemma_names(core);
    MainBuilderComponents::lemma_names(MainBuilderComponents::WindowsBuilderComponents(windows));
    MainBuilderComponents::lemma_names(MainBuilderComponents::MacOSBuilderComponents(macos));
}

/// A key space of a platform extension: each of its keys has a place in the
/// main key space, under the platform's namespace.
pub trait PlatformKey: ComponentKey {
    /// The key of the main key space that stands for this key.
    spec fn namespaced(self) -> MainBuilderComponents;

    /// Namespacing loses nothing and reaches no core key.
    proof fn lemma_namespaced(a: Self, b: Self)
        ensures
            !a.namespaced().is_core(),
            a.namespaced() == b.namespaced() ==> a == b,
    ;

    /// The key of the main key space that stands for this key.
    fn into_main(self) -> (key: MainBuilderComponents)
        ensures
            key == self.namespaced(),
    ;
}

impl PlatformKey for WindowsBuilderComponents {
    open spec fn namespaced(self) -> MainBuilderComponents {
        MainBuilderComponents::WindowsBuilderComponents(self)
    }

    proof fn lemma_namespaced(a: Self, b: Self) {
    }

    fn into_main(self) -> (key: MainBuilderComponents) {
        MainBuilderComponents::WindowsBuilderComponents(self)
    }
}

impl PlatformKey for MacOSBuilderComponents {
    open spec fn namespaced(self) -> MainBuilderComponents {
        MainBuilderComponents::MacOSBuilderComponents(self)
    }

    proof fn lemma_namespaced(a: Self, b: Self) {
    }

    fn into_main(self) -> (key: MainBuilderComponents) {
        MainBuilderComponents::MacOSBuilderComponents(self)
    }
}

/// The entries of an extension registry as entries of the main registry:
/// each key under its namespace, each value as it is.
pub open spec fn namespaced_entries<KT: PlatformKey>(extension: Map<KT, Seq<char>>) -> Map<
    MainBuilderComponents,
    Seq<char>,
> {
    Map::new(
        |k: MainBuilderComponents|
            exists|x: KT| extension.contains_key(x) && #[trigger] x.namespaced() == k,
        |k: MainBuilderComponents|
            extension[choose|x: KT| extension.contains_key(x) && #[trigger] x.namespaced() == k],
    )
}

/// What a namespaced extension holds: for each of its keys, under the
/// namespace, the value of that key.
pub proof fn lemma_namespaced_entries<KT: PlatformKey>(extension: Map<KT, Seq<char>>, x: KT)
    ensures
        namespaced_entries(extension).contains_key(x.namespaced()) <==> extension.contains_key(x),
        extension.contains_key(x) ==> namespaced_entries(extension)[x.namespaced()]
            == extension[x],
{
    if namespaced_entries(extension).contains_key(x.namespaced()) {
        let y = choose|y: KT| extension.contains_key(y) && #[trigger] y.namespaced() == x.namespaced();
        KT::lemma_namespaced(y, x);
    }
    if extension.contains_key(x) {
        let y = choose|y: KT| extension.contains_key(y) && #[trigger] y.namespaced() == x.namespaced();
        KT::lemma_namespaced(y, x);
    }
}

/// Merging an extension never collides with what the other key spaces put
/// into a registry: where a registry holds core keys and keys of the other
/// platform only, no namespaced key of the extension is present in it,
/// whichever attributes the extension collected.
pub proof fn lemma_windows_extension_fits(
    registry: Map<MainBuilderComponents, Seq<char>>,
    extension: Map<WindowsBuilderComponents, Seq<char>>,
)
    requires
        forall|k: MainBuilderComponents| #[trigger]
            registry.contains_key(k) ==> k.is_core() || k is MacOSBuilderComponents,
    ensures
        forall|k: MainBuilderComponents| #[trigger]
            namespaced_entries(extension).contains_key(k) ==> !registry.contains_key(k),
        registry.submap_of(registry.union_prefer_right(namespaced_entries(extension))),
{
}

/// The same for the macOS extension, against core keys and Windows keys.
pub proof fn lemma_macos_extension_fits(
    registry: Map<MainBuilderComponents, Seq<char>>,
    extension: Map<MacOSBuilderComponents, Seq<char>>,
)
    requires
        forall|k: MainBuilderComponents| #[trigger]
            registry.contains_key(k) ==> k.is_core() || k is WindowsBuilderComponents,
    ensures
        forall|k: MainBuilderComponents| #[trigger]
            namespaced_entries(extension).contains_key(k) ==> !registry.contains_key(k),
        registry.submap_of(registry.union_prefer_right(namespaced_entries(extension))),
{
}

/// The main registry of a host.
#[derive(Debug)]
pub struct MainDeviceInfoBuilder {
    _base: BaseDeviceInfoBuilder<MainBuilderComponents>,
}

impl View for MainDeviceInfoBuilder {
    type V = Map<MainBuilderComponents, Seq<char>>;

    closed spec fn view(&self) -> Map<MainBuilderComponents, Seq<char>> {
        self._base@
    }
}

impl MainDeviceInfoBuilder {
    /// An empty registry.
    pub fn new() -> (builder: Self)
        ensures
            builder@ == Map::<MainBuilderComponents, Seq<char>>::empty(),
    {
        Self { _base: BaseDeviceInfoBuilder::<MainBuilderComponents>::new() }
    }

    /// A registry is a finite map.
    pub proof fn lemma_finite(&self)
        ensures
            self@.dom().finite(),
    {
        self._base.components.lemma_finite();
    }

    /// The registry as a text block: one line `key: value` for each entry,
    /// in ascending order of key.
    pub fn to_string(&self) -> (text: String)
        ensures
            text@ == text_block(listing(self@)),
    {
        self._base.to_string()
    }

    /// The canonical form of the registry: its entries in ascending order of
    /// key, each key as its canonical string.
    pub fn serialize(&self) -> (entries: Vec<(String, String)>)
        ensures
            string_pairs(entries@) == listing(self@),
    {
        self._base.components.entries()
    }

    /// The registry that `entries` stand for. An entry whose name is no
    /// key's canonical string gives `UnknownKey`, a key that comes twice
    /// gives `DuplicateKey`; the first entry that fails decides.
    pub fn deserialize(entries: &Vec<(String, String)>) -> (builder: Result<Self, DeviceInfoError>)
        ensures
            match decoded::<MainBuilderComponents>(string_pairs(entries@)) {
                Ok(expected) => builder is Ok && builder->Ok_0@ == expected,
                Err(e) => builder is Err && builder->Err_0 == e,
            },
    {
        match registry_from_entries::<MainBuilderComponents>(entries) {
            Ok(components) => Ok(Self { _base: BaseDeviceInfoBuilder { components } }),
            Err(e) => Err(e),
        }
    }

    /// The registry as a JSON document. Reading it back with `from_json`
    /// gives an equal registry.
    pub fn to_json(&self) -> (text: String)
        ensures
            text@ == json_document(listing(self@)),
            registry_of_document::<MainBuilderComponents>(text@) == Ok::<
                Map<MainBuilderComponents, Seq<char>>,
                DeviceInfoError,
            >(self@),
    {
        to_json(&self._base.components)
    }

    /// The registry that a JSON document stands for.
    pub fn from_json(text: &str) -> (builder: Result<Self, DeviceInfoError>)
        ensures
            match registry_of_document::<MainBuilderComponents>(text@) {
                Ok(expected) => builder is Ok && builder->Ok_0@ == expected,
                Err(e) => builder is Err && builder->Err_0 == e,
            },
    {
        match from_json::<MainBuilderComponents>(text) {
            Ok(components) => Ok(Self { _base: BaseDeviceInfoBuilder { components } }),
            Err(e) => Err(e),
        }
    }

    /// Takes in the entries of an extension registry, each key under its
    /// namespace, and hands the builder back for the next call.
    pub fn merge_extension<KT: PlatformKey>(&mut self, extension: &ComponentMap<KT>) -> (builder:
        &mut Self)
        requires
            forall|x: KT|
                extension@.contains_key(x) ==> !old(self)@.contains_key(#[trigger] x.namespaced()),
        ensures
            builder@ == old(self)@.union_prefer_right(namespaced_entries(extension@)),
            *final(self) == *final(builder),
    {
        let pairs = extension.pairs();
        let ghost keys = ordered_keys(extension@.dom());
        proof {
            extension.lemma_finite();
            lemma_ordered_keys(extension@.dom());
            assert(text_pairs(pairs@).len() == keys.len());
        }
        let mut wrapped = ComponentMap::<MainBuilderComponents>::new();
        let mut i: usize = 0;
        while i < pairs.len()
            invariant
                i <= pairs.len(),
                pairs.len() == keys.len(),
                text_pairs(pairs@) == ordered_pairs(extension@),
                keys == ordered_keys(extension@.dom()),
                keys.no_duplicates(),
                forall|k: MainBuilderComponents|
                    wrapped@.contains_key(k) <==> exists|j: int|
                        0 <= j < i && (#[trigger] keys[j]).namespaced() == k,
                forall|j: int|
                    0 <= j < i ==> wrapped@[(#[trigger] keys[j]).namespaced()] == extension@[keys[j]],
            decreases pairs.len() - i,
        {
            let ghost before = wrapped@;
            proof {
                assert(text_pairs(pairs@)[i as int] == ordered_pairs(extension@)[i as int]);
                assert(pairs[i as int].0 == keys[i as int]);
                assert(pairs[i as int].1@ == extension@[keys[i as int]]);
                if before.contains_key(keys[i as int].namespaced()) {
                    let j = choose|j: int|
                        0 <= j < i && (#[trigger] keys[j]).namespaced() == keys[i as int].namespaced();
                    KT::lemma_namespaced(keys[j], keys[i as int]);
                }
            }
            let _ = wrapped.try_insert(pairs[i].0.into_main(), pairs[i].1.clone());
            proof {
                assert forall|j: int| 0 <= j < i + 1 implies wrapped@[(
                #[trigger] keys[j]).namespaced()] == extension@[keys[j]] by {
                    if j < i {
                        KT::lemma_namespaced(keys[j], keys[i as int]);
                    }
                }
            }
            i += 1;
        }
        proof {
            assert(wrapped@ =~= namespaced_entries(extension@)) by {
                assert forall|k: MainBuilderComponents|
                    wrapped@.contains_key(k) <==> namespaced_entries(extension@).contains_key(
                        k,
                    ) by {
                    if wrapped@.contains_key(k) {
                        let j = choose|j: int|
                            0 <= j < i && (#[trigger] keys[j]).namespaced() == k;
                        assert(keys.contains(keys[j]));
                        lemma_namespaced_entries(extension@, keys[j]);
                    }
                    if namespaced_entries(extension@).contains_key(k) {
                        let x = choose|x: KT|
                            extension@.contains_key(x) && #[trigger] x.namespaced() == k;
                        assert(keys.contains(x));
                        let j = choose|j: int| 0 <= j < keys.len() && keys[j] == x;
                        assert(keys[j].namespaced() == k);
                    }
                }
                assert forall|k: MainBuilderComponents| wrapped@.contains_key(k) implies wrapped@[k]
                    == namespaced_entries(extension@)[k] by {
                    let j = choose|j: int| 0 <= j < i && (#[trigger] keys[j]).namespaced() == k;
                    assert(keys.contains(keys[j]));
                    lemma_namespaced_entries(extension@, keys[j]);
                }
            }
            assert forall|k: MainBuilderComponents| wrapped@.contains_key(k) implies !old(
                self,
            )@.contains_key(k) by {
                let x = choose|x: KT| extension@.contains_key(x) && #[trigger] x.namespaced() == k;
            }
        }
        self.extend_components(&wrapped)
    }
}

/// What a registry looks like after an extension was merged on a host of
/// the extension's family: the plugin was run once, on an empty extension
/// registry, and what it handed back was taken in under the namespace.
pub open spec fn merged_by<KT: PlatformKey, B: View<V = Map<KT, Seq<char>>>, F: Fn(&mut B) -> &mut B>(
    plugin: F,
    before: Map<MainBuilderComponents, Seq<char>>,
    after: Map<MainBuilderComponents, Seq<char>>,
) -> bool {
    exists|given: &mut B, back: &mut B| #[trigger]
        call_ensures(plugin, (given,), back) && (*given)@ == Map::<KT, Seq<char>>::empty()
            && after == before.union_prefer_right(namespaced_entries((*back)@))
}

/// What a plugin has to be for a registry to merge its extension: it takes
/// an empty extension registry and collects no attribute that the registry
/// holds already.
pub open spec fn plugin_fits<KT: PlatformKey, B: View<V = Map<KT, Seq<char>>>, F: Fn(&mut B) -> &mut B>(
    plugin: F,
    registry: Map<MainBuilderComponents, Seq<char>>,
) -> bool {
    &&& forall|given: &mut B|
        (*given)@ == Map::<KT, Seq<char>>::empty() ==> #[trigger] call_requires(plugin, (given,))
    &&& forall|given: &mut B, back: &mut B, x: KT|
        (*given)@ == Map::<KT, Seq<char>>::empty() && #[trigger] call_ensures(
            plugin,
            (given,),
            back,
        ) && (*back)@.contains_key(x) ==> !registry.contains_key(#[trigger] x.namespaced())
}

/// What the main registry collects: the five attributes of every host, each
/// asked of the running system, and the extension of the host's platform.
pub trait IMainBuilder: IDeviceInfoBuilder<MainBuilderComponents> {
    /// Stores the name of the user who runs the program.
    fn add_user_name(&mut self) -> (builder: &mut Self)
        requires
            !old(self)@.contains_key(MainBuilderComponents::UserName),
        ensures
            exists|value: Seq<char>|
                builder@ == old(self)@.insert(MainBuilderComponents::UserName, value),
            *final(self) == *final(builder),
    ;

    /// Stores the name of the device.
    fn add_device_name(&mut self) -> (builder: &mut Self)
        requires
            !old(self)@.contains_key(MainBuilderComponents::DeviceName),
        ensures
            exists|value: Seq<char>|
                builder@ == old(self)@.insert(MainBuilderComponents::DeviceName, value),
            *final(self) == *final(builder),
    ;

    /// Stores the name of the platform.
    fn add_platform_name(&mut self) -> (builder: &mut Self)
        requires
            !old(self)@.contains_key(MainBuilderComponents::OSPlatform),
        ensures
            exists|value: Seq<char>|
                builder@ == old(self)@.insert(MainBuilderComponents::OSPlatform, value),
            *final(self) == *final(builder),
    ;

    /// Stores the name of the distribution of the operating system.
    fn add_os_distro(&mut self) -> (builder: &mut Self)
        requires
            !old(self)@.contains_key(MainBuilderComponents::OSDistro),
        ensures
            exists|value: Seq<char>|
                builder@ == old(self)@.insert(MainBuilderComponents::OSDistro, value),
            *final(self) == *final(builder),
    ;

    /// Stores the architecture of the processor.
    fn add_cpu_arch(&mut self) -> (builder: &mut Self)
        requires
            !old(self)@.contains_key(MainBuilderComponents::CpuArch),
        ensures
            exists|value: Seq<char>|
                builder@ == old(self)@.insert(MainBuilderComponents::CpuArch, value),
            *final(self) == *final(builder),
    ;

    /// Merges the Windows extension if `platform` is Windows: the plugin is
    /// run on an empty extension registry and what it collected is taken in
    /// under the Windows namespace. On any other platform the plugin is not
    /// run and the registry stays as it is.
    ///
    /// The plugin hands back the extension registry that it was given, as a
    /// chain of `add_` calls does.
    fn on_windows_for<F>(&mut self, platform: PlatformFamily, on_windows_plugin: F) -> (builder:
        &mut Self) where F: Fn(&mut WindowsBuilder) -> &mut WindowsBuilder
        requires
            platform == PlatformFamily::Windows ==> plugin_fits::<
                WindowsBuilderComponents,
                WindowsBuilder,
                F,
            >(on_windows_plugin, old(self)@),
            platform == PlatformFamily::Windows ==> forall|
                given: &mut WindowsBuilder,
                back: &mut WindowsBuilder,
            | #[trigger]
                call_ensures(on_windows_plugin, (given,), back) ==> *final(given) == *final(back),
        ensures
            platform != PlatformFamily::Windows ==> builder@ == old(self)@,
            platform == PlatformFamily::Windows ==> merged_by::<
                WindowsBuilderComponents,
                WindowsBuilder,
                F,
            >(on_windows_plugin, old(self)@, builder@),
            *final(self) == *final(builder),
    ;

    /// Merges the macOS extension if `platform` is macOS, as
    /// `on_windows_for` does for Windows.
    fn on_macos_for<F>(&mut self, platform: PlatformFamily, on_macos_plugin: F) -> (builder:
        &mut Self) where F: Fn(&mut MacOSBuilder) -> &mut MacOSBuilder
        requires
            platform == PlatformFamily::MacOS ==> plugin_fits::<
                MacOSBuilderComponents,
                MacOSBuilder,
                F,
            >(on_macos_plugin, old(self)@),
            platform == PlatformFamily::MacOS ==> forall|
                given: &mut MacOSBuilder,
                back: &mut MacOSBuilder,
            | #[trigger]
                call_ensures(on_macos_plugin, (given,), back) ==> *final(given) == *final(back),
        ensures
            platform != PlatformFamily::MacOS ==> builder@ == old(self)@,
            platform == PlatformFamily::MacOS ==> merged_by::<
                MacOSBuilderComponents,
                MacOSBuilder,
                F,
            >(on_macos_plugin, old(self)@, builder@),
            *final(self) == *final(builder),
    ;

    /// Merges the Windows extension if the host is a Windows host. Which
    /// platform the host is of is asked of the running system.
    fn on_windows<F>(&mut self, on_windows_plugin: F) -> (builder: &mut Self) where
        F: Fn(&mut WindowsBuilder) -> &mut WindowsBuilder,

        requires
            plugin_fits::<WindowsBuilderComponents, WindowsBuilder, F>(
                on_windows_plugin,
                old(self)@,
            ),
            forall|given: &mut WindowsBuilder, back: &mut WindowsBuilder| #[trigger]
                call_ensures(on_windows_plugin, (given,), back) ==> *final(given) == *final(back),
        ensures
            builder@ == old(self)@ || merged_by::<WindowsBuilderComponents, WindowsBuilder, F>(
                on_windows_plugin,
                old(self)@,
                builder@,
            ),
            *final(self) == *final(builder),
    ;

    /// Merges the macOS extension if the host is a macOS host.
    fn on_macos<F>(&mut self, on_macos_plugin: F) -> (builder: &mut Self) where
        F: Fn(&mut MacOSBuilder) -> &mut MacOSBuilder,

        requires
            plugin_fits::<MacOSBuilderComponents, MacOSBuilder, F>(on_macos_plugin, old(self)@),
            forall|given: &mut MacOSBuilder, back: &mut MacOSBuilder| #[trigger]
                call_ensures(on_macos_plugin, (given,), back) ==> *final(given) == *final(back),
        ensures
            builder@ == old(self)@ || merged_by::<MacOSBuilderComponents, MacOSBuilder, F>(
                on_macos_plugin,
                old(self)@,
                builder@,
            ),
            *final(self) == *final(builder),
    ;
}

impl IMainBuilder for MainDeviceInfoBuilder {
    fn add_user_name(&mut self) -> (builder: &mut Self) {
        let value = host_user_name();
        self.add_component(&MainBuilderComponents::UserName, value.as_str())
    }

    fn add_device_name(&mut self) -> (builder: &mut Self) {
        let value = host_device_name();
        self.add_component(&MainBuilderComponents::DeviceName, value.as_str())
    }

    fn add_platform_name(&mut self) -> (builder: &mut Self) {
        let platform = host_platform();
        self.add_component(&MainBuilderComponents::OSPlatform, platform.name.as_str())
    }

    fn add_os_distro(&mut self) -> (builder: &mut Self) {
        let value = host_distro();
        self.add_component(&MainBuilderComponents::OSDistro, value.as_str())
    }

    fn add_cpu_arch(&mut self) -> (builder: &mut Self) {
        let value = host_arch();
        self.add_component(&MainBuilderComponents::CpuArch, value.as_str())
    }

    fn on_windows_for<F>(&mut self, platform: PlatformFamily, on_windows_plugin: F) -> (builder:
        &mut Self) where F: Fn(&mut WindowsBuilder) -> &mut WindowsBuilder {
        match platform {
            PlatformFamily::Windows => {
                let mut windows_builder = WindowsBuilder::new();
                on_windows_plugin(&mut windows_builder);
                self.merge_extension(windows_builder.get_components())
            },
            _ => self,
        }
    }

    fn on_macos_for<F>(&mut self, platform: PlatformFamily, on_macos_plugin: F) -> (builder:
        &mut Self) where F: Fn(&mut MacOSBuilder) -> &mut MacOSBuilder {
        match platform {
            PlatformFamily::MacOS => {
                let mut macos_builder = MacOSBuilder::new();
                on_macos_plugin(&mut macos_builder);
                self.merge_extension(macos_builder.get_components())
            },
            _ => self,
        }
    }

    fn on_windows<F>(&mut self, on_windows_plugin: F) -> (builder: &mut Self) where
        F: Fn(&mut WindowsBuilder) -> &mut WindowsBuilder,
     {
        let platform = host_platform();
        self.on_windows_for(platform.family, on_windows_plugin)
    }

    fn on_macos<F>(&mut self, on_macos_plugin: F) -> (builder: &mut Self) where
        F: Fn(&mut MacOSBuilder) -> &mut MacOSBuilder,
     {
        let platform = host_platform();
        self.on_macos_for(platform.family, on_macos_plugin)
    }
}

impl MainDeviceInfoBuilder {
    /// Merges the extension of `platform`, and no other: a host belongs to
    /// one platform family, so one pass over it takes in the keys of one
    /// extension at most. Every key that the pass adds lies in the namespace
    /// of `platform`.
    pub fn on_platform<F, G>(
        &mut self,
        platform: PlatformFamily,
        on_windows_plugin: F,
        on_macos_plugin: G,
    ) -> (builder: &mut Self) where
        F: Fn(&mut WindowsBuilder) -> &mut WindowsBuilder,
        G: Fn(&mut MacOSBuilder) -> &mut MacOSBuilder,

        requires
            platform == PlatformFamily::Windows ==> plugin_fits::<
                WindowsBuilderComponents,
                WindowsBuilder,
                F,
            >(on_windows_plugin, old(self)@),
            platform == PlatformFamily::MacOS ==> plugin_fits::<
                MacOSBuilderComponents,
                MacOSBuilder,
                G,
            >(on_macos_plugin, old(self)@),
            platform == PlatformFamily::Windows ==> forall|
                given: &mut WindowsBuilder,
                back: &mut WindowsBuilder,
            | #[trigger]
                call_ensures(on_windows_plugin, (given,), back) ==> *final(given) == *final(back),
            platform == PlatformFamily::MacOS ==> forall|
                given: &mut MacOSBuilder,
                back: &mut MacOSBuilder,
            | #[trigger]
                call_ensures(on_macos_plugin, (given,), back) ==> *final(given) == *final(back),
        ensures
            match platform {
                PlatformFamily::Windows => merged_by::<
                    WindowsBuilderComponents,
                    WindowsBuilder,
                    F,
                >(on_windows_plugin, old(self)@, builder@),
                PlatformFamily::MacOS => merged_by::<MacOSBuilderComponents, MacOSBuilder, G>(
                    on_macos_plugin,
                    old(self)@,
                    builder@,
                ),
                PlatformFamily::Other => builder@ == old(self)@,
            },
            forall|k: MainBuilderComponents|
                builder@.contains_key(k) && !old(self)@.contains_key(k) ==> match platform {
                    PlatformFamily::Windows => k is WindowsBuilderComponents,
                    PlatformFamily::MacOS => k is MacOSBuilderComponents,
                    PlatformFamily::Other => false,
                },
            *final(self) == *final(builder),
    {
        self.on_windows_for(platform, on_windows_plugin).on_macos_for(platform, on_macos_plugin)
    }
}

impl Default for MainDeviceInfoBuilder {
    fn default() -> (builder: Self)
        ensures
            builder@ == Map::<MainBuilderComponents, Seq<char>>::empty(),
    {
        Self::new()
    }
}

impl IDeviceInfoBuilder<MainBuilderComponents> for MainDeviceInfoBuilder {
    fn get_components(&self) -> (components: &ComponentMap<MainBuilderComponents>) {
        &self._base.components
    }

    fn get_components_mut(&mut self) -> (components: &mut ComponentMap<MainBuilderComponents>) {
        &mut self._base.components
    }
}

} // verus!
