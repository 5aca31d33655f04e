//! Client devices: platform, descriptive information, and the rule that
//! decides which devices of one user may be online together.

use crate::strings::{ascii_lower_seq, eq_ignore_ascii_case};
use vstd::prelude::*;

verus! {

/// The platform a client runs on.
#[derive(Debug, Clone, PartialEq, Eq, Hash)]
pub enum DevicePlatform {
    IOS,
    Android,
    Web,
    Windows,
    MacOS,
    Linux,
    Other(String),
}

/// The view of a [`DevicePlatform`].
pub enum PlatformView {
    IOS,
    Android,
    Web,
    Windows,
    MacOS,
    Linux,
    Other(Seq<char>),
}

impl View for DevicePlatform {
    type V = PlatformView;

    open spec fn view(&self) -> PlatformView {
        match self {
            DevicePlatform::IOS => PlatformView::IOS,
            DevicePlatform::Android => PlatformView::Android,
            DevicePlatform::Web => PlatformView::Web,
            DevicePlatform::Windows => PlatformView::Windows,
            DevicePlatform::MacOS => PlatformView::MacOS,
            DevicePlatform::Linux => PlatformView::Linux,
            DevicePlatform::Other(s) => PlatformView::Other(s@),
        }
    }
}

/// Spec of [`DevicePlatform::from_str`]: the known platform names, matched
/// without regard to ASCII case; anything else is kept as `Other`.
pub open spec fn platform_from_name(s: Seq<char>) -> PlatformView {
    let l = ascii_lower_seq(s);
    if l == "ios"@ {
        PlatformView::IOS
    } else if l == "android"@ {
        PlatformView::Android
    } else if l == "web"@ {
        PlatformView::Web
    } else if l == "windows"@ {
        PlatformView::Windows
    } else if l == "macos"@ {
        PlatformView::MacOS
    } else if l == "linux"@ {
        PlatformView::Linux
    } else {
        PlatformView::Other(s)
    }
}

/// The label of a platform in messages (see [`DevicePlatform::label`]).
pub open spec fn platform_label(p: PlatformView) -> Seq<char> {
    match p {
        PlatformView::IOS => "IOS"@,
        PlatformView::Android => "Android"@,
        PlatformView::Web => "Web"@,
        PlatformView::Windows => "Windows"@,
        PlatformView::MacOS => "MacOS"@,
        PlatformView::Linux => "Linux"@,
        PlatformView::Other(s) => "Other(\""@ + s + "\")"@,
    }
}

impl DevicePlatform {
    /// Parses a platform name; unknown names become `Other`.
    pub fn from_str(s: &str) -> (p: DevicePlatform)
        ensures
            p@ == platform_from_name(s@),
    {
        proof {
            reveal_strlit("ios");
            reveal_strlit("android");
            reveal_strlit("web");
            reveal_strlit("windows");
            reveal_strlit("macos");
            reveal_strlit("linux");
            assert(ascii_lower_seq("ios"@) =~= "ios"@);
            assert(ascii_lower_seq("android"@) =~= "android"@);
            assert(ascii_lower_seq("web"@) =~= "web"@);
            assert(ascii_lower_seq("windows"@) =~= "windows"@);
            assert(ascii_lower_seq("macos"@) =~= "macos"@);
            assert(ascii_lower_seq("linux"@) =~= "linux"@);
        }
        if eq_ignore_ascii_case(s, "ios") {
            DevicePlatform::IOS
        } else if eq_ignore_ascii_case(s, "android") {
            DevicePlatform::Android
        } else if eq_ignore_ascii_case(s, "web") {
            DevicePlatform::Web
        } else if eq_ignore_ascii_case(s, "windows") {
            DevicePlatform::Windows
        } else if eq_ignore_ascii_case(s, "macos") {
            DevicePlatform::MacOS
        } else if eq_ignore_ascii_case(s, "linux") {
            DevicePlatform::Linux
        } else {
            DevicePlatform::Other(s.to_owned())
        }
    }

    /// Whether two platforms are the same.
    pub fn same_as(&self, other: &DevicePlatform) -> (r: bool)
        ensures
            r == (self@ == other@),
    {
        match (self, other) {
            (DevicePlatform::IOS, DevicePlatform::IOS) => true,
            (DevicePlatform::Android, DevicePlatform::Android) => true,
            (DevicePlatform::Web, DevicePlatform::Web) => true,
            (DevicePlatform::Windows, DevicePlatform::Windows) => true,
            (DevicePlatform::MacOS, DevicePlatform::MacOS) => true,
            (DevicePlatform::Linux, DevicePlatform::Linux) => true,
            (DevicePlatform::Other(a), DevicePlatform::Other(b)) => crate::strings::str_eq(
                a.as_str(),
                b.as_str(),
            ),
            _ => false,
        }
    }

    /// The platform as written in messages: its variant name, with the
    /// name of an `Other` platform quoted in brackets.
    pub fn label(&self) -> (r: String)
        ensures
            r@ == platform_label(self@),
    {
        match self {
            DevicePlatform::IOS => String::from_str("IOS"),
            DevicePlatform::Android => String::from_str("Android"),
            DevicePlatform::Web => String::from_str("Web"),
            DevicePlatform::Windows => String::from_str("Windows"),
            DevicePlatform::MacOS => String::from_str("MacOS"),
            DevicePlatform::Linux => String::from_str("Linux"),
            DevicePlatform::Other(s) => crate::strings::concat3("Other(\"", s.as_str(), "\")"),
        }
    }

    /// A copy of the platform.
    pub fn copy_platform(&self) -> (p: DevicePlatform)
        ensures
            p@ == self@,
    {
        match self {
            DevicePlatform::IOS => DevicePlatform::IOS,
            DevicePlatform::Android => DevicePlatform::Android,
            DevicePlatform::Web => DevicePlatform::Web,
            DevicePlatform::Windows => DevicePlatform::Windows,
            DevicePlatform::MacOS => DevicePlatform::MacOS,
            DevicePlatform::Linux => DevicePlatform::Linux,
            DevicePlatform::Other(s) => DevicePlatform::Other(s.clone()),
        }
    }
}

/// Textual key/value pairs, keys unique, in insertion order.
pub type StringPairs = Vec<(String, String)>;

/// The view of [`StringPairs`].
pub open spec fn pairs_view(m: Seq<(String, String)>) -> Seq<(Seq<char>, Seq<char>)> {
    m.map_values(|e: (String, String)| (e.0@, e.1@))
}

/// Sets `k` to `v`: the entry with key `k` is replaced in place, or a new
/// entry is appended.
pub open spec fn pairs_insert(m: Seq<(Seq<char>, Seq<char>)>, k: Seq<char>, v: Seq<char>) -> Seq<
    (Seq<char>, Seq<char>),
>
    decreases m.len(),
{
    if m.len() == 0 {
        seq![(k, v)]
    } else if m[0].0 == k {
        seq![(k, v)] + m.drop_first()
    } else {
        seq![m[0]] + pairs_insert(m.drop_first(), k, v)
    }
}

/// The value stored under `k`, if any (the first entry with that key).
pub open spec fn pairs_get(m: Seq<(Seq<char>, Seq<char>)>, k: Seq<char>) -> Option<Seq<char>>
    decreases m.len(),
{
    if m.len() == 0 {
        None
    } else if m[0].0 == k {
        Some(m[0].1)
    } else {
        pairs_get(m.drop_first(), k)
    }
}

proof fn lemma_pairs_insert_at(m: Seq<(Seq<char>, Seq<char>)>, k: Seq<char>, v: Seq<char>, i: int)
    requires
        0 <= i < m.len(),
        m[i].0 == k,
        forall|j: int| 0 <= j < i ==> m[j].0 != k,
    ensures
        pairs_insert(m, k, v) == m.update(i, (k, v)),
    decreases m.len(),
{
    if i == 0 {
        assert(seq![(k, v)] + m.drop_first() =~= m.update(0, (k, v)));
    } else {
        lemma_pairs_insert_at(m.drop_first(), k, v, i - 1);
        assert(seq![m[0]] + m.drop_first().update(i - 1, (k, v)) =~= m.update(i, (k, v)));
    }
}

proof fn lemma_pairs_insert_absent(m: Seq<(Seq<char>, Seq<char>)>, k: Seq<char>, v: Seq<char>)
    requires
        forall|j: int| 0 <= j < m.len() ==> m[j].0 != k,
    ensures
        pairs_insert(m, k, v) == m.push((k, v)),
    decreases m.len(),
{
    if m.len() > 0 {
        lemma_pairs_insert_absent(m.drop_first(), k, v);
        assert(seq![m[0]] + m.drop_first().push((k, v)) =~= m.push((k, v)));
    } else {
        assert(seq![(k, v)] =~= m.push((k, v)));
    }
}

proof fn lemma_pairs_get_at(m: Seq<(Seq<char>, Seq<char>)>, k: Seq<char>, i: int)
    requires
        0 <= i <= m.len(),
        forall|j: int| 0 <= j < i ==> m[j].0 != k,
    ensures
        i < m.len() && m[i].0 == k ==> pairs_get(m, k) == Some(m[i].1),
        i == m.len() ==> pairs_get(m, k) is None,
    decreases m.len(),
{
    if m.len() > 0 && i > 0 {
        lemma_pairs_get_at(m.drop_first(), k, i - 1);
    }
}

/// Sets `key` to `value` in `pairs` (see [`pairs_insert`]).
pub fn string_pairs_insert(pairs: &mut StringPairs, key: String, value: String)
    ensures
        pairs_view(final(pairs)@) == pairs_insert(pairs_view(old(pairs)@), key@, value@),
{
    let ghost m0 = pairs_view(pairs@);
    let mut i: usize = 0;
    while i < pairs.len()
        invariant
            i <= pairs@.len(),
            pairs_view(pairs@) == m0,
            m0 == pairs_view(old(pairs)@),
            forall|j: int| 0 <= j < i ==> m0[j].0 != key@,
        decreases pairs@.len() - i,
    {
        if crate::strings::str_eq(pairs[i].0.as_str(), key.as_str()) {
            proof {
                lemma_pairs_insert_at(m0, key@, value@, i as int);
            }
            pairs.set(i, (key, value));
            assert(pairs_view(pairs@) =~= m0.update(i as int, (key@, value@)));
            return ;
        }
        i += 1;
    }
    proof {
        lemma_pairs_insert_absent(m0, key@, value@);
    }
    pairs.push((key, value));
    assert(pairs_view(pairs@) =~= m0.push((key@, value@)));
}

/// The value stored under `key` in `pairs` (see [`pairs_get`]).
pub fn string_pairs_get<'a>(pairs: &'a StringPairs, key: &str) -> (r: Option<&'a String>)
    ensures
        match r {
            Some(v) => pairs_get(pairs_view(pairs@), key@) == Some(v@),
            None => pairs_get(pairs_view(pairs@), key@) is None,
        },
{
    let ghost m = pairs_view(pairs@);
    let mut i: usize = 0;
    while i < pairs.len()
        invariant
            i <= pairs@.len(),
            m == pairs_view(pairs@),
            forall|j: int| 0 <= j < i ==> m[j].0 != key@,
        decreases pairs@.len() - i,
    {
        if crate::strings::str_eq(pairs[i].0.as_str(), key) {
            proof {
                lemma_pairs_get_at(m, key@, i as int);
            }
            return Some(&pairs[i].1);
        }
        i += 1;
    }
    proof {
        lemma_pairs_get_at(m, key@, i as int);
    }
    None
}

/// A copy of a list of string pairs.
pub fn copy_string_pairs(pairs: &StringPairs) -> (r: StringPairs)
    ensures
        pairs_view(r@) == pairs_view(pairs@),
{
    let mut r: StringPairs = Vec::new();
    let mut i: usize = 0;
    while i < pairs.len()
        invariant
            i <= pairs@.len(),
            pairs_view(r@) == pairs_view(pairs@).subrange(0, i as int),
        decreases pairs@.len() - i,
    {
        let k = pairs[i].0.clone();
        let v = pairs[i].1.clone();
        let ghost before = r@;
        r.push((k, v));
        assert(r@ == before.push((k, v)));
        assert(pairs_view(r@) =~= pairs_view(before).push((k@, v@)));
        assert(pairs_view(pairs@)[i as int] == (pairs@[i as int].0@, pairs@[i as int].1@));
        assert(pairs_view(r@) =~= pairs_view(pairs@).subrange(0, i + 1));
        i += 1;
    }
    assert(pairs_view(pairs@).subrange(0, pairs@.len() as int) =~= pairs_view(pairs@));
    r
}

/// Copies an optional string.
pub fn copy_opt_string(s: &Option<String>) -> (r: Option<String>)
    ensures
        opt_view(r) == opt_view(*s),
{
    match s {
        Some(v) => Some(v.clone()),
        None => None,
    }
}

/// The view of an optional string.
pub open spec fn opt_view(s: Option<String>) -> Option<Seq<char>> {
    match s {
        Some(v) => Some(v@),
        None => None,
    }
}

/// Information a client reports about its device.
#[derive(Debug, Clone)]
pub struct DeviceInfo {
    pub device_id: String,
    pub platform: DevicePlatform,
    pub model: Option<String>,
    pub app_version: Option<String>,
    pub system_version: Option<String>,
    pub metadata: StringPairs,
}

/// The view of a [`DeviceInfo`].
pub struct DeviceInfoView {
    pub device_id: Seq<char>,
    pub platform: PlatformView,
    pub model: Option<Seq<char>>,
    pub app_version: Option<Seq<char>>,
    pub system_version: Option<Seq<char>>,
    pub metadata: Seq<(Seq<char>, Seq<char>)>,
}

impl View for DeviceInfo {
    type V = DeviceInfoView;

    open spec fn view(&self) -> DeviceInfoView {
        DeviceInfoView {
            device_id: self.device_id@,
            platform: self.platform@,
            model: opt_view(self.model),
            app_version: opt_view(self.app_version),
            system_version: opt_view(self.system_version),
            metadata: pairs_view(self.metadata@),
        }
    }
}

impl DeviceInfo {
    /// A device with the given id and platform and nothing else known.
    pub fn new(device_id: String, platform: DevicePlatform) -> (d: DeviceInfo)
        ensures
            d@ == (DeviceInfoView {
                device_id: device_id@,
                platform: platform@,
                model: None,
                app_version: None,
                system_version: None,
                metadata: Seq::empty(),
            }),
    {
        let d = DeviceInfo {
            device_id,
            platform,
            model: None,
            app_version: None,
            system_version: None,
            metadata: Vec::new(),
        };
        assert(d@.metadata =~= Seq::empty());
        d
    }

    /// Sets the device model.
    pub fn with_model(self, model: String) -> (d: DeviceInfo)
        ensures
            d@ == (DeviceInfoView { model: Some(model@), ..self@ }),
    {
        DeviceInfo { model: Some(model), ..self }
    }

    /// Sets the application version.
    pub fn with_app_version(self, app_version: String) -> (d: DeviceInfo)
        ensures
            d@ == (DeviceInfoView { app_version: Some(app_version@), ..self@ }),
    {
        DeviceInfo { app_version: Some(app_version), ..self }
    }

    /// Sets the operating system version.
    pub fn with_system_version(self, system_version: String) -> (d: DeviceInfo)
        ensures
            d@ == (DeviceInfoView { system_version: Some(system_version@), ..self@ }),
    {
        DeviceInfo { system_version: Some(system_version), ..self }
    }

    /// Sets one metadata entry.
    pub fn with_metadata(self, key: String, value: String) -> (d: DeviceInfo)
        ensures
            d@ == (DeviceInfoView {
                metadata: pairs_insert(self@.metadata, key@, value@),
                ..self@
            }),
    {
        let mut d = self;
        string_pairs_insert(&mut d.metadata, key, value);
        d
    }

    /// The metadata value stored under `key`.
    pub fn metadata_get(&self, key: &str) -> (r: Option<&String>)
        ensures
            match r {
                Some(v) => pairs_get(self@.metadata, key@) == Some(v@),
                None => pairs_get(self@.metadata, key@) is None,
            },
    {
        string_pairs_get(&self.metadata, key)
    }

    /// A copy of the device information.
    pub fn copy_info(&self) -> (d: DeviceInfo)
        ensures
            d@ == self@,
    {
        DeviceInfo {
            device_id: self.device_id.clone(),
            platform: self.platform.copy_platform(),
            model: copy_opt_string(&self.model),
            app_version: copy_opt_string(&self.app_version),
            system_version: copy_opt_string(&self.system_version),
            metadata: copy_string_pairs(&self.metadata),
        }
    }
}

} // verus!

verus! {

/// Which devices of one user may stay online together.
#[derive(Debug, Clone, Copy, PartialEq, Eq, Structural, Hash)]
pub enum DeviceConflictStrategy {
    /// Any number of devices, on any platforms.
    AllowMultiple,
    /// At most one device per platform: a new device replaces the user's
    /// devices on the same platform.
    PlatformExclusive,
    /// At most one device: a new device replaces all of the user's devices.
    SingleDevice,
}

/// Whether a device on `new_p` displaces an online device on `old_p`.
pub open spec fn displaces(s: DeviceConflictStrategy, new_p: PlatformView, old_p: PlatformView) -> bool {
    match s {
        DeviceConflictStrategy::AllowMultiple => false,
        DeviceConflictStrategy::PlatformExclusive => new_p == old_p,
        DeviceConflictStrategy::SingleDevice => true,
    }
}

impl DeviceConflictStrategy {
    /// The default strategy: multiple devices allowed.
    pub fn default() -> (s: DeviceConflictStrategy)
        ensures
            s == DeviceConflictStrategy::AllowMultiple,
    {
        DeviceConflictStrategy::AllowMultiple
    }

    /// Whether a device on `new_platform` displaces one on `old_platform`.
    pub fn displaces(&self, new_platform: &DevicePlatform, old_platform: &DevicePlatform) -> (r: bool)
        ensures
            r == displaces(*self, new_platform@, old_platform@),
    {
        match self {
            DeviceConflictStrategy::AllowMultiple => false,
            DeviceConflictStrategy::PlatformExclusive => new_platform.same_as(old_platform),
            DeviceConflictStrategy::SingleDevice => true,
        }
    }
}


/// Device metadata read-after-write: after setting `k` to `v`, reading `k`
/// gives `v`, and every other key reads as before.
pub proof fn lemma_pairs_read_after_write(m: Seq<(Seq<char>, Seq<char>)>, k: Seq<char>, v: Seq<char>, other: Seq<char>)
    ensures
        pairs_get(pairs_insert(m, k, v), k) == Some(v),
        other != k ==> pairs_get(pairs_insert(m, k, v), other) == pairs_get(m, other),
    decreases m.len(),
{
    if m.len() == 0 {
        assert(pairs_insert(m, k, v).drop_first() =~= Seq::<(Seq<char>, Seq<char>)>::empty());
        assert(pairs_insert(m, k, v)[0] == (k, v));
        assert(pairs_get(pairs_insert(m, k, v).drop_first(), other) == None::<Seq<char>>);
    } else if m[0].0 == k {
        assert((seq![(k, v)] + m.drop_first()).drop_first() =~= m.drop_first());
        assert((seq![(k, v)] + m.drop_first())[0] == (k, v));
        if other != k {
            assert(pairs_get(pairs_insert(m, k, v), other) == pairs_get(m.drop_first(), other));
        }
    } else {
        lemma_pairs_read_after_write(m.drop_first(), k, v, other);
        assert((seq![m[0]] + pairs_insert(m.drop_first(), k, v)).drop_first() =~= pairs_insert(m.drop_first(), k, v));
        assert((seq![m[0]] + pairs_insert(m.drop_first(), k, v))[0] == m[0]);
        if other != k && m[0].0 != other {
            assert(pairs_get(pairs_insert(m, k, v), other) == pairs_get(pairs_insert(m.drop_first(), k, v), other));
        }
    }
}

} // verus!
