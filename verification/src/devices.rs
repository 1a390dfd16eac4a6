//! Client devices: their types, how a type is named on the command line,
//! in the database and on screen, and new device ids.

use vstd::prelude::*;
use crate::response::decimal;
use crate::text::{ascii_lower, ascii_lower_char, chars_of, eq_ignore_ascii_case, all_white, is_blank, str_eq};

verus! {

/// The kind of a client device.
#[derive(Debug, Clone, Copy, PartialEq, Eq, Structural)]
pub enum DeviceType {
    Windows,
    Linux,
    MacOs,
    Ios,
    Android,
    Router,
    Other,
}

/// A registered device.
#[derive(Debug, Clone)]
pub struct Device {
    pub id: String,
    pub name: String,
    pub device_type: DeviceType,
    pub last_seen: i64,
}

impl DeviceType {
    /// The name stored in the database and used in JSON.
    pub open spec fn stored_name(self) -> Seq<char> {
        match self {
            DeviceType::Windows => "windows"@,
            DeviceType::Linux => "linux"@,
            DeviceType::MacOs => "macos"@,
            DeviceType::Ios => "ios"@,
            DeviceType::Android => "android"@,
            DeviceType::Router => "router"@,
            DeviceType::Other => "other"@,
        }
    }

    /// The name accepted on the command line (the kebab-case variant name).
    pub open spec fn value_name(self) -> Seq<char> {
        match self {
            DeviceType::Windows => "windows"@,
            DeviceType::Linux => "linux"@,
            DeviceType::MacOs => "mac-os"@,
            DeviceType::Ios => "ios"@,
            DeviceType::Android => "android"@,
            DeviceType::Router => "router"@,
            DeviceType::Other => "other"@,
        }
    }

    /// The name stored in the database.
    pub fn as_str(&self) -> (s: &'static str)
        ensures
            s@ == self.stored_name(),
    {
        match self {
            DeviceType::Windows => "windows",
            DeviceType::Linux => "linux",
            DeviceType::MacOs => "macos",
            DeviceType::Ios => "ios",
            DeviceType::Android => "android",
            DeviceType::Router => "router",
            DeviceType::Other => "other",
        }
    }

    /// The variants, in declaration order.
    pub open spec fn all() -> Seq<DeviceType> {
        seq![
            DeviceType::Windows,
            DeviceType::Linux,
            DeviceType::MacOs,
            DeviceType::Ios,
            DeviceType::Android,
            DeviceType::Router,
            DeviceType::Other,
        ]
    }

    /// The command-line name of a device type.
    pub fn value_str(&self) -> (s: &'static str)
        ensures
            s@ == self.value_name(),
    {
        match self {
            DeviceType::Windows => "windows",
            DeviceType::Linux => "linux",
            DeviceType::MacOs => "mac-os",
            DeviceType::Ios => "ios",
            DeviceType::Android => "android",
            DeviceType::Router => "router",
            DeviceType::Other => "other",
        }
    }

    /// The device type whose command-line name equals `s`, ignoring ASCII
    /// case; the first in declaration order.
    pub fn from_str(s: &str) -> (r: Option<DeviceType>)
        ensures
            match r {
                Some(t) => ascii_lower(t.value_name()) == ascii_lower(s@) && exists|i: int|
                    0 <= i < 7 && DeviceType::all()[i] == t && forall|j: int|
                        0 <= j < i ==> ascii_lower(#[trigger] DeviceType::all()[j].value_name())
                            != ascii_lower(s@),
                None => forall|j: int|
                    0 <= j < 7 ==> ascii_lower(#[trigger] DeviceType::all()[j].value_name())
                        != ascii_lower(s@),
            },
    {
        let mut i: usize = 0;
        while i < 7
            invariant
                i <= 7,
                forall|j: int|
                    0 <= j < i ==> ascii_lower(#[trigger] DeviceType::all()[j].value_name())
                        != ascii_lower(s@),
            decreases 7 - i,
        {
            let t = device_type_at(i);
            if eq_ignore_ascii_case(t.value_str(), s) {
                return Some(t);
            }
            i = i + 1;
        }
        None
    }

    /// The device type whose stored name is exactly `s`.
    pub fn from_stored(s: &str) -> (r: Option<DeviceType>)
        ensures
            match r {
                Some(t) => t.stored_name() == s@,
                None => forall|j: int|
                    0 <= j < 7 ==> (#[trigger] DeviceType::all()[j]).stored_name() != s@,
            },
    {
        let mut i: usize = 0;
        while i < 7
            invariant
                i <= 7,
                forall|j: int| 0 <= j < i ==> (#[trigger] DeviceType::all()[j]).stored_name() != s@,
            decreases 7 - i,
        {
            let t = device_type_at(i);
            if str_eq(t.as_str(), s) {
                return Some(t);
            }
            i = i + 1;
        }
        None
    }
}

/// The device type at position `i` of the declaration order.
pub fn device_type_at(i: usize) -> (t: DeviceType)
    requires
        i < 7,
    ensures
        t == DeviceType::all()[i as int],
{
    if i == 0 {
        DeviceType::Windows
    } else if i == 1 {
        DeviceType::Linux
    } else if i == 2 {
        DeviceType::MacOs
    } else if i == 3 {
        DeviceType::Ios
    } else if i == 4 {
        DeviceType::Android
    } else if i == 5 {
        DeviceType::Router
    } else {
        DeviceType::Other
    }
}

/// The label shown for a device type.
pub open spec fn device_label(t: DeviceType) -> Seq<char> {
    match t {
        DeviceType::Windows => "Windows"@,
        DeviceType::Linux => "Linux"@,
        DeviceType::MacOs => "macOS"@,
        DeviceType::Ios => "iOS"@,
        DeviceType::Android => "Android"@,
        DeviceType::Router => "Router"@,
        DeviceType::Other => "Other"@,
    }
}

/// The colour (red, green, blue) a device type is shown in.
pub open spec fn device_color(t: DeviceType) -> (u8, u8, u8) {
    match t {
        DeviceType::Windows => (56, 189, 248),
        DeviceType::Linux => (251, 191, 36),
        DeviceType::MacOs => (167, 139, 250),
        DeviceType::Android => (52, 211, 153),
        DeviceType::Ios => (251, 113, 133),
        DeviceType::Router => (251, 146, 60),
        DeviceType::Other => (148, 163, 184),
    }
}

/// The label and colour of a device type.
pub fn label_and_color(t: DeviceType) -> (r: (&'static str, (u8, u8, u8)))
    ensures
        r.0@ == device_label(t),
        r.1 == device_color(t),
{
    match t {
        DeviceType::Windows => ("Windows", (56, 189, 248)),
        DeviceType::Linux => ("Linux", (251, 191, 36)),
        DeviceType::MacOs => ("macOS", (167, 139, 250)),
        DeviceType::Android => ("Android", (52, 211, 153)),
        DeviceType::Ios => ("iOS", (251, 113, 133)),
        DeviceType::Router => ("Router", (251, 146, 60)),
        DeviceType::Other => ("Other", (148, 163, 184)),
    }
}

/// The escape sequence that sets a 24-bit foreground colour:
/// ESC `[38;2;` r `;` g `;` b `m`, the numbers in decimal.
pub open spec fn rgb_fg_prefix(r: u8, g: u8, b: u8) -> Seq<char> {
    seq!['\x1b', '['] + "38;2;"@ + decimal(r as nat) + ";"@ + decimal(g as nat) + ";"@ + decimal(
        b as nat,
    ) + "m"@
}

/// The escape sequence that resets all styles: ESC `[0m`.
pub open spec fn style_reset() -> Seq<char> {
    seq!['\x1b', '[', '0', 'm']
}

/// Whether `s` is `text` painted in the colour (r, g, b): the text itself
/// where painting is off, or the text between the colour's escape sequence
/// and the reset sequence where it is on.
pub open spec fn painted_rgb(s: Seq<char>, text: Seq<char>, r: u8, g: u8, b: u8) -> bool {
    s == text || s == rgb_fg_prefix(r, g, b) + text + style_reset()
}

/// `text` painted in a 24-bit colour (`yansi::Paint::rgb`, then `to_string`).
/// With painting enabled (yansi's global switch and condition, which depend
/// on the terminal) the text comes between the foreground prefix and the
/// reset suffix; with it disabled the text comes alone. Which of the two
/// holds is left open.
#[verifier::external_body]
fn paint_rgb(text: &str, r: u8, g: u8, b: u8) -> (s: String)
    ensures
        painted_rgb(s@, text@, r, g, b),
{
    yansi::Paint::rgb(text, r, g, b).to_string()
}

/// The label of a device type painted in its colour.
pub fn pretty_device_type(ty: DeviceType) -> (s: String)
    ensures
        painted_rgb(s@, device_label(ty), device_color(ty).0, device_color(ty).1, device_color(ty).2),
{
    let (label, (r, g, b)) = label_and_color(ty);
    paint_rgb(label, r, g, b)
}

/// Whether `c` is an ASCII letter or digit.
pub open spec fn is_alnum(c: char) -> bool {
    ('a' <= c && c <= 'z') || ('A' <= c && c <= 'Z') || ('0' <= c && c <= '9')
}

/// `n` characters drawn uniformly from ASCII letters and digits by a
/// generator seeded from the operating system (`StdRng::try_from_rng(&mut
/// SysRng)`, then `sample_iter(Alphanumeric).take(n)`); `None` where seeding
/// fails.
#[verifier::external_body]
fn sample_alphanumeric(n: usize) -> (r: Option<String>)
    ensures
        r matches Some(s) ==> s@.len() == n && forall|i: int| 0 <= i < n ==> is_alnum(#[trigger] s@[i]),
{
    match <rand::rngs::StdRng as rand::SeedableRng>::try_from_rng(&mut rand::rngs::SysRng) {
        Ok(g) => Some(rand::RngExt::sample_iter(g, rand::distr::Alphanumeric).take(n).map(char::from).collect()),
        Err(_) => None,
    }
}

/// A new random device id: eight ASCII letters or digits; `None` where the
/// system's random generator fails.
pub fn generate_device_id() -> (r: Option<String>)
    ensures
        r matches Some(s) ==> s@.len() == 8 && forall|i: int| 0 <= i < 8 ==> is_alnum(#[trigger] s@[i]),
{
    sample_alphanumeric(8)
}

/// Why a new device was refused.
#[derive(Debug, Clone, Copy, PartialEq, Eq, Structural)]
pub enum DeviceError {
    /// The name is empty once trimmed.
    EmptyName,
    /// The type is not one of the known device types.
    InvalidType,
}

/// Checks the name and parses the type of a device to create.
pub fn validate_new_device(name: &str, device_type: &str) -> (r: Result<DeviceType, DeviceError>)
    ensures
        all_white(name@) ==> r == Err::<DeviceType, DeviceError>(DeviceError::EmptyName),
        !all_white(name@) ==> match DeviceType::from_str_spec(device_type@) {
            Some(t) => r == Ok::<DeviceType, DeviceError>(t),
            None => r == Err::<DeviceType, DeviceError>(DeviceError::InvalidType),
        },
{
    if is_blank(name) {
        return Err(DeviceError::EmptyName);
    }
    match DeviceType::from_str(device_type) {
        Some(t) => {
            proof {
                DeviceType::lemma_from_str_spec(device_type@, t);
            }
            Ok(t)
        },
        None => Err(DeviceError::InvalidType),
    }
}

impl DeviceType {
    /// The first device type, in declaration order, whose command-line name
    /// equals `s` ignoring ASCII case.
    pub open spec fn from_str_spec(s: Seq<char>) -> Option<DeviceType> {
        if exists|i: int| 0 <= i < 7 && ascii_lower(#[trigger] DeviceType::all()[i].value_name()) == ascii_lower(s) {
            let i = choose|i: int| 0 <= i < 7 && ascii_lower(#[trigger] DeviceType::all()[i].value_name()) == ascii_lower(s)
                && forall|j: int| 0 <= j < i ==> ascii_lower(#[trigger] DeviceType::all()[j].value_name()) != ascii_lower(s);
            Some(DeviceType::all()[i])
        } else {
            None
        }
    }

    /// The type found by `from_str` is `from_str_spec`.
    pub proof fn lemma_from_str_spec(s: Seq<char>, t: DeviceType)
        requires
            ascii_lower(t.value_name()) == ascii_lower(s),
            exists|i: int|
                0 <= i < 7 && DeviceType::all()[i] == t && forall|j: int|
                    0 <= j < i ==> ascii_lower(#[trigger] DeviceType::all()[j].value_name())
                        != ascii_lower(s),
        ensures
            DeviceType::from_str_spec(s) == Some(t),
    {
        let i = choose|i: int|
            0 <= i < 7 && DeviceType::all()[i] == t && forall|j: int|
                0 <= j < i ==> ascii_lower(#[trigger] DeviceType::all()[j].value_name())
                    != ascii_lower(s);
        assert(ascii_lower(DeviceType::all()[i].value_name()) == ascii_lower(s));
        let k = choose|k: int| 0 <= k < 7 && ascii_lower(#[trigger] DeviceType::all()[k].value_name()) == ascii_lower(s)
            && forall|j: int| 0 <= j < k ==> ascii_lower(#[trigger] DeviceType::all()[j].value_name()) != ascii_lower(s);
        if k < i {
            assert(ascii_lower(DeviceType::all()[k].value_name()) != ascii_lower(s));
        }
        if i < k {
            assert(ascii_lower(DeviceType::all()[i].value_name()) != ascii_lower(s));
        }
    }
}

/// Position of a device type in declaration order.
pub open spec fn type_index(t: DeviceType) -> int {
    match t {
        DeviceType::Windows => 0,
        DeviceType::Linux => 1,
        DeviceType::MacOs => 2,
        DeviceType::Ios => 3,
        DeviceType::Android => 4,
        DeviceType::Router => 5,
        DeviceType::Other => 6,
    }
}

/// Different device types have command-line names that differ even when
/// ASCII case is ignored.
pub proof fn lemma_value_names_distinct(a: DeviceType, b: DeviceType)
    requires
        a != b,
    ensures
        ascii_lower(a.value_name()) != ascii_lower(b.value_name()),
{
    reveal_strlit("windows");
    reveal_strlit("linux");
    reveal_strlit("mac-os");
    reveal_strlit("ios");
    reveal_strlit("android");
    reveal_strlit("router");
    reveal_strlit("other");
    let x = a.value_name();
    let y = b.value_name();
    if x.len() == y.len() {
        assert(ascii_lower(x)[0] == ascii_lower_char(x[0]));
        assert(ascii_lower(y)[0] == ascii_lower_char(y[0]));
        assert(ascii_lower(x)[0] != ascii_lower(y)[0]);
    } else {
        assert(ascii_lower(x).len() == x.len());
        assert(ascii_lower(y).len() == y.len());
    }
}

/// Law: every device type is read back from its own command-line name.
pub proof fn law_value_name_round_trip(t: DeviceType)
    ensures
        DeviceType::from_str_spec(t.value_name()) == Some(t),
{
    let i = type_index(t);
    assert(DeviceType::all()[i] == t);
    assert forall|j: int| 0 <= j < i implies ascii_lower(
        #[trigger] DeviceType::all()[j].value_name(),
    ) != ascii_lower(t.value_name()) by {
        lemma_value_names_distinct(DeviceType::all()[j], t);
    }
    DeviceType::lemma_from_str_spec(t.value_name(), t);
}

} // verus!
