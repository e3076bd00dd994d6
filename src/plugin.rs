//! Installed plugins: classification by bundle identifier and human-readable sizes.
use vstd::prelude::*;
use crate::text::{decimal, decimal_text, has_prefix, starts_with};

verus! {

/// Where an installed bundle comes from.
#[derive(Clone, Copy, Debug, PartialEq, Eq, Structural)]
pub enum PluginType {
    /// The bundle identifier carries the host vendor's reserved prefix.
    Native,
    /// Any other bundle.
    ThirdParty,
}

/// The kind of an operating-system failure, as far as this library distinguishes it.
#[derive(Clone, Copy, Debug, PartialEq, Eq, Structural)]
pub enum IoFailure {
    NotFound,
    PermissionDenied,
    Other,
}

/// Failures of scanning and of manifest reading.
#[derive(Clone, Copy, Debug, PartialEq, Eq, Structural)]
pub enum PluginError {
    DirectoryNotFound,
    PermissionDenied,
    ManifestNotFound,
    InvalidManifest,
}

impl PluginError {
    /// Maps an operating-system failure met while reading a directory.
    pub fn from_io(kind: IoFailure) -> (r: PluginError)
        ensures
            r == (if kind == IoFailure::PermissionDenied {
                PluginError::PermissionDenied
            } else {
                PluginError::DirectoryNotFound
            }),
    {
        match kind {
            IoFailure::PermissionDenied => PluginError::PermissionDenied,
            _ => PluginError::DirectoryNotFound,
        }
    }

    /// The text shown to a user for this failure.
    pub fn message(&self) -> (r: String)
        ensures
            r@ == plugin_error_text(*self),
    {
        match self {
            PluginError::DirectoryNotFound => String::from_str("Directory not found"),
            PluginError::PermissionDenied => String::from_str("Permission denied"),
            PluginError::ManifestNotFound => String::from_str("Manifest not found"),
            PluginError::InvalidManifest => String::from_str("Invalid manifest"),
        }
    }
}

pub open spec fn plugin_error_text(e: PluginError) -> Seq<char> {
    match e {
        PluginError::DirectoryNotFound => "Directory not found"@,
        PluginError::PermissionDenied => "Permission denied"@,
        PluginError::ManifestNotFound => "Manifest not found"@,
        PluginError::InvalidManifest => "Invalid manifest"@,
    }
}

/// A discovered, installed bundle.
#[derive(Clone, Debug)]
pub struct Plugin {
    pub name: String,
    pub version: String,
    pub size: String,
    pub path: String,
    pub plugin_type: PluginType,
}

/// The abstract value of a [`Plugin`].
pub struct PluginView {
    pub name: Seq<char>,
    pub version: Seq<char>,
    pub size: Seq<char>,
    pub path: Seq<char>,
    pub plugin_type: PluginType,
}

impl View for Plugin {
    type V = PluginView;

    open spec fn view(&self) -> PluginView {
        PluginView {
            name: self.name@,
            version: self.version@,
            size: self.size@,
            path: self.path@,
            plugin_type: self.plugin_type,
        }
    }
}

/// The reserved identifier prefix of the host vendor's own bundles.
pub open spec fn native_prefix() -> Seq<char> {
    "com.adobe."@
}

/// Classification of a bundle identifier.
pub open spec fn plugin_type_of(bundle_id: Seq<char>) -> PluginType {
    if has_prefix(bundle_id, native_prefix()) {
        PluginType::Native
    } else {
        PluginType::ThirdParty
    }
}

/// Classifies a bundle by its identifier: native when it starts with the
/// vendor's reserved prefix, third-party otherwise.
pub fn determine_plugin_type(bundle_id: &str) -> (r: PluginType)
    ensures
        r == plugin_type_of(bundle_id@),
{
    if starts_with(bundle_id, "com.adobe.") {
        PluginType::Native
    } else {
        PluginType::ThirdParty
    }
}

pub const KIB: u64 = 1024;

pub const MIB: u64 = 1048576;

/// `n / unit` in tenths, rounded to nearest with ties to even.
pub open spec fn rounded_tenths(n: nat, unit: nat) -> nat
    recommends
        unit > 0,
{
    let t = (n * 10) / unit;
    let rem = (n * 10) % unit;
    if rem * 2 > unit || (rem * 2 == unit && t % 2 == 1) {
        t + 1
    } else {
        t
    }
}

/// A count of tenths written with one decimal: `12` is `1.2`.
pub open spec fn one_decimal(tenths: nat) -> Seq<char> {
    decimal(tenths / 10) + "."@ + decimal(tenths % 10)
}

/// Human-readable size: bytes below one kilobyte, then kilobytes, then megabytes,
/// with base-1024 thresholds and one decimal for the larger units.
pub open spec fn size_text(bytes: nat) -> Seq<char> {
    if bytes < KIB {
        decimal(bytes) + " B"@
    } else if bytes < MIB {
        one_decimal(rounded_tenths(bytes, KIB as nat)) + " KB"@
    } else {
        one_decimal(rounded_tenths(bytes, MIB as nat)) + " MB"@
    }
}

/// The figure shown for a size of a kilobyte or more is the byte count in the
/// chosen unit rounded to the nearest tenth: it differs from the exact value by
/// at most half a tenth.
pub proof fn lemma_size_rounding(n: nat, unit: nat)
    requires
        unit > 0,
    ensures
        2 * (10 * n) <= 2 * (rounded_tenths(n, unit) * unit) + unit,
        2 * (rounded_tenths(n, unit) * unit) <= 2 * (10 * n) + unit,
{
    let t = (n * 10) / unit;
    let rem = (n * 10) % unit;
    vstd::arithmetic::div_mod::lemma_fundamental_div_mod((n * 10) as int, unit as int);
    vstd::arithmetic::div_mod::lemma_mod_bound((n * 10) as int, unit as int);
    assert((t + 1) * unit == t * unit + unit) by (nonlinear_arith);
    assert(unit * t == t * unit) by (nonlinear_arith);
}

/// The placeholder shown where a size could not be measured.
pub open spec fn unknown_text() -> Seq<char> {
    "Unknown"@
}

fn tenths_text(bytes: u64, unit: u64) -> (r: String)
    requires
        unit > 0,
    ensures
        r@ == one_decimal(rounded_tenths(bytes as nat, unit as nat)),
{
    let scaled: u128 = bytes as u128 * 10;
    let t: u128 = scaled / unit as u128;
    let rem: u128 = scaled % unit as u128;
    let rounded: u128 = if rem * 2 > unit as u128 || (rem * 2 == unit as u128 && t % 2 == 1) {
        t + 1
    } else {
        t
    };
    assert(rounded == rounded_tenths(bytes as nat, unit as nat));
    assert(t <= scaled) by (nonlinear_arith)
        requires
            t == scaled / unit as u128,
            unit > 0,
    ;
    let whole: u64 = (rounded / 10) as u64;
    let frac: u64 = (rounded % 10) as u64;
    let mut s = decimal_text(whole);
    s.append(".");
    let d = decimal_text(frac);
    s.append(d.as_str());
    s
}

/// Formats a byte count for display.
pub fn format_size(bytes: u64) -> (r: String)
    ensures
        r@ == size_text(bytes as nat),
{
    if bytes < KIB {
        let mut s = decimal_text(bytes);
        s.append(" B");
        s
    } else if bytes < MIB {
        let mut s = tenths_text(bytes, KIB);
        s.append(" KB");
        s
    } else {
        let mut s = tenths_text(bytes, MIB);
        s.append(" MB");
        s
    }
}

/// The sum of a sequence of file lengths.
pub open spec fn total_of(lens: Seq<u64>) -> nat
    decreases lens.len(),
{
    if lens.len() == 0 {
        0
    } else {
        total_of(lens.drop_last()) + lens.last() as nat
    }
}

/// Adds up file lengths; `None` when the total does not fit in 64 bits.
pub fn total_size(lens: &Vec<u64>) -> (r: Option<u64>)
    ensures
        r matches Some(t) ==> t as nat == total_of(lens@),
        r is None <==> total_of(lens@) > u64::MAX,
{
    let mut total: u64 = 0;
    let mut i: usize = 0;
    while i < lens.len()
        invariant
            i <= lens.len(),
            total as nat == total_of(lens@.subrange(0, i as int)),
        decreases lens.len() - i,
    {
        assert(lens@.subrange(0, i + 1).drop_last() =~= lens@.subrange(0, i as int));
        if lens[i] > u64::MAX - total {
            proof {
                lemma_total_monotone(lens@, i + 1);
            }
            return None;
        }
        total = total + lens[i];
        i = i + 1;
    }
    assert(lens@.subrange(0, i as int) =~= lens@);
    Some(total)
}

/// Totals over longer prefixes are never smaller.
proof fn lemma_total_monotone(lens: Seq<u64>, k: int)
    requires
        0 <= k <= lens.len(),
    ensures
        total_of(lens.subrange(0, k)) <= total_of(lens),
    decreases lens.len() - k,
{
    if k < lens.len() {
        lemma_total_monotone(lens, k + 1);
        assert(lens.subrange(0, k + 1).drop_last() =~= lens.subrange(0, k));
    } else {
        assert(lens.subrange(0, k) =~= lens);
    }
}

/// The size text of a bundle directory, given the lengths of the files under it
/// (`None` where the directory could not be walked).
pub open spec fn folder_size_text(file_lengths: Option<Seq<u64>>) -> Seq<char> {
    match file_lengths {
        Some(lens) => if total_of(lens) <= u64::MAX {
            size_text(total_of(lens))
        } else {
            unknown_text()
        },
        None => unknown_text(),
    }
}

/// Formats the on-disk size of a bundle from the lengths of its files, or the
/// placeholder "Unknown" where they could not be read.
pub fn calculate_folder_size(file_lengths: Option<&Vec<u64>>) -> (r: String)
    ensures
        r@ == folder_size_text(
            match file_lengths {
                Some(v) => Some(v@),
                None => None,
            },
        ),
{
    let total = match file_lengths {
        Some(v) => total_size(v),
        None => None,
    };
    match total {
        Some(t) => format_size(t),
        None => String::from_str("Unknown"),
    }
}

} // verus!
