//! Archive installation and removal of bundles: extension check, install target,
//! entry-path safety, and the decisions around the outside file operations.
use vstd::prelude::*;
use std::io::Cursor;
use std::io::Read;
use zip::ZipArchive;
use crate::manifest::{manifest_of, parse_manifest_xml, xml_steps, PluginInfoView};
use crate::plugin::PluginError;
use crate::plugin::IoFailure;
use crate::text::{find_first, occurs_at};

verus! {

/// Failures of file selection, installation and removal.
#[derive(Clone, Copy, Debug, PartialEq, Eq, Structural)]
pub enum FileOperationError {
    DialogCancelled,
    InvalidExtension,
    FileNotFound,
    PermissionDenied,
    InvalidZip,
    ExtractError,
}

pub open spec fn file_error_text(e: FileOperationError) -> Seq<char> {
    match e {
        FileOperationError::DialogCancelled => "File dialog was cancelled"@,
        FileOperationError::InvalidExtension => "File must have .zxp extension"@,
        FileOperationError::FileNotFound => "File not found"@,
        FileOperationError::PermissionDenied => "Permission denied"@,
        FileOperationError::InvalidZip => "Invalid or corrupt ZXP file"@,
        FileOperationError::ExtractError => "Failed to extract ZXP file"@,
    }
}

impl FileOperationError {
    /// Maps an operating-system failure met while creating or deleting a directory.
    pub fn from_io(kind: IoFailure) -> (r: FileOperationError)
        ensures
            r == (if kind == IoFailure::PermissionDenied {
                FileOperationError::PermissionDenied
            } else {
                FileOperationError::ExtractError
            }),
    {
        match kind {
            IoFailure::PermissionDenied => FileOperationError::PermissionDenied,
            _ => FileOperationError::ExtractError,
        }
    }

    /// The text shown to a user for this failure.
    pub fn message(&self) -> (r: String)
        ensures
            r@ == file_error_text(*self),
    {
        match self {
            FileOperationError::DialogCancelled => String::from_str("File dialog was cancelled"),
            FileOperationError::InvalidExtension => String::from_str("File must have .zxp extension"),
            FileOperationError::FileNotFound => String::from_str("File not found"),
            FileOperationError::PermissionDenied => String::from_str("Permission denied"),
            FileOperationError::InvalidZip => String::from_str("Invalid or corrupt ZXP file"),
            FileOperationError::ExtractError => String::from_str("Failed to extract ZXP file"),
        }
    }
}

/// Position `e` ends `s[..e]` with a slash or with a `.` segment.
pub open spec fn ends_with_skippable(s: Seq<char>, e: int) -> bool {
    e > 0 && (s[e - 1] == '/' || (s[e - 1] == '.' && (e == 1 || s[e - 2] == '/')))
}

/// The end of `s[..e]` once trailing slashes and `.` segments are dropped.
pub open spec fn trim_end(s: Seq<char>, e: int) -> int
    decreases e,
{
    if ends_with_skippable(s, e) {
        trim_end(s, e - 1)
    } else {
        e
    }
}

/// The last position in `lo..e` that holds `c`, or `lo - 1` where there is none.
pub open spec fn last_before(s: Seq<char>, c: char, lo: int, e: int) -> int
    decreases e - lo,
{
    if e <= lo {
        lo - 1
    } else if s[e - 1] == c {
        e - 1
    } else {
        last_before(s, c, lo, e - 1)
    }
}

/// The archive extension, in any letter case.
pub open spec fn is_zxp_text(e: Seq<char>) -> bool {
    e.len() == 3 && (e[0] == 'z' || e[0] == 'Z') && (e[1] == 'x' || e[1] == 'X') && (e[2] == 'p'
        || e[2] == 'P')
}

/// The file name of `path` is its last segment after trailing slashes and `.`
/// segments are dropped; its extension follows the last dot of the name, where that dot is not
/// the name's first character. The path is an archive path when the extension is
/// `zxp` in any letter case.
pub open spec fn zxp_extension(path: Seq<char>) -> bool {
    let end = trim_end(path, path.len() as int);
    let start = last_before(path, '/', 0, end) + 1;
    let dot = last_before(path, '.', start, end);
    dot > start && is_zxp_text(path.subrange(dot + 1, end))
}

fn last_position(s: &str, c: char, lo: usize, e: usize) -> (r: Option<usize>)
    requires
        lo <= e <= s@.len(),
    ensures
        r matches Some(k) ==> k as int == last_before(s@, c, lo as int, e as int) && lo <= k < e,
        r is None ==> last_before(s@, c, lo as int, e as int) == lo - 1,
{
    let mut k: usize = e;
    while k > lo
        invariant
            lo <= k <= e <= s@.len(),
            last_before(s@, c, lo as int, k as int) == last_before(s@, c, lo as int, e as int),
        decreases k,
    {
        if s.get_char(k - 1) == c {
            return Some(k - 1);
        }
        k = k - 1;
    }
    None
}

/// Does the path name a file with the archive extension, in any letter case?
pub fn is_valid_zxp_extension(file_path: &str) -> (r: bool)
    ensures
        r == zxp_extension(file_path@),
{
    let n = file_path.unicode_len();
    let mut end: usize = n;
    while end > 0 && (file_path.get_char(end - 1) == '/' || (file_path.get_char(end - 1) == '.' && (
    end == 1 || file_path.get_char(end - 2) == '/')))
        invariant
            end <= n == file_path@.len(),
            trim_end(file_path@, end as int) == trim_end(file_path@, n as int),
        decreases end,
    {
        end = end - 1;
    }
    let start: usize = match last_position(file_path, '/', 0, end) {
        Some(k) => k + 1,
        None => 0,
    };
    let dot = match last_position(file_path, '.', start, end) {
        Some(d) => d,
        None => {
            return false;
        },
    };
    if dot <= start || end - dot != 4 {
        return false;
    }
    let z = file_path.get_char(dot + 1);
    let x = file_path.get_char(dot + 2);
    let p = file_path.get_char(dot + 3);
    (z == 'z' || z == 'Z') && (x == 'x' || x == 'X') && (p == 'p' || p == 'P')
}

/// The marker that introduces a panel-scoped suffix of a bundle identifier.
pub open spec fn panel_marker() -> Seq<char> {
    ".panel"@
}

/// The first occurrence of `pat` in `s`.
pub open spec fn is_first_occurrence(s: Seq<char>, pat: Seq<char>, i: int) -> bool {
    occurs_at(s, pat, i) && forall|j: int| 0 <= j < i ==> !occurs_at(s, pat, j)
}

/// The directory name a bundle installs under: its identifier up to the first
/// panel marker, or the whole identifier where there is none.
pub open spec fn install_name(bundle_id: Seq<char>) -> Seq<char> {
    if exists|i: int| occurs_at(bundle_id, panel_marker(), i) {
        bundle_id.subrange(0, choose|i: int| is_first_occurrence(bundle_id, panel_marker(), i))
    } else {
        bundle_id
    }
}

/// Derives the install directory name from a bundle identifier.
pub fn install_dir_name(bundle_id: &str) -> (r: String)
    ensures
        r@ == install_name(bundle_id@),
{
    proof {
        reveal_strlit(".panel");
    }
    match find_first(bundle_id, ".panel") {
        Some(i) => {
            proof {
                assert(is_first_occurrence(bundle_id@, panel_marker(), i as int));
                let k = choose|k: int| is_first_occurrence(bundle_id@, panel_marker(), k);
                if k < i {
                    assert(!occurs_at(bundle_id@, panel_marker(), k));
                } else if k > i {
                    assert(!occurs_at(bundle_id@, panel_marker(), i as int));
                }
            }
            String::from_str(bundle_id.substring_char(0, i))
        },
        None => String::from_str(bundle_id),
    }
}

/// The fixed directory under which all bundles are installed.
pub open spec fn extensions_root() -> Seq<char> {
    "/Library/Application Support/Adobe/CEP/extensions/"@
}

/// The directory that a bundle of the given install name occupies.
pub open spec fn target_path(name: Seq<char>) -> Seq<char> {
    extensions_root() + name
}

/// Where a bundle's manifest sits, inside its directory and inside an archive.
pub open spec fn manifest_entry() -> Seq<char> {
    "CSXS/manifest.xml"@
}

pub open spec fn is_separator(c: char) -> bool {
    c == '/' || c == '\\'
}

/// A `..` segment of an entry path starts at position `i`.
pub open spec fn parent_segment_at(name: Seq<char>, i: int) -> bool {
    occurs_at(name, ".."@, i) && (i == 0 || is_separator(name[i - 1])) && (i + 2 == name.len()
        || is_separator(name[i + 2]))
}

/// An entry path that would leave the target directory: absolute, or holding a
/// parent-directory segment at any depth.
pub open spec fn entry_escapes(name: Seq<char>) -> bool {
    (name.len() > 0 && is_separator(name[0])) || exists|i: int| parent_segment_at(name, i)
}

fn separator_at(s: &str, i: usize) -> (r: bool)
    requires
        i < s@.len(),
    ensures
        r == is_separator(s@[i as int]),
{
    let c = s.get_char(i);
    c == '/' || c == '\\'
}

/// Would extracting an entry of this path leave the target directory?
pub fn entry_path_escapes(name: &str) -> (r: bool)
    ensures
        r == entry_escapes(name@),
{
    proof {
        reveal_strlit("..");
    }
    let n = name.unicode_len();
    if n > 0 && separator_at(name, 0) {
        return true;
    }
    let mut i: usize = 0;
    while n >= 2 && i <= n - 2
        invariant
            n == name@.len(),
            forall|j: int| 0 <= j < i ==> !parent_segment_at(name@, j),
        decreases n - i,
    {
        proof {
            reveal_strlit("..");
        }
        if name.get_char(i) == '.' && name.get_char(i + 1) == '.' && (i == 0 || separator_at(
            name,
            i - 1,
        )) && (i + 2 == n || separator_at(name, i + 2)) {
            assert(name@.subrange(i as int, i + 2) =~= ".."@);
            assert(parent_segment_at(name@, i as int));
            return true;
        }
        assert(!parent_segment_at(name@, i as int)) by {
            if occurs_at(name@, ".."@, i as int) {
                assert(name@.subrange(i as int, i + 2)[0] == name@[i as int]);
                assert(name@.subrange(i as int, i + 2)[1] == name@[i + 1]);
            }
        }
        i = i + 1;
    }
    assert forall|j: int| !parent_segment_at(name@, j) by {
        if parent_segment_at(name@, j) {
            assert(j < i);
        }
    }
    false
}

/// What installing yields from an archive's entry paths and the contents of its
/// manifest entry (`None` where it is absent or unreadable): the target
/// directory, or the failure.
pub open spec fn plan_outcome(names: Seq<Seq<char>>, manifest: Option<Seq<u8>>) -> Result<
    Seq<char>,
    FileOperationError,
> {
    match manifest {
        None => Err(FileOperationError::InvalidZip),
        Some(m) => match manifest_of(xml_steps(m)) {
            Err(_) => Err(FileOperationError::InvalidZip),
            Ok(info) => if exists|i: int| 0 <= i < names.len() && entry_escapes(#[trigger] names[i]) {
                Err(FileOperationError::ExtractError)
            } else {
                Ok(target_path(install_name(info.bundle_id)))
            },
        },
    }
}

/// An archive with an entry path that holds a parent-directory segment, at any
/// depth, is never installed: with a usable manifest it fails as an extraction
/// error, and in no case does it succeed.
pub proof fn lemma_parent_segment_rejected(
    names: Seq<Seq<char>>,
    manifest: Option<Seq<u8>>,
    i: int,
    k: int,
)
    requires
        0 <= i < names.len(),
        parent_segment_at(names[i], k),
    ensures
        plan_outcome(names, manifest) is Err,
        manifest matches Some(m) && manifest_of(xml_steps(m)) is Ok ==> plan_outcome(names, manifest)
            == Err::<Seq<char>, FileOperationError>(FileOperationError::ExtractError),
{
    assert(entry_escapes(names[i]));
}

/// Installing is repeatable: once the path passes the extension check, the
/// target directory and the entries written depend on the archive's bytes alone,
/// not on the path nor on anything an earlier install left on disk. Installing
/// the same archive again, under the same or another name, has the same outcome.
pub proof fn lemma_install_repeatable(path: Seq<char>, path_again: Seq<char>, data: Seq<u8>)
    requires
        zxp_extension(path),
        zxp_extension(path_again),
    ensures
        install_outcome(path_again, true, Some(data)) == install_outcome(path, true, Some(data)),
        install_outcome(path, true, Some(data)) is Ok ==> zip_directory(data) is Some,
{
}

/// A successful install stays under the extension root.
pub proof fn lemma_target_under_root(names: Seq<Seq<char>>, manifest: Option<Seq<u8>>)
    ensures
        plan_outcome(names, manifest) matches Ok(t) ==> t.subrange(0, extensions_root().len() as int)
            == extensions_root(),
{
    if let Ok(t) = plan_outcome(names, manifest) {
        assert(t.subrange(0, extensions_root().len() as int) =~= extensions_root());
    }
}

pub open spec fn names_view(names: Seq<String>) -> Seq<Seq<char>> {
    names.map_values(|s: String| s@)
}

pub open spec fn text_result_view(r: Result<String, FileOperationError>) -> Result<Seq<char>, FileOperationError> {
    match r {
        Ok(s) => Ok(s@),
        Err(e) => Err(e),
    }
}

/// Decides where an archive installs, from its entry paths and the contents of
/// its manifest entry.
pub fn plan_install(entry_names: &Vec<String>, manifest: Option<&[u8]>) -> (r: Result<String, FileOperationError>)
    ensures
        text_result_view(r) == plan_outcome(
            names_view(entry_names@),
            match manifest {
                Some(m) => Some(m@),
                None => None,
            },
        ),
{
    let text = match manifest {
        Some(m) => m,
        None => {
            return Err(FileOperationError::InvalidZip);
        },
    };
    let info = match parse_manifest_xml(text) {
        Ok(info) => info,
        Err(_) => {
            return Err(FileOperationError::InvalidZip);
        },
    };
    let ghost names = names_view(entry_names@);
    let mut i: usize = 0;
    while i < entry_names.len()
        invariant
            i <= entry_names@.len(),
            names == names_view(entry_names@),
            manifest == Some(text),
            manifest_of(xml_steps(text@)) == Ok::<PluginInfoView, PluginError>(info@),
            forall|j: int| 0 <= j < i ==> !entry_escapes(#[trigger] names[j]),
        decreases entry_names.len() - i,
    {
        if entry_path_escapes(entry_names[i].as_str()) {
            assert(entry_escapes(names[i as int]));
            assert(exists|j: int| 0 <= j < names.len() && entry_escapes(#[trigger] names[j]));
            return Err(FileOperationError::ExtractError);
        }
        i = i + 1;
    }
    let dir = install_dir_name(info.bundle_id.as_str());
    let mut target = String::from_str("/Library/Application Support/Adobe/CEP/extensions/");
    target.append(dir.as_str());
    Ok(target)
}

/// std's in-memory reader, which holds the bytes of an archive being installed.
#[verifier::external_type_specification]
#[verifier::external_body]
#[verifier::reject_recursive_types(T)]
pub struct ExCursor<T>(Cursor<T>);

/// zip's archive reader, opaque here: its entry list is named by `archive_names`.
#[verifier::external_type_specification]
#[verifier::external_body]
#[verifier::reject_recursive_types(R)]
pub struct ExZipArchive<R>(ZipArchive<R>);

pub type Archive = ZipArchive<Cursor<Vec<u8>>>;

/// The distinct entry paths that zip's reader finds in the central directory of
/// some bytes, each at the position of its first occurrence, or `None` where it
/// cannot open them as an archive.
pub uninterp spec fn zip_directory(data: Seq<u8>) -> Option<Seq<Seq<char>>>;

/// The contents of the entry at a path in the archive held by some bytes, or
/// `None` where there is no such entry or it cannot be read.
pub uninterp spec fn zip_entry_bytes(data: Seq<u8>, name: Seq<char>) -> Option<Seq<u8>>;

/// The entry paths of an open archive, as `zip_directory` gives them.
pub uninterp spec fn archive_names(a: Archive) -> Seq<Seq<char>>;

/// The bytes that an open archive reads from.
pub uninterp spec fn archive_bytes(a: Archive) -> Seq<u8>;


/// Relies on `zip::ZipArchive::new`: it reads the central directory of the bytes,
/// which decide whether the archive opens and which entries it lists.
#[verifier::external_body]
fn open_archive(data: Vec<u8>) -> (r: Option<Archive>)
    ensures
        r.is_some() == zip_directory(data@).is_some(),
        r matches Some(a) ==> zip_directory(data@) == Some(archive_names(a)) && archive_bytes(a)
            == data@,
{
    ZipArchive::new(Cursor::new(data)).ok()
}

/// Relies on `zip::ZipArchive::len`: the number of entries.
#[verifier::external_body]
fn archive_len(a: &Archive) -> (r: usize)
    ensures
        r == archive_names(*a).len(),
{
    a.len()
}

/// Relies on `zip::ZipArchive::name_for_index`: the path of the entry at an index.
#[verifier::external_body]
fn archive_entry_name(a: &Archive, i: usize) -> (r: String)
    requires
        i < archive_names(*a).len(),
    ensures
        r@ == archive_names(*a)[i as int],
{
    match a.name_for_index(i) {
        Some(n) => n.to_string(),
        None => String::new(),
    }
}

/// Relies on `zip::ZipArchive::by_name` and reading the entry found to its end:
/// the contents depend on the archive's bytes and the path alone, an entry that the archive
/// does not list is never found, and reading leaves the archive's entries as
/// they are.
#[verifier::external_body]
fn read_entry_bytes(a: &mut Archive, name: &str) -> (r: Option<Vec<u8>>)
    ensures
        bytes_option_view(r) == zip_entry_bytes(archive_bytes(*old(a)), name@),
        archive_names(*final(a)) == archive_names(*old(a)),
        archive_bytes(*final(a)) == archive_bytes(*old(a)),
        r is Some ==> archive_names(*old(a)).contains(name@),
{
    let mut contents = Vec::new();
    match a.by_name(name) {
        Ok(mut entry) => entry.read_to_end(&mut contents).ok().map(|_| contents),
        Err(_) => None,
    }
}

/// An archive ready to be extracted into its target directory.
pub struct InstallPlan {
    pub target_dir: String,
    pub entry_names: Vec<String>,
    pub archive: Archive,
}

pub open spec fn plan_result_view(r: Result<InstallPlan, FileOperationError>) -> Result<Seq<char>, FileOperationError> {
    match r {
        Ok(p) => Ok(p.target_dir@),
        Err(e) => Err(e),
    }
}

/// What installing a file yields: the checks on the path, then on the archive
/// that its bytes hold, then on the archive's entries and manifest.
pub open spec fn install_outcome(path: Seq<char>, exists: bool, contents: Option<Seq<u8>>) -> Result<
    Seq<char>,
    FileOperationError,
> {
    if !exists {
        Err(FileOperationError::FileNotFound)
    } else if !zxp_extension(path) {
        Err(FileOperationError::InvalidExtension)
    } else {
        match contents {
            None => Err(FileOperationError::FileNotFound),
            Some(d) => match zip_directory(d) {
                None => Err(FileOperationError::InvalidZip),
                Some(names) => plan_outcome(names, zip_entry_bytes(d, manifest_entry())),
            },
        }
    }
}

pub open spec fn bytes_option_view(b: Option<Vec<u8>>) -> Option<Seq<u8>> {
    match b {
        Some(v) => Some(v@),
        None => None,
    }
}

/// Validates an archive and decides where it installs. `exists` tells whether
/// the path exists, and `contents` holds the file's bytes where it could be read.
pub fn install_zxp(zxp_path: &str, path_exists: bool, contents: Option<Vec<u8>>) -> (r: Result<InstallPlan, FileOperationError>)
    ensures
        plan_result_view(r) == install_outcome(zxp_path@, path_exists, bytes_option_view(contents)),
        path_exists && zxp_extension(zxp_path@) ==> (contents matches Some(d) ==> (zip_directory(d@) matches Some(
            names,
        ) ==> (!names.contains(manifest_entry()) ==> r == Err::<InstallPlan, FileOperationError>(
            FileOperationError::InvalidZip,
        )))),
        r matches Ok(p) ==> (contents matches Some(d) && zip_directory(d@) == Some(names_view(p.entry_names@))
            && archive_names(p.archive) == names_view(p.entry_names@) && archive_bytes(p.archive) == d@),
{
    if !path_exists {
        return Err(FileOperationError::FileNotFound);
    }
    if !is_valid_zxp_extension(zxp_path) {
        return Err(FileOperationError::InvalidExtension);
    }
    let data = match contents {
        Some(d) => d,
        None => {
            return Err(FileOperationError::FileNotFound);
        },
    };
    let mut archive = match open_archive(data) {
        Some(a) => a,
        None => {
            return Err(FileOperationError::InvalidZip);
        },
    };
    let ghost names = archive_names(archive);
    let n = archive_len(&archive);
    let mut entry_names: Vec<String> = Vec::new();
    let mut i: usize = 0;
    while i < n
        invariant
            n == names.len(),
            archive_names(archive) == names,
            i <= n,
            entry_names@.len() == i,
            names_view(entry_names@) =~= names.subrange(0, i as int),
        decreases n - i,
    {
        let name = archive_entry_name(&archive, i);
        entry_names.push(name);
        assert(names_view(entry_names@) =~= names.subrange(0, i + 1));
        i = i + 1;
    }
    assert(names_view(entry_names@) =~= names);
    let manifest = read_entry_bytes(&mut archive, "CSXS/manifest.xml");
    let planned = match &manifest {
        Some(m) => plan_install(&entry_names, Some(m.as_slice())),
        None => plan_install(&entry_names, None),
    };
    match planned {
        Ok(target_dir) => Ok(InstallPlan { target_dir, entry_names, archive }),
        Err(e) => Err(e),
    }
}

/// Decides whether a bundle directory may be deleted: the path must exist and be
/// a directory.
pub fn check_removable(exists: bool, is_dir: bool) -> (r: Result<(), FileOperationError>)
    ensures
        !exists ==> r == Err::<(), FileOperationError>(FileOperationError::FileNotFound),
        exists && !is_dir ==> r == Err::<(), FileOperationError>(FileOperationError::InvalidExtension),
        exists && is_dir ==> r is Ok,
{
    if !exists {
        Err(FileOperationError::FileNotFound)
    } else if !is_dir {
        Err(FileOperationError::InvalidExtension)
    } else {
        Ok(())
    }
}

} // verus!
