//! Scanning the extension root: which directory entries are installed bundles,
//! and the [`Plugin`] value each one yields.
use vstd::prelude::*;
use crate::manifest::{manifest_of, parse_manifest_document, xml_steps, PluginInfoView};
use crate::plugin::{
    calculate_folder_size, determine_plugin_type, folder_size_text, plugin_type_of, IoFailure,
    Plugin, PluginError, PluginView,
};

verus! {

/// What the file system shows of one entry of the extension root.
#[derive(Clone, Debug)]
pub struct CandidateDir {
    /// The entry's full path.
    pub path: String,
    /// Whether the entry is a directory.
    pub is_dir: bool,
    /// Whether the directory holds a manifest document at its fixed place.
    pub has_manifest: bool,
    /// The manifest's bytes, where it could be read.
    pub manifest: Option<Vec<u8>>,
    /// The lengths of all files under the directory, where it could be walked.
    pub file_lengths: Option<Vec<u64>>,
}

/// What listing the extension root gave.
#[derive(Clone, Debug)]
pub enum RootListing {
    /// The root does not exist: nothing is installed yet.
    Missing,
    /// The root could not be read.
    Failed(IoFailure),
    /// The root's entries.
    Listed(Vec<CandidateDir>),
}

/// What reading a candidate's manifest yields.
pub open spec fn candidate_manifest(c: CandidateDir) -> Result<PluginInfoView, PluginError> {
    match c.manifest {
        Some(m) => manifest_of(xml_steps(m@)),
        None => Err(PluginError::ManifestNotFound),
    }
}

/// The plugin a root entry yields: a directory with a readable, valid manifest
/// is a plugin; anything else is skipped.
pub open spec fn plugin_of(c: CandidateDir) -> Option<PluginView> {
    if !c.is_dir || !c.has_manifest {
        None
    } else {
        match candidate_manifest(c) {
            Ok(info) => Some(
                PluginView {
                    name: info.name,
                    version: info.version,
                    size: folder_size_text(
                        match c.file_lengths {
                            Some(v) => Some(v@),
                            None => None,
                        },
                    ),
                    path: c.path@,
                    plugin_type: plugin_type_of(info.bundle_id),
                },
            ),
            Err(_) => None,
        }
    }
}

/// The plugins of a listing, in listing order.
pub open spec fn plugins_of(cs: Seq<CandidateDir>) -> Seq<PluginView>
    decreases cs.len(),
{
    if cs.len() == 0 {
        Seq::empty()
    } else {
        plugins_of(cs.drop_last()) + match plugin_of(cs.last()) {
            Some(p) => seq![p],
            None => Seq::empty(),
        }
    }
}

pub open spec fn plugins_view(ps: Seq<Plugin>) -> Seq<PluginView> {
    ps.map_values(|p: Plugin| p@)
}

/// The plugin that a root entry yields, if any.
pub fn candidate_plugin(c: &CandidateDir) -> (r: Option<Plugin>)
    ensures
        match r {
            Some(p) => plugin_of(*c) == Some(p@),
            None => plugin_of(*c) is None,
        },
{
    if !c.is_dir || !c.has_manifest {
        return None;
    }
    let parsed = match &c.manifest {
        Some(m) => parse_manifest_document(Some(m.as_slice())),
        None => parse_manifest_document(None),
    };
    match parsed {
        Ok(info) => {
            let plugin_type = determine_plugin_type(info.bundle_id.as_str());
            let size = match &c.file_lengths {
                Some(v) => calculate_folder_size(Some(v)),
                None => calculate_folder_size(None),
            };
            Some(
                Plugin {
                    name: info.name,
                    version: info.version,
                    size,
                    path: c.path.clone(),
                    plugin_type,
                },
            )
        },
        Err(_) => None,
    }
}

/// Lists the installed plugins from a listing of the extension root. A missing
/// root means nothing is installed; entries that are not valid bundles are
/// skipped.
pub fn scan_cep_plugins(listing: &RootListing) -> (r: Result<Vec<Plugin>, PluginError>)
    ensures
        listing is Missing ==> (r matches Ok(v) && v@.len() == 0),
        listing matches RootListing::Failed(k) ==> r == Err::<Vec<Plugin>, PluginError>(
            if k == IoFailure::PermissionDenied {
                PluginError::PermissionDenied
            } else {
                PluginError::DirectoryNotFound
            },
        ),
        listing matches RootListing::Listed(cs) ==> (r matches Ok(v) && plugins_view(v@) == plugins_of(
            cs@,
        )),
{
    match listing {
        RootListing::Missing => Ok(Vec::new()),
        RootListing::Failed(k) => Err(PluginError::from_io(*k)),
        RootListing::Listed(cs) => {
            let mut plugins: Vec<Plugin> = Vec::new();
            let mut i: usize = 0;
            while i < cs.len()
                invariant
                    i <= cs@.len(),
                    plugins_view(plugins@) =~= plugins_of(cs@.subrange(0, i as int)),
                decreases cs.len() - i,
            {
                assert(cs@.subrange(0, i + 1).drop_last() =~= cs@.subrange(0, i as int));
                match candidate_plugin(&cs[i]) {
                    Some(p) => {
                        plugins.push(p);
                    },
                    None => {},
                }
                i = i + 1;
            }
            assert(cs@.subrange(0, i as int) =~= cs@);
            Ok(plugins)
        },
    }
}

} // verus!
