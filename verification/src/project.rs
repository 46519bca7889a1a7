//! Project identification and configuration: the directory-walk detection
//! rule, the configuration records and their documented defaults.

use vstd::prelude::*;

verus! {

use crate::errors::Error;
use crate::text::base_name_of;
use crate::text::base_name;
use crate::toml_values::toml_wf;
use crate::toml_values::toml_str_field_of;
use crate::toml_values::toml_list_field_of;
use crate::toml_values::toml_well_formed;
use crate::toml_values::read_str_field;
use crate::toml_values::read_list_field;

/// The `[project]` section of the configuration file.
#[derive(Debug, Clone, PartialEq)]
pub struct ProjectSection {
    pub name: Option<String>,
}

/// The `[fpga]` section: hardware build parameters, each with a documented
/// default.
#[derive(Debug, Clone, PartialEq)]
pub struct FpgaConfig {
    pub device: String,
    pub package: String,
    pub top: String,
    pub pcf: Option<String>,
    pub includes: Vec<String>,
}

/// The `[firmware]` section.
#[derive(Debug, Clone, PartialEq)]
pub struct FirmwareConfig {
    pub project_name: Option<String>,
}

/// The whole project configuration file.
#[derive(Debug, Clone, PartialEq)]
pub struct ProjectConfig {
    pub project: ProjectSection,
    pub fpga: FpgaConfig,
    pub firmware: FirmwareConfig,
}

/// Default device family.
pub fn default_device() -> (r: String)
    ensures
        r@ == "up5k"@,
{
    "up5k".to_owned()
}

/// Default device package.
pub fn default_package() -> (r: String)
    ensures
        r@ == "sg48"@,
{
    "sg48".to_owned()
}

/// Default top-level module name.
pub fn default_top() -> (r: String)
    ensures
        r@ == "top"@,
{
    "top".to_owned()
}

impl Default for FpgaConfig {
    /// The hardware parameters used when the configuration file sets none.
    fn default() -> (r: Self)
        ensures
            r.device@ == "up5k"@,
            r.package@ == "sg48"@,
            r.top@ == "top"@,
            r.pcf is None,
            r.includes@.len() == 0,
    {
        FpgaConfig {
            device: default_device(),
            package: default_package(),
            top: default_top(),
            pcf: None,
            includes: Vec::new(),
        }
    }
}

impl Default for ProjectSection {
    fn default() -> (r: Self)
        ensures
            r.name is None,
    {
        ProjectSection { name: None }
    }
}

impl Default for FirmwareConfig {
    fn default() -> (r: Self)
        ensures
            r.project_name is None,
    {
        FirmwareConfig { project_name: None }
    }
}

impl Default for ProjectConfig {
    /// An entirely absent configuration file: every field at its default.
    fn default() -> (r: Self)
        ensures
            r.project.name is None,
            r.fpga.device@ == "up5k"@,
            r.fpga.package@ == "sg48"@,
            r.fpga.top@ == "top"@,
            r.fpga.pcf is None,
            r.fpga.includes@.len() == 0,
            r.firmware.project_name is None,
    {
        ProjectConfig {
            project: Default::default(),
            fpga: Default::default(),
            firmware: Default::default(),
        }
    }
}

/// Builds the `[fpga]` section from optional fields, filling each absent one
/// with its documented default.
pub fn fpga_config_from_fields(
    device: Option<String>,
    package: Option<String>,
    top: Option<String>,
    pcf: Option<String>,
    includes: Vec<String>,
) -> (r: FpgaConfig)
    ensures
        r.device@ == (match device {
            Some(d) => d@,
            None => "up5k"@,
        }),
        r.package@ == (match package {
            Some(p) => p@,
            None => "sg48"@,
        }),
        r.top@ == (match top {
            Some(t) => t@,
            None => "top"@,
        }),
        r.pcf == pcf,
        r.includes == includes,
{
    FpgaConfig {
        device: match device {
            Some(d) => d,
            None => default_device(),
        },
        package: match package {
            Some(p) => p,
            None => default_package(),
        },
        top: match top {
            Some(t) => t,
            None => default_top(),
        },
        pcf,
        includes,
    }
}

/// A parsed configuration holds exactly what the document's text holds:
/// each optional field is the named extraction of its key, with the
/// documented default where the key is absent.
pub open spec fn config_matches_text(c: ProjectConfig, text: Seq<char>) -> bool {
    &&& toml_str_field_of(text, "project"@, "name"@) matches Some(nm) && c.project.name.deep_view()
        == nm
    &&& toml_str_field_of(text, "fpga"@, "device"@) matches Some(dv) && c.fpga.device@ == (
    match dv {
        Some(d) => d,
        None => "up5k"@,
    })
    &&& toml_str_field_of(text, "fpga"@, "package"@) matches Some(pk) && c.fpga.package@ == (
    match pk {
        Some(p) => p,
        None => "sg48"@,
    })
    &&& toml_str_field_of(text, "fpga"@, "top"@) matches Some(tp) && c.fpga.top@ == (match tp {
        Some(t) => t,
        None => "top"@,
    })
    &&& toml_str_field_of(text, "fpga"@, "pcf"@) matches Some(pc) && c.fpga.pcf.deep_view() == pc
    &&& toml_list_field_of(text, "fpga"@, "include"@) matches Some(inc)
        && c.fpga.includes.deep_view() == (match inc {
        Some(l) => l,
        None => Seq::<Seq<char>>::empty(),
    })
    &&& toml_str_field_of(text, "firmware"@, "project_name"@) matches Some(fw)
        && c.firmware.project_name.deep_view() == fw
}

/// The text is rejected: it is not TOML, or one of the recognized keys has
/// the wrong shape — a non-string where a string belongs, or anything but
/// a list of strings under the include key.
pub open spec fn config_text_malformed(text: Seq<char>) -> bool {
    ||| !toml_wf(text)
    ||| toml_str_field_of(text, "project"@, "name"@) is None
    ||| toml_str_field_of(text, "fpga"@, "device"@) is None
    ||| toml_str_field_of(text, "fpga"@, "package"@) is None
    ||| toml_str_field_of(text, "fpga"@, "top"@) is None
    ||| toml_str_field_of(text, "fpga"@, "pcf"@) is None
    ||| toml_list_field_of(text, "fpga"@, "include"@) is None
    ||| toml_str_field_of(text, "firmware"@, "project_name"@) is None
}

impl ProjectConfig {
    /// Reads a configuration document: the configuration it describes, or
    /// `None` exactly for a malformed one. Absent sections and keys fall
    /// back to the documented defaults.
    pub fn parse(text: &str) -> (r: Option<ProjectConfig>)
        ensures
            match r {
                Some(c) => toml_wf(text@) && config_matches_text(c, text@),
                None => config_text_malformed(text@),
            },
    {
        if !toml_well_formed(text) {
            return None;
        }
        let name = match read_str_field(text, "project", "name") {
            Ok(v) => v,
            Err(_) => return None,
        };
        let device = match read_str_field(text, "fpga", "device") {
            Ok(v) => v,
            Err(_) => return None,
        };
        let package = match read_str_field(text, "fpga", "package") {
            Ok(v) => v,
            Err(_) => return None,
        };
        let top = match read_str_field(text, "fpga", "top") {
            Ok(v) => v,
            Err(_) => return None,
        };
        let pcf = match read_str_field(text, "fpga", "pcf") {
            Ok(v) => v,
            Err(_) => return None,
        };
        let project_name = match read_str_field(text, "firmware", "project_name") {
            Ok(v) => v,
            Err(_) => return None,
        };
        let includes: Vec<String> = match read_list_field(text, "fpga", "include") {
            Ok(Some(v)) => v,
            Ok(None) => Vec::new(),
            Err(_) => return None,
        };
        proof {
            if toml_list_field_of(text@, "fpga"@, "include"@) matches Some(None) {
                assert(includes.deep_view() =~= Seq::<Seq<char>>::empty());
            }
        }
        Some(
            ProjectConfig {
                project: ProjectSection { name },
                fpga: fpga_config_from_fields(device, package, top, pcf, includes),
                firmware: FirmwareConfig { project_name },
            },
        )
    }
}

/// What one ancestor directory was found to hold: the structured
/// configuration file, the firmware build descriptor, the hardware sources
/// directory.
#[derive(Clone, Copy, Debug, PartialEq, Eq, Structural)]
pub struct DirProbe {
    pub has_config: bool,
    pub has_firmware_marker: bool,
    pub has_hardware_dir: bool,
}

/// The outcome of walking the ancestor directories, nearest first.
#[derive(Clone, Copy, Debug, PartialEq, Eq, Structural)]
pub enum Detection {
    /// The directory at this index holds the configuration file.
    Found { index: usize },
    /// The directory at this index holds only the legacy markers.
    FoundLegacy { index: usize },
    /// No ancestor identifies a project.
    NotFound,
}

/// A directory identifies a project: by its configuration file, or by the
/// two legacy markers together.
pub open spec fn probe_matches(p: DirProbe) -> bool {
    p.has_config || (p.has_firmware_marker && p.has_hardware_dir)
}

/// The detection rule over the ancestor walk: the nearest matching directory
/// wins, and the configuration file takes priority inside one directory.
pub open spec fn detection_of(probes: Seq<DirProbe>) -> Detection
    decreases probes.len(),
{
    if probes.len() == 0 {
        Detection::NotFound
    } else if probes[0].has_config {
        Detection::Found { index: 0 }
    } else if probes[0].has_firmware_marker && probes[0].has_hardware_dir {
        Detection::FoundLegacy { index: 0 }
    } else {
        match detection_of(probes.drop_first()) {
            Detection::Found { index } => Detection::Found { index: (index + 1) as usize },
            Detection::FoundLegacy { index } => Detection::FoundLegacy {
                index: (index + 1) as usize,
            },
            Detection::NotFound => Detection::NotFound,
        }
    }
}

proof fn lemma_detection_characterize(probes: Seq<DirProbe>, j: int)
    requires
        probes.len() <= usize::MAX,
        0 <= j <= probes.len(),
        forall|k: int| 0 <= k < j ==> !probe_matches(probes[k]),
        j < probes.len() ==> probe_matches(probes[j]),
    ensures
        detection_of(probes) == (if j == probes.len() {
            Detection::NotFound
        } else if probes[j].has_config {
            Detection::Found { index: j as usize }
        } else {
            Detection::FoundLegacy { index: j as usize }
        }),
    decreases probes.len(),
{
    if probes.len() == 0 {
    } else if j == 0 {
    } else {
        assert(!probe_matches(probes[0]));
        let rest = probes.drop_first();
        assert forall|k: int| 0 <= k < j - 1 implies !probe_matches(rest[k]) by {
            assert(rest[k] == probes[k + 1]);
        }
        if j - 1 < rest.len() {
            assert(rest[j - 1] == probes[j]);
        }
        lemma_detection_characterize(rest, j - 1);
    }
}

/// Detection always reports the nearest matching directory, with the
/// configuration file deciding the variant there; `NotFound` means no
/// directory of the walk matched at all.
pub proof fn lemma_detection_sound(probes: Seq<DirProbe>)
    requires
        probes.len() <= usize::MAX,
    ensures
        match detection_of(probes) {
            Detection::Found { index } => {
                &&& index < probes.len()
                &&& probes[index as int].has_config
                &&& forall|k: int| 0 <= k < index ==> !probe_matches(probes[k])
            },
            Detection::FoundLegacy { index } => {
                &&& index < probes.len()
                &&& probe_matches(probes[index as int])
                &&& !probes[index as int].has_config
                &&& forall|k: int| 0 <= k < index ==> !probe_matches(probes[k])
            },
            Detection::NotFound => forall|k: int|
                0 <= k < probes.len() ==> !probe_matches(probes[k]),
        },
    decreases probes.len(),
{
    if probes.len() == 0 {
    } else if probe_matches(probes[0]) {
        lemma_detection_characterize(probes, 0);
    } else {
        let rest = probes.drop_first();
        lemma_detection_sound(rest);
        assert forall|k: int| 0 <= k < rest.len() implies rest[k] == probes[k + 1] by {}
        match detection_of(rest) {
            Detection::Found { index } => {
                assert(detection_of(probes) == Detection::Found { index: (index + 1) as usize });
                assert forall|k: int| 0 <= k < index + 1 implies !probe_matches(probes[k]) by {
                    if k > 0 {
                        assert(rest[k - 1] == probes[k]);
                    }
                }
            },
            Detection::FoundLegacy { index } => {
                assert(detection_of(probes) == Detection::FoundLegacy {
                    index: (index + 1) as usize,
                });
                assert forall|k: int| 0 <= k < index + 1 implies !probe_matches(probes[k]) by {
                    if k > 0 {
                        assert(rest[k - 1] == probes[k]);
                    }
                }
            },
            Detection::NotFound => {
                assert forall|k: int| 0 <= k < probes.len() implies !probe_matches(probes[k]) by {
                    if k > 0 {
                        assert(rest[k - 1] == probes[k]);
                    }
                }
            },
        }
    }
}

/// Detection does not depend on which descendant of the project the walk
/// starts from: any stretch of non-matching directories put in front moves
/// the reported root by its length and changes nothing else.
pub proof fn lemma_detect_from_descendant(extra: Seq<DirProbe>, probes: Seq<DirProbe>)
    requires
        extra.len() + probes.len() <= usize::MAX,
        forall|k: int| 0 <= k < extra.len() ==> !probe_matches(extra[k]),
    ensures
        detection_of(extra + probes) == (match detection_of(probes) {
            Detection::Found { index } => Detection::Found {
                index: (index + extra.len()) as usize,
            },
            Detection::FoundLegacy { index } => Detection::FoundLegacy {
                index: (index + extra.len()) as usize,
            },
            Detection::NotFound => Detection::NotFound,
        }),
    decreases extra.len(),
{
    lemma_detection_sound(probes);
    if extra.len() == 0 {
        assert(extra + probes =~= probes);
    } else {
        let whole = extra + probes;
        assert(whole[0] == extra[0]);
        assert(!probe_matches(whole[0]));
        assert(whole.drop_first() =~= extra.drop_first() + probes);
        assert forall|k: int| 0 <= k < extra.drop_first().len() implies !probe_matches(
            extra.drop_first()[k],
        ) by {
            assert(extra.drop_first()[k] == extra[k + 1]);
        }
        lemma_detect_from_descendant(extra.drop_first(), probes);
    }
}

/// For every ancestor walk in which some directory holds the configuration
/// file, detection reports a root, and that root is the nearest matching
/// directory: detection never settles on a deeper or more distant ancestor
/// than the first match.
pub proof fn lemma_detect_nearest(probes: Seq<DirProbe>, i: int)
    requires
        probes.len() <= usize::MAX,
        0 <= i < probes.len(),
        probes[i].has_config,
    ensures
        !(detection_of(probes) is NotFound),
        match detection_of(probes) {
            Detection::Found { index } => {
                &&& index <= i
                &&& probes[index as int].has_config
                &&& forall|k: int| 0 <= k < index ==> !probe_matches(probes[k])
            },
            Detection::FoundLegacy { index } => {
                &&& index <= i
                &&& probe_matches(probes[index as int])
                &&& !probes[index as int].has_config
                &&& forall|k: int| 0 <= k < index ==> !probe_matches(probes[k])
            },
            Detection::NotFound => false,
        },
    decreases probes.len(),
{
    if probe_matches(probes[0]) {
        lemma_detection_characterize(probes, 0);
    } else {
        let rest = probes.drop_first();
        assert(rest[i - 1] == probes[i]);
        lemma_detect_nearest(rest, i - 1);
        match detection_of(rest) {
            Detection::Found { index } => {
                assert(rest[index as int] == probes[index + 1]);
                assert(detection_of(probes) == Detection::Found { index: (index + 1) as usize });
                assert forall|k: int| 0 <= k < index + 1 implies !probe_matches(probes[k]) by {
                    if k > 0 {
                        assert(rest[k - 1] == probes[k]);
                    }
                }
            },
            Detection::FoundLegacy { index } => {
                assert(rest[index as int] == probes[index + 1]);
                assert(detection_of(probes) == Detection::FoundLegacy {
                    index: (index + 1) as usize,
                });
                assert forall|k: int| 0 <= k < index + 1 implies !probe_matches(probes[k]) by {
                    if k > 0 {
                        assert(rest[k - 1] == probes[k]);
                    }
                }
            },
            Detection::NotFound => {
                assert(false);
            },
        }
    }
}

/// Walks the probed ancestors, nearest first, and reports the first match.
pub fn detect_root(probes: &Vec<DirProbe>) -> (d: Detection)
    ensures
        d == detection_of(probes@),
{
    let n = probes.len();
    let mut i: usize = 0;
    while i < n
        invariant
            n == probes@.len(),
            0 <= i <= n,
            forall|k: int| 0 <= k < i ==> !probe_matches(probes@[k]),
        decreases n - i,
    {
        let p = probes[i];
        if p.has_config {
            proof {
                lemma_detection_characterize(probes@, i as int);
            }
            return Detection::Found { index: i };
        }
        if p.has_firmware_marker && p.has_hardware_dir {
            proof {
                lemma_detection_characterize(probes@, i as int);
            }
            return Detection::FoundLegacy { index: i };
        }
        i = i + 1;
    }
    proof {
        lemma_detection_characterize(probes@, n as int);
    }
    Detection::NotFound
}

/// The project context of one invocation: where the project root is, what it
/// is called, and its configuration, each absent when not resolved.
#[derive(Debug, Clone, PartialEq)]
pub struct Project {
    pub root: Option<String>,
    pub name: Option<String>,
    pub config: Option<ProjectConfig>,
}

impl Project {
    /// Demands a resolved project root; absence is the `NotInProject` error.
    pub fn require_project(&self) -> (r: Result<(), Error>)
        ensures
            match r {
                Ok(_) => self.root is Some,
                Err(e) => self.root is None && e == Error::NotInProject,
            },
    {
        match &self.root {
            Some(_) => Ok(()),
            None => Err(Error::NotInProject),
        }
    }

    /// The project at a root that holds a configuration file. Its name is
    /// the configured one, or the root directory's own name when none is
    /// set; a root without a final component — the filesystem root —
    /// leaves the project nameless.
    pub fn from_config(root: String, config: ProjectConfig) -> (p: Project)
        ensures
            p.root == Some(root),
            p.name.deep_view() == (match config.project.name {
                Some(c) => Some(c@),
                None => if base_name_of(root@).len() == 0 {
                    None::<Seq<char>>
                } else {
                    Some(base_name_of(root@))
                },
            }),
            p.config == Some(config),
    {
        let name = match &config.project.name {
            Some(c) => Some(c.clone()),
            None => {
                let b = base_name(root.as_str());
                if b.as_str().unicode_len() == 0 {
                    None
                } else {
                    Some(b)
                }
            },
        };
        Project { root: Some(root), name, config: Some(config) }
    }

    /// The project at a root identified only by the legacy markers: no
    /// configuration, named after the root directory, nameless at a root
    /// without a final component.
    pub fn from_legacy(root: String) -> (p: Project)
        ensures
            p.root == Some(root),
            p.name.deep_view() == (if base_name_of(root@).len() == 0 {
                None::<Seq<char>>
            } else {
                Some(base_name_of(root@))
            }),
            p.config is None,
    {
        let b = base_name(root.as_str());
        let name = if b.as_str().unicode_len() == 0 {
            None
        } else {
            Some(b)
        };
        Project { root: Some(root), name, config: None }
    }

    /// No project was found.
    pub fn absent() -> (p: Project)
        ensures
            p.root is None,
            p.name is None,
            p.config is None,
    {
        Project { root: None, name: None, config: None }
    }
}

} // verus!
