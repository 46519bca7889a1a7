//! The change watcher's decision core: which file-system events are
//! eligible, the cooldown that debounces bursts of edits, and the decision
//! of how much to rebuild. The loop that owns the notification stream and
//! spawns builds lives in the surrounding binary and consults these rules
//! for every event.

use vstd::prelude::*;

verus! {

use crate::text::base_name;
use crate::text::base_name_of;
use crate::text::ext_of_path;
use crate::text::lower_seq;
use crate::text::path_extension;
use crate::text::path_under;
use crate::text::str_eq;
use crate::text::str_eq_ci;
use crate::text::str_path_under;

broadcast use crate::text::group_vec_string_view;

/// The kind of one file-system notification.
#[derive(Clone, Copy, Debug, PartialEq, Eq, Structural)]
pub enum WatchEventKind {
    /// A file or directory was created.
    Create,
    /// A file's contents changed.
    Modify,
    /// Anything else: removals, metadata, access.
    Other,
}

/// One file-system notification: its kind and the affected paths.
#[derive(Debug, Clone, PartialEq)]
pub struct WatchEvent {
    pub kind: WatchEventKind,
    pub paths: Vec<String>,
}

/// The file extensions that make a change relevant: hardware description,
/// C/C++ sources and headers, build system, pin constraints and
/// configuration files, compared case-insensitively.
pub open spec fn relevant_ext(e: Seq<char>) -> bool {
    ||| lower_seq(e) == "v"@
    ||| lower_seq(e) == "sv"@
    ||| lower_seq(e) == "vh"@
    ||| lower_seq(e) == "c"@
    ||| lower_seq(e) == "h"@
    ||| lower_seq(e) == "cpp"@
    ||| lower_seq(e) == "hpp"@
    ||| lower_seq(e) == "cmake"@
    ||| lower_seq(e) == "pcf"@
    ||| lower_seq(e) == "toml"@
    ||| lower_seq(e) == "txt"@
}

/// The bare file names that make a change relevant: the build and project
/// descriptors.
pub open spec fn relevant_name(n: Seq<char>) -> bool {
    n == "CMakeLists.txt"@ || n == "Makefile"@ || n == "Kconfig"@
}

/// A path is relevant when its extension or its file name is.
pub open spec fn relevant_path(p: Seq<char>) -> bool {
    ||| ext_of_path(p) matches Some(e) && relevant_ext(e)
    ||| relevant_name(base_name_of(p))
}

/// Tests one path for relevance.
pub fn path_is_relevant(p: &str) -> (r: bool)
    ensures
        r == relevant_path(p@),
{
    let by_ext = match path_extension(p) {
        Some(e) => {
            str_eq_ci(e.as_str(), "v") || str_eq_ci(e.as_str(), "sv") || str_eq_ci(
                e.as_str(),
                "vh",
            ) || str_eq_ci(e.as_str(), "c") || str_eq_ci(e.as_str(), "h") || str_eq_ci(
                e.as_str(),
                "cpp",
            ) || str_eq_ci(e.as_str(), "hpp") || str_eq_ci(e.as_str(), "cmake") || str_eq_ci(
                e.as_str(),
                "pcf",
            ) || str_eq_ci(e.as_str(), "toml") || str_eq_ci(e.as_str(), "txt")
        },
        None => false,
    };
    if by_ext {
        return true;
    }
    let name = base_name(p);
    str_eq(name.as_str(), "CMakeLists.txt") || str_eq(name.as_str(), "Makefile") || str_eq(
        name.as_str(),
        "Kconfig",
    )
}

/// An event is eligible to trigger a rebuild: it creates or modifies, and
/// at least one affected path is relevant. Removals and metadata-only
/// events never trigger.
pub open spec fn eligible_event(kind: WatchEventKind, paths: Seq<Seq<char>>) -> bool {
    &&& kind == WatchEventKind::Create || kind == WatchEventKind::Modify
    &&& exists|i: int| 0 <= i < paths.len() && relevant_path(#[trigger] paths[i])
}

/// Decides whether one event is eligible.
pub fn should_trigger_rebuild(event: &WatchEvent) -> (r: bool)
    ensures
        r == eligible_event(event.kind, event.paths.deep_view()),
{
    match event.kind {
        WatchEventKind::Create => (),
        WatchEventKind::Modify => (),
        WatchEventKind::Other => {
            return false;
        },
    }
    let n = event.paths.len();
    let mut i: usize = 0;
    while i < n
        invariant
            event.kind == WatchEventKind::Create || event.kind == WatchEventKind::Modify,
            n == event.paths@.len(),
            0 <= i <= n,
            forall|k: int| 0 <= k < i ==> !relevant_path(#[trigger] event.paths.deep_view()[k]),
        decreases n - i,
    {
        if path_is_relevant(event.paths[i].as_str()) {
            proof {
                assert(relevant_path(event.paths.deep_view()[i as int]));
            }
            return true;
        }
        i = i + 1;
    }
    false
}

/// What a triggered rebuild runs.
#[derive(Clone, Copy, Debug, PartialEq, Eq, Structural)]
pub enum BuildAction {
    /// Only the hardware stage.
    Hardware,
    /// The full pipeline: hardware stage, then firmware stage.
    Full,
}

/// The watcher's state between events: the width of the debounce window,
/// when the last rebuild triggered (absent before the first), whether only
/// hardware is watched, and where the hardware subtree lies.
#[derive(Debug, Clone, PartialEq)]
pub struct WatchState {
    pub debounce_ms: u64,
    pub last_trigger_ms: Option<u64>,
    pub fpga_only: bool,
    pub fpga_dir: String,
}

impl WatchState {
    /// A fresh watcher: the first eligible event always triggers.
    pub fn new(debounce_ms: u64, fpga_only: bool, fpga_dir: String) -> (s: WatchState)
        ensures
            s.debounce_ms == debounce_ms,
            s.last_trigger_ms is None,
            s.fpga_only == fpga_only,
            s.fpga_dir == fpga_dir,
    {
        WatchState { debounce_ms, last_trigger_ms: None, fpga_only, fpga_dir }
    }
}

/// The cooldown rule: an eligible event may trigger unless it falls
/// strictly within the window since the last trigger. Before any trigger,
/// everything passes.
pub open spec fn debounce_passes(last: Option<u64>, now_ms: u64, window: u64) -> bool {
    match last {
        None => true,
        Some(t) => now_ms - t >= window,
    }
}

/// The scope rule of a triggered rebuild: a first affected path under the
/// hardware subtree runs only the hardware stage; any other change runs
/// the full pipeline, unless only hardware is watched.
pub open spec fn scope_of(
    paths: Seq<Seq<char>>,
    fpga_dir: Seq<char>,
    fpga_only: bool,
) -> Option<BuildAction> {
    let hw = paths.len() > 0 && path_under(paths[0], fpga_dir);
    if hw {
        Some(BuildAction::Hardware)
    } else if !fpga_only {
        Some(BuildAction::Full)
    } else {
        None
    }
}

/// One decision of the watch loop: whether this event triggers a rebuild,
/// and of what. A trigger moves the window; an ignored event never does.
/// The clock reading must not run backwards past the last trigger.
pub fn watch_step(state: &mut WatchState, event: &WatchEvent, now_ms: u64) -> (action: Option<
    BuildAction,
>)
    requires
        old(state).last_trigger_ms matches Some(t) ==> t <= now_ms,
    ensures
        final(state).debounce_ms == old(state).debounce_ms,
        final(state).fpga_only == old(state).fpga_only,
        final(state).fpga_dir == old(state).fpga_dir,
        ({
            let eligible = eligible_event(event.kind, event.paths.deep_view());
            let fires = eligible && debounce_passes(
                old(state).last_trigger_ms,
                now_ms,
                old(state).debounce_ms,
            );
            &&& final(state).last_trigger_ms == (if fires {
                Some(now_ms)
            } else {
                old(state).last_trigger_ms
            })
            &&& action == (if fires {
                scope_of(event.paths.deep_view(), old(state).fpga_dir@, old(state).fpga_only)
            } else {
                None::<BuildAction>
            })
        }),
{
    if !should_trigger_rebuild(event) {
        return None;
    }
    let fires = match state.last_trigger_ms {
        None => true,
        Some(t) => now_ms - t >= state.debounce_ms,
    };
    if !fires {
        return None;
    }
    state.last_trigger_ms = Some(now_ms);
    let hw = if event.paths.len() > 0 {
        str_path_under(event.paths[0].as_str(), state.fpga_dir.as_str())
    } else {
        false
    };
    if hw {
        Some(BuildAction::Hardware)
    } else if !state.fpga_only {
        Some(BuildAction::Full)
    } else {
        None
    }
}

/// The hardware subtree of a project root.
pub fn hardware_dir_of(root: &str) -> (r: String)
    ensures
        r@ == root@ + "/fpga"@,
{
    let mut s = root.to_owned();
    s.append("/fpga");
    s
}

/// The firmware subtree of a project root.
pub fn firmware_dir_of(root: &str) -> (r: String)
    ensures
        r@ == root@ + "/firmware"@,
{
    let mut s = root.to_owned();
    s.append("/firmware");
    s
}

} // verus!
