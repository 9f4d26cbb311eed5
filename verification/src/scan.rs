//! Putting a scan together: from the roots that were probed and the
//! profile documents that were read below them to the list of profiles.

use crate::locator::{ProfileFile, ProfileFileView};
use crate::profile::{
    coins_tag, extract, spec_counter, spec_name, total_tag, ProfileInfo, ProfileInfoView,
};
use crate::roots::{is_first_of_key, is_resolved, probe_key, RootProbe, RootProbeView};
use vstd::prelude::*;
use vstd::string::*;

verus! {

/// A located profile document together with the outcome of reading it:
/// its text, or what the system said when it could not be read.
#[derive(Debug, PartialEq, Eq)]
pub struct ProfileRead {
    pub file: ProfileFile,
    pub content: Result<String, String>,
}

/// Mathematical model of a [`ProfileRead`].
pub struct ProfileReadView {
    pub file: ProfileFileView,
    pub content: Result<Seq<char>, Seq<char>>,
}

impl View for ProfileRead {
    type V = ProfileReadView;

    open spec fn view(&self) -> ProfileReadView {
        ProfileReadView {
            file: self.file@,
            content: match self.content {
                Ok(text) => Ok(text@),
                Err(reason) => Err(reason@),
            },
        }
    }
}

impl DeepView for ProfileRead {
    type V = ProfileReadView;

    open spec fn deep_view(&self) -> ProfileReadView {
        self@
    }
}

/// A probed root together with the documents that were read below it.
#[derive(Debug, PartialEq, Eq)]
pub struct RootScan {
    pub probe: RootProbe,
    pub reads: Vec<ProfileRead>,
}

/// Mathematical model of a [`RootScan`].
pub struct RootScanView {
    pub probe: RootProbeView,
    pub reads: Seq<ProfileReadView>,
}

impl View for RootScan {
    type V = RootScanView;

    open spec fn view(&self) -> RootScanView {
        RootScanView { probe: self.probe@, reads: self.reads.deep_view() }
    }
}

impl DeepView for RootScan {
    type V = RootScanView;

    open spec fn deep_view(&self) -> RootScanView {
        self@
    }
}

/// The profile that the document `file` with the text `doc` describes.
pub open spec fn profile_info(file: ProfileFileView, doc: Seq<char>) -> ProfileInfoView {
    ProfileInfoView {
        path: file.path,
        name: spec_name(doc),
        steam_id: file.steam_id,
        coins: spec_counter(doc, coins_tag()),
        total_collected: spec_counter(doc, total_tag()),
    }
}

/// The profiles of the first `n` of `reads`, in order; a document that
/// could not be read has none.
pub open spec fn collected(reads: Seq<ProfileReadView>, n: int) -> Seq<ProfileInfoView>
    decreases n,
{
    if n <= 0 {
        Seq::empty()
    } else {
        match reads[n - 1].content {
            Ok(doc) => collected(reads, n - 1).push(profile_info(reads[n - 1].file, doc)),
            Err(_) => collected(reads, n - 1),
        }
    }
}

/// The profiles of all of `reads`.
pub open spec fn spec_collect_profiles(reads: Seq<ProfileReadView>) -> Seq<ProfileInfoView> {
    collected(reads, reads.len() as int)
}

/// The probes of `scans`, in order.
pub open spec fn probes_of(scans: Seq<RootScanView>) -> Seq<RootProbeView> {
    Seq::new(scans.len(), |i: int| scans[i].probe)
}

/// The profiles of the first `n` of `scans`, in order. A root counts only
/// if its path exists and no earlier root has its key.
pub open spec fn scanned(scans: Seq<RootScanView>, n: int) -> Seq<ProfileInfoView>
    decreases n,
{
    if n <= 0 {
        Seq::empty()
    } else if is_resolved(probes_of(scans), n - 1) {
        scanned(scans, n - 1) + spec_collect_profiles(scans[n - 1].reads)
    } else {
        scanned(scans, n - 1)
    }
}

/// The profiles of all of `scans`.
pub open spec fn spec_scan_steam_profiles(scans: Seq<RootScanView>) -> Seq<ProfileInfoView> {
    scanned(scans, scans.len() as int)
}

fn push_profiles(profiles: &mut Vec<ProfileInfo>, reads: &Vec<ProfileRead>)
    ensures
        final(profiles).deep_view() == old(profiles).deep_view() + spec_collect_profiles(
            reads.deep_view(),
        ),
{
    let ghost before = profiles.deep_view();
    let mut i: usize = 0;
    while i < reads.len()
        invariant
            i <= reads.len(),
            profiles.deep_view() == before + collected(reads.deep_view(), i as int),
        decreases reads.len() - i,
    {
        let ghost so_far = profiles.deep_view();
        if let Ok(text) = &reads[i].content {
            let data = extract(text.as_str());
            profiles.push(
                ProfileInfo {
                    path: reads[i].file.path.clone(),
                    name: data.name,
                    steam_id: reads[i].file.steam_id.clone(),
                    coins: data.coins,
                    total_collected: data.total_collected,
                },
            );
            assert(profiles.deep_view() =~= so_far.push(profile_info(reads[i as int]@.file, text@)));
        }
        i += 1;
    }
}

/// Reads the fields of every document that could be read.
///
/// The result holds one profile for each read that succeeded, in the
/// order of `reads`; a document that could not be read is passed over.
pub fn collect_profiles(reads: &Vec<ProfileRead>) -> (profiles: Vec<ProfileInfo>)
    ensures
        profiles.deep_view() == spec_collect_profiles(reads.deep_view()),
{
    let mut profiles: Vec<ProfileInfo> = Vec::new();
    push_profiles(&mut profiles, reads);
    profiles
}

fn root_is_new(scans: &Vec<RootScan>, i: usize) -> (fresh: bool)
    requires
        i < scans.len(),
    ensures
        fresh == is_first_of_key(probes_of(scans.deep_view()), i as int),
{
    let ghost probes = probes_of(scans.deep_view());
    let key = probe_key(&scans[i].probe);
    let mut j: usize = 0;
    while j < i
        invariant
            j <= i < scans.len(),
            probes == probes_of(scans.deep_view()),
            key@ == probes[i as int].key(),
            forall|k: int| 0 <= k < j ==> (#[trigger] probes[k]).key() != key@,
        decreases i - j,
    {
        let other = probe_key(&scans[j].probe);
        if *other == *key {
            assert(probes[j as int].key() == key@);
            return false;
        }
        j += 1;
    }
    true
}

/// Lists the profiles of all installation roots.
///
/// `scans` holds the candidate roots in priority order, each with what
/// was found out about it and with the documents read below it. A root
/// contributes only if its path exists and no earlier root has the same
/// key, so a place that is reachable by several paths is listed once. The
/// result keeps the order of the roots and, within a root, of its reads.
pub fn scan_steam_profiles(scans: &Vec<RootScan>) -> (profiles: Vec<ProfileInfo>)
    ensures
        profiles.deep_view() == spec_scan_steam_profiles(scans.deep_view()),
{
    let mut profiles: Vec<ProfileInfo> = Vec::new();
    let mut i: usize = 0;
    while i < scans.len()
        invariant
            i <= scans.len(),
            profiles.deep_view() == scanned(scans.deep_view(), i as int),
        decreases scans.len() - i,
    {
        let fresh = root_is_new(scans, i);
        if scans[i].probe.exists && fresh {
            push_profiles(&mut profiles, &scans[i].reads);
        }
        i += 1;
    }
    profiles
}

} // verus!
