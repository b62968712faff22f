//! Watch set-up: which paths a configured watch stands for.

use vstd::prelude::*;
use crate::config::WatchConfig;
use crate::discovery::{
    audio_candidates, is_sorted_set_of, video_candidates, DeviceDiscovery, Probe,
};
use crate::text::{concat, contains, has_substring, texts};

verus! {

/// How the paths of a watch are found.
#[derive(Debug, Clone, Copy, PartialEq, Eq, Structural)]
pub enum WatchPlan {
    /// The watch is disabled.
    Skip,
    /// Discover devices.
    Discover,
    /// Expand the path as a glob pattern.
    Expand,
    /// Watch the path as it is written.
    Single,
}

/// The plan of a watch entry: discovery wins over pattern expansion, and
/// both over the plain path.
pub open spec fn plan_of(watch: &WatchConfig) -> WatchPlan {
    if !watch.enabled {
        WatchPlan::Skip
    } else if watch.auto_discover {
        WatchPlan::Discover
    } else if watch.pattern {
        WatchPlan::Expand
    } else {
        WatchPlan::Single
    }
}

pub fn plan_watch(watch: &WatchConfig) -> (r: WatchPlan)
    ensures
        r == plan_of(watch),
{
    if !watch.enabled {
        WatchPlan::Skip
    } else if watch.auto_discover {
        WatchPlan::Discover
    } else if watch.pattern {
        WatchPlan::Expand
    } else {
        WatchPlan::Single
    }
}

/// A path to watch, and why.
#[derive(Debug)]
pub struct WatchTarget {
    pub path: String,
    pub description: String,
}

/// What a target says, as plain values.
pub ghost struct TargetModel {
    pub path: Seq<char>,
    pub description: Seq<char>,
}

impl View for WatchTarget {
    type V = TargetModel;

    open spec fn view(&self) -> TargetModel {
        TargetModel { path: self.path@, description: self.description@ }
    }
}

pub open spec fn target_models(targets: Seq<WatchTarget>) -> Seq<TargetModel> {
    Seq::new(targets.len(), |i: int| targets[i]@)
}

/// A target for each path, described by `label` followed by the path.
pub open spec fn labelled(paths: Seq<Seq<char>>, label: Seq<char>) -> Seq<TargetModel> {
    Seq::new(paths.len(), |i: int| TargetModel { path: paths[i], description: label + paths[i] })
}

/// A target for each match of a pattern.
pub open spec fn pattern_targets(matches: Seq<Seq<char>>, description: Seq<char>) -> Seq<
    TargetModel,
> {
    Seq::new(
        matches.len(),
        |i: int|
            TargetModel {
                path: matches[i],
                description: "Pattern-matched: "@ + description + " ("@ + matches[i] + ")"@,
            },
    )
}

/// A watch asks for cameras when its path speaks of `video`.
pub open spec fn wants_video(path: Seq<char>) -> bool {
    has_substring(path, "video"@)
}

/// A watch asks for audio devices when its path speaks of `snd` or `pulse`.
pub open spec fn wants_audio(path: Seq<char>) -> bool {
    has_substring(path, "snd"@) || has_substring(path, "pulse"@)
}

fn push_labelled(targets: &mut Vec<WatchTarget>, paths: &Vec<String>, label: &str)
    ensures
        target_models(final(targets)@) == target_models(old(targets)@) + labelled(
            texts(paths@),
            label@,
        ),
{
    let ghost start = target_models(targets@);
    let mut i: usize = 0;
    while i < paths.len()
        invariant
            i <= paths.len(),
            target_models(targets@) == start + labelled(texts(paths@), label@).take(i as int),
        decreases paths.len() - i,
    {
        let ghost done = target_models(targets@);
        targets.push(
            WatchTarget { path: paths[i].clone(), description: concat(label, paths[i].as_str()) },
        );
        proof {
            assert(target_models(targets@) =~= done.push(labelled(texts(paths@), label@)[i as int]));
            assert(target_models(targets@) =~= start + labelled(texts(paths@), label@).take(
                i + 1,
            ));
        }
        i += 1;
    }
    proof {
        assert(labelled(texts(paths@), label@).take(i as int) =~= labelled(texts(paths@), label@));
    }
}

/// The targets of a watch that discovers devices: the cameras where its
/// path speaks of video, then the audio devices where it speaks of sound.
pub fn setup_auto_discovered_watches(watch_config: &WatchConfig, probe: &Probe) -> (r: Vec<
    WatchTarget,
>)
    ensures
        exists|video: Seq<Seq<char>>, audio: Seq<Seq<char>>|
            (if wants_video(watch_config.path@) {
                is_sorted_set_of(video, video_candidates(probe))
            } else {
                video.len() == 0
            }) && (if wants_audio(watch_config.path@) {
                is_sorted_set_of(audio, audio_candidates(probe))
            } else {
                audio.len() == 0
            }) && #[trigger] target_models(r@) == labelled(
                video,
                "Auto-discovered video device: "@,
            ) + labelled(audio, "Auto-discovered audio device: "@),
{
    let mut targets: Vec<WatchTarget> = Vec::new();
    let path = watch_config.path.as_str();
    let video: Vec<String> = if contains(path, "video") {
        DeviceDiscovery::discover_video_devices(probe)
    } else {
        Vec::new()
    };
    let audio: Vec<String> = if contains(path, "snd") || contains(path, "pulse") {
        DeviceDiscovery::discover_audio_devices(probe)
    } else {
        Vec::new()
    };
    push_labelled(&mut targets, &video, "Auto-discovered video device: ");
    push_labelled(&mut targets, &audio, "Auto-discovered audio device: ");
    proof {
        assert(target_models(targets@) =~= labelled(
            texts(video@),
            "Auto-discovered video device: "@,
        ) + labelled(texts(audio@), "Auto-discovered audio device: "@));
    }
    targets
}

/// The targets of a watch whose path is a pattern, one for each match.
pub fn setup_pattern_watches(watch_config: &WatchConfig, matches: &Vec<String>) -> (r: Vec<
    WatchTarget,
>)
    ensures
        target_models(r@) == pattern_targets(texts(matches@), watch_config.description@),
{
    let mut targets: Vec<WatchTarget> = Vec::new();
    let mut i: usize = 0;
    while i < matches.len()
        invariant
            i <= matches.len(),
            target_models(targets@) == pattern_targets(
                texts(matches@),
                watch_config.description@,
            ).take(i as int),
        decreases matches.len() - i,
    {
        let ghost done = target_models(targets@);
        let mut description = concat("Pattern-matched: ", watch_config.description.as_str());
        description.append(" (");
        description.append(matches[i].as_str());
        description.append(")");
        targets.push(WatchTarget { path: matches[i].clone(), description });
        proof {
            let all = pattern_targets(texts(matches@), watch_config.description@);
            assert(target_models(targets@) =~= done.push(all[i as int]));
            assert(target_models(targets@) =~= all.take(i + 1));
        }
        i += 1;
    }
    proof {
        let all = pattern_targets(texts(matches@), watch_config.description@);
        assert(all.take(i as int) =~= all);
    }
    targets
}

/// The target of a watch on the path as it is written.
pub fn setup_single_watch(watch_config: &WatchConfig) -> (r: WatchTarget)
    ensures
        r@ == (TargetModel { path: watch_config.path@, description: watch_config.description@ }),
{
    WatchTarget { path: watch_config.path.clone(), description: watch_config.description.clone() }
}

} // verus!
