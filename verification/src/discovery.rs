//! Device discovery: which camera and audio paths are worth watching,
//! decided from what a probe of the filesystem found.

use vstd::prelude::*;
use crate::sorted::{same_members, sort_dedup, strictly_sorted};
use crate::text::{
    chars_of, contains, has_prefix, has_substring, join_path, joined_path, same_text,
    starts_with, texts,
};

verus! {

/// What kind of file a path leads to, symbolic links followed.
#[derive(Debug, Clone, Copy, PartialEq, Eq, Structural)]
pub enum FileKind {
    CharDevice,
    Directory,
    Socket,
    Other,
    /// Nothing is there, or it cannot be examined.
    Missing,
}

/// One entry of a directory that was listed.
#[derive(Debug)]
pub struct ProbedEntry {
    pub path: String,
    pub file_name: String,
    pub kind: FileKind,
    /// A node of the same name exists in the kernel's video class.
    pub in_video_class: bool,
}

/// One entry of the directory of per-user runtime directories.
#[derive(Debug)]
pub struct UserRuntimeDir {
    pub path: String,
    /// It holds a `pulse` entry.
    pub has_pulse: bool,
}

/// What a probe of the filesystem found. Directories that could not be
/// listed are given as empty.
#[derive(Debug)]
pub struct Probe {
    /// The entries of the device directory.
    pub dev: Vec<ProbedEntry>,
    /// The entries of the directory of camera aliases.
    pub v4l_by_id: Vec<ProbedEntry>,
    /// The sound device directory exists.
    pub snd_exists: bool,
    /// The entries of the sound device directory.
    pub snd: Vec<ProbedEntry>,
    /// Those of the paths of `pulse_candidates` that exist.
    pub present: Vec<String>,
    /// The entries of the directory of per-user runtime directories.
    pub run_user: Vec<UserRuntimeDir>,
    /// The entries of those directories of `jack_directories` that exist,
    /// directory after directory.
    pub jack: Vec<ProbedEntry>,
}

/// The sound device directory.
pub open spec fn snd_dir() -> Seq<char> {
    "/dev/snd"@
}

/// `c` is one of the digits `0` to `9`.
pub open spec fn is_digit(c: char) -> bool {
    48 <= c as u32 <= 57
}

/// The name is `video` followed by digits only, if by anything.
pub open spec fn is_video_name(name: Seq<char>) -> bool {
    has_prefix(name, "video"@) && forall|i: int| 5 <= i < name.len() ==> is_digit(#[trigger] name[i])
}

/// The name begins like a sound device node.
pub open spec fn is_alsa_name(name: Seq<char>) -> bool {
    has_prefix(name, "pcm"@) || has_prefix(name, "control"@) || has_prefix(name, "hw"@)
        || has_prefix(name, "seq"@) || has_prefix(name, "timer"@)
}

/// The entry is a camera: a character device that, where it is named like a
/// video node, is also known to the kernel's video class.
pub open spec fn video_device(e: &ProbedEntry) -> bool {
    e.kind == FileKind::CharDevice && (has_prefix(e.file_name@, "video"@) ==> e.in_video_class)
}

/// The entry can be an audio device: a character device, a directory or a
/// socket.
pub open spec fn audio_device(e: &ProbedEntry) -> bool {
    e.kind == FileKind::CharDevice || e.kind == FileKind::Directory || e.kind == FileKind::Socket
}

/// The ways in which entries of a listing are chosen.
#[derive(Debug, Clone, Copy, PartialEq, Eq, Structural)]
pub enum Selector {
    /// Video nodes of the device directory.
    VideoNode,
    /// Camera aliases.
    CameraAlias,
    /// Nodes of the sound device directory.
    SoundNode,
    /// Files of the JACK audio system.
    JackFile,
}

impl Selector {
    pub open spec fn selects(self, e: &ProbedEntry) -> bool {
        match self {
            Selector::VideoNode => is_video_name(e.file_name@) && video_device(e),
            Selector::CameraAlias => video_device(e),
            Selector::SoundNode => is_alsa_name(e.file_name@) && audio_device(e),
            Selector::JackFile => has_substring(e.file_name@, "jack"@),
        }
    }
}

/// The paths of the chosen entries, in listing order.
pub open spec fn selected_paths(entries: Seq<ProbedEntry>, which: Selector) -> Seq<Seq<char>>
    decreases entries.len(),
{
    if entries.len() == 0 {
        Seq::empty()
    } else if which.selects(&entries.last()) {
        selected_paths(entries.drop_last(), which).push(entries.last().path@)
    } else {
        selected_paths(entries.drop_last(), which)
    }
}

/// The fixed places where PulseAudio keeps its files.
pub open spec fn pulse_candidate_texts() -> Seq<Seq<char>> {
    seq!["/tmp/.pulse"@, "/run/user/1000/pulse"@, "/var/lib/pulse"@, "~/.pulse"@]
}

/// The directories in which files of the JACK audio system are looked for.
pub open spec fn jack_directory_texts() -> Seq<Seq<char>> {
    seq!["/dev/shm"@, "/tmp/.jack"@, "/run/user/1000/jack"@]
}

/// Those of `candidates`, in order, that are among `present`.
pub open spec fn present_among(candidates: Seq<Seq<char>>, present: Seq<Seq<char>>) -> Seq<
    Seq<char>,
>
    decreases candidates.len(),
{
    if candidates.len() == 0 {
        Seq::empty()
    } else if present.contains(candidates.last()) {
        present_among(candidates.drop_last(), present).push(candidates.last())
    } else {
        present_among(candidates.drop_last(), present)
    }
}

/// The `pulse` entries of the per-user runtime directories that have one.
pub open spec fn user_pulse_paths(dirs: Seq<UserRuntimeDir>) -> Seq<Seq<char>>
    decreases dirs.len(),
{
    if dirs.len() == 0 {
        Seq::empty()
    } else if dirs.last().has_pulse {
        user_pulse_paths(dirs.drop_last()).push(joined_path(dirs.last().path@, "pulse"@))
    } else {
        user_pulse_paths(dirs.drop_last())
    }
}

/// Every camera path of a probe, before sorting.
pub open spec fn video_candidates(probe: &Probe) -> Seq<Seq<char>> {
    selected_paths(probe.dev@, Selector::VideoNode) + selected_paths(
        probe.v4l_by_id@,
        Selector::CameraAlias,
    )
}

/// The sound device nodes of a probe and the sound device directory itself,
/// which is watched so that new nodes are noticed.
pub open spec fn alsa_candidates(probe: &Probe) -> Seq<Seq<char>> {
    if probe.snd_exists {
        selected_paths(probe.snd@, Selector::SoundNode).push(snd_dir())
    } else {
        Seq::empty()
    }
}

pub open spec fn pulse_candidates_found(probe: &Probe) -> Seq<Seq<char>> {
    present_among(pulse_candidate_texts(), texts(probe.present@)) + user_pulse_paths(
        probe.run_user@,
    )
}

/// Every audio path of a probe, before sorting.
pub open spec fn audio_candidates(probe: &Probe) -> Seq<Seq<char>> {
    alsa_candidates(probe) + pulse_candidates_found(probe) + selected_paths(
        probe.jack@,
        Selector::JackFile,
    )
}

/// `out` holds the texts of `items` in strictly increasing order.
pub open spec fn is_sorted_set_of(out: Seq<Seq<char>>, items: Seq<Seq<char>>) -> bool {
    strictly_sorted(out) && same_members(out, items)
}

/// The texts of `found`, in order, that are not among `known`.
pub open spec fn without(found: Seq<Seq<char>>, known: Seq<Seq<char>>) -> Seq<Seq<char>>
    decreases found.len(),
{
    if found.len() == 0 {
        Seq::empty()
    } else if known.contains(found.last()) {
        without(found.drop_last(), known)
    } else {
        without(found.drop_last(), known).push(found.last())
    }
}

/// Whether `item` is among `list`.
pub fn listed(list: &Vec<String>, item: &str) -> (r: bool)
    ensures
        r == texts(list@).contains(item@),
{
    let mut i: usize = 0;
    while i < list.len()
        invariant
            i <= list.len(),
            forall|j: int| 0 <= j < i ==> #[trigger] texts(list@)[j] != item@,
        decreases list.len() - i,
    {
        if same_text(list[i].as_str(), item) {
            proof {
                assert(texts(list@)[i as int] == item@);
            }
            return true;
        }
        i += 1;
    }
    false
}

/// The paths that PulseAudio may use, to be probed for existence.
pub fn pulse_candidates() -> (r: Vec<String>)
    ensures
        texts(r@) == pulse_candidate_texts(),
{
    let mut out: Vec<String> = Vec::new();
    out.push("/tmp/.pulse".to_owned());
    out.push("/run/user/1000/pulse".to_owned());
    out.push("/var/lib/pulse".to_owned());
    out.push("~/.pulse".to_owned());
    proof {
        assert(texts(out@) =~= pulse_candidate_texts());
    }
    out
}

/// The directories to be listed for files of the JACK audio system.
pub fn jack_directories() -> (r: Vec<String>)
    ensures
        texts(r@) == jack_directory_texts(),
{
    let mut out: Vec<String> = Vec::new();
    out.push("/dev/shm".to_owned());
    out.push("/tmp/.jack".to_owned());
    out.push("/run/user/1000/jack".to_owned());
    proof {
        assert(texts(out@) =~= jack_directory_texts());
    }
    out
}

/// Discovers the camera and audio devices that are present.
pub struct DeviceDiscovery;

impl DeviceDiscovery {
    /// Whether a file name is `video` followed by digits only.
    pub fn is_video_name(file_name: &str) -> (r: bool)
        ensures
            r == is_video_name(file_name@),
    {
        if !starts_with(file_name, "video") {
            return false;
        }
        proof {
            reveal_strlit("video");
        }
        let chars = chars_of(file_name);
        let mut i: usize = 5;
        while i < chars.len()
            invariant
                5 <= i <= chars.len(),
                chars@ == file_name@,
                forall|j: int| 5 <= j < i ==> is_digit(#[trigger] chars@[j]),
            decreases chars.len() - i,
        {
            let c = chars[i] as u32;
            if c < 48 || c > 57 {
                return false;
            }
            i += 1;
        }
        true
    }

    pub fn is_alsa_name(file_name: &str) -> (r: bool)
        ensures
            r == is_alsa_name(file_name@),
    {
        starts_with(file_name, "pcm") || starts_with(file_name, "control") || starts_with(
            file_name,
            "hw",
        ) || starts_with(file_name, "seq") || starts_with(file_name, "timer")
    }

    /// Whether an entry is a camera.
    pub fn is_video_device(entry: &ProbedEntry) -> (r: bool)
        ensures
            r == video_device(entry),
    {
        match entry.kind {
            FileKind::CharDevice => {
                if starts_with(entry.file_name.as_str(), "video") {
                    entry.in_video_class
                } else {
                    true
                }
            },
            _ => false,
        }
    }

    /// Whether an entry can be an audio device.
    pub fn is_audio_device(entry: &ProbedEntry) -> (r: bool)
        ensures
            r == audio_device(entry),
    {
        match entry.kind {
            FileKind::CharDevice | FileKind::Directory | FileKind::Socket => true,
            _ => false,
        }
    }

    /// Whether `which` chooses the entry.
    pub fn selects(which: Selector, entry: &ProbedEntry) -> (r: bool)
        ensures
            r == which.selects(entry),
    {
        match which {
            Selector::VideoNode => Self::is_video_name(entry.file_name.as_str())
                && Self::is_video_device(entry),
            Selector::CameraAlias => Self::is_video_device(entry),
            Selector::SoundNode => Self::is_alsa_name(entry.file_name.as_str())
                && Self::is_audio_device(entry),
            Selector::JackFile => contains(entry.file_name.as_str(), "jack"),
        }
    }

    /// Appends the paths of the chosen entries of a listing.
    pub fn collect(devices: &mut Vec<String>, entries: &Vec<ProbedEntry>, which: Selector)
        ensures
            texts(final(devices)@) == texts(old(devices)@) + selected_paths(entries@, which),
    {
        let ghost start = texts(devices@);
        let mut i: usize = 0;
        proof {
            assert(texts(devices@) =~= start + selected_paths(entries@.take(0), which));
        }
        while i < entries.len()
            invariant
                i <= entries.len(),
                texts(devices@) == start + selected_paths(entries@.take(i as int), which),
            decreases entries.len() - i,
        {
            proof {
                assert(entries@.take(i + 1).drop_last() =~= entries@.take(i as int));
                assert(entries@.take(i + 1).last() == entries@[i as int]);
            }
            let ghost done = texts(devices@);
            if Self::selects(which, &entries[i]) {
                devices.push(entries[i].path.clone());
                proof {
                    assert(texts(devices@) =~= done.push(entries@[i as int].path@));
                    assert(texts(devices@) =~= start + selected_paths(
                        entries@.take(i + 1),
                        which,
                    ));
                }
            }
            i += 1;
        }
        proof {
            assert(entries@.take(i as int) =~= entries@);
        }
    }

    /// The cameras that are present: the video nodes and the camera aliases,
    /// sorted, each once.
    pub fn discover_video_devices(probe: &Probe) -> (r: Vec<String>)
        ensures
            is_sorted_set_of(texts(r@), video_candidates(probe)),
    {
        let mut devices: Vec<String> = Vec::new();
        Self::collect(&mut devices, &probe.dev, Selector::VideoNode);
        Self::collect(&mut devices, &probe.v4l_by_id, Selector::CameraAlias);
        proof {
            assert(texts(devices@) =~= video_candidates(probe));
        }
        sort_dedup(devices)
    }

    /// Appends the sound device nodes and the sound device directory.
    pub fn discover_alsa_devices(devices: &mut Vec<String>, probe: &Probe)
        ensures
            texts(final(devices)@) == texts(old(devices)@) + alsa_candidates(probe),
    {
        let ghost start = texts(devices@);
        if !probe.snd_exists {
            proof {
                assert(texts(devices@) =~= start + alsa_candidates(probe));
            }
            return ;
        }
        Self::collect(devices, &probe.snd, Selector::SoundNode);
        let ghost done = texts(devices@);
        devices.push("/dev/snd".to_owned());
        proof {
            assert(texts(devices@) =~= done.push(snd_dir()));
            assert(texts(devices@) =~= start + alsa_candidates(probe));
        }
    }

    /// Appends the places of PulseAudio that exist.
    pub fn discover_pulseaudio_devices(devices: &mut Vec<String>, probe: &Probe)
        ensures
            texts(final(devices)@) == texts(old(devices)@) + pulse_candidates_found(probe),
    {
        let ghost start = texts(devices@);
        let candidates = pulse_candidates();
        let mut i: usize = 0;
        proof {
            assert(texts(devices@) =~= start + present_among(
                texts(candidates@).take(0),
                texts(probe.present@),
            ));
        }
        while i < candidates.len()
            invariant
                i <= candidates.len(),
                texts(candidates@) == pulse_candidate_texts(),
                texts(devices@) == start + present_among(
                    texts(candidates@).take(i as int),
                    texts(probe.present@),
                ),
            decreases candidates.len() - i,
        {
            proof {
                assert(texts(candidates@).take(i + 1).drop_last() =~= texts(candidates@).take(
                    i as int,
                ));
                assert(texts(candidates@).take(i + 1).last() == candidates@[i as int]@);
            }
            let ghost done = texts(devices@);
            if listed(&probe.present, candidates[i].as_str()) {
                devices.push(candidates[i].clone());
                proof {
                    assert(texts(devices@) =~= done.push(candidates@[i as int]@));
                    assert(texts(devices@) =~= start + present_among(
                        texts(candidates@).take(i + 1),
                        texts(probe.present@),
                    ));
                }
            }
            i += 1;
        }
        proof {
            assert(texts(candidates@).take(i as int) =~= texts(candidates@));
        }
        let ghost fixed = texts(devices@);
        let mut k: usize = 0;
        proof {
            assert(texts(devices@) =~= fixed + user_pulse_paths(probe.run_user@.take(0)));
        }
        while k < probe.run_user.len()
            invariant
                k <= probe.run_user.len(),
                texts(devices@) == fixed + user_pulse_paths(probe.run_user@.take(k as int)),
            decreases probe.run_user.len() - k,
        {
            proof {
                assert(probe.run_user@.take(k + 1).drop_last() =~= probe.run_user@.take(k as int));
                assert(probe.run_user@.take(k + 1).last() == probe.run_user@[k as int]);
            }
            let ghost done = texts(devices@);
            if probe.run_user[k].has_pulse {
                devices.push(join_path(probe.run_user[k].path.as_str(), "pulse"));
                proof {
                    assert(texts(devices@) =~= done.push(
                        joined_path(probe.run_user@[k as int].path@, "pulse"@),
                    ));
                    assert(texts(devices@) =~= fixed + user_pulse_paths(
                        probe.run_user@.take(k + 1),
                    ));
                }
            }
            k += 1;
        }
        proof {
            assert(probe.run_user@.take(k as int) =~= probe.run_user@);
            assert(texts(devices@) =~= start + pulse_candidates_found(probe));
        }
    }

    /// Appends the files of the JACK audio system.
    pub fn discover_jack_devices(devices: &mut Vec<String>, probe: &Probe)
        ensures
            texts(final(devices)@) == texts(old(devices)@) + selected_paths(
                probe.jack@,
                Selector::JackFile,
            ),
    {
        Self::collect(devices, &probe.jack, Selector::JackFile);
    }

    /// The audio devices that are present, sorted, each once.
    pub fn discover_audio_devices(probe: &Probe) -> (r: Vec<String>)
        ensures
            is_sorted_set_of(texts(r@), audio_candidates(probe)),
    {
        let mut devices: Vec<String> = Vec::new();
        Self::discover_alsa_devices(&mut devices, probe);
        Self::discover_pulseaudio_devices(&mut devices, probe);
        Self::discover_jack_devices(&mut devices, probe);
        proof {
            assert(texts(devices@) =~= audio_candidates(probe));
        }
        sort_dedup(devices)
    }

    /// Every path that should be watched: the cameras, then the audio
    /// devices, each part sorted and without repetition.
    pub fn discover_all_monitored_paths(probe: &Probe) -> (r: Vec<String>)
        ensures
            exists|n: int|
                0 <= n <= r@.len() && is_sorted_set_of(
                    #[trigger] texts(r@).take(n),
                    video_candidates(probe),
                ) && is_sorted_set_of(texts(r@).skip(n), audio_candidates(probe)),
    {
        let mut paths = Self::discover_video_devices(probe);
        let audio = Self::discover_audio_devices(probe);
        let ghost video = texts(paths@);
        let ghost n = paths@.len() as int;
        let mut i: usize = 0;
        while i < audio.len()
            invariant
                i <= audio.len(),
                n + i == paths@.len(),
                texts(paths@) == video + texts(audio@).take(i as int),
            decreases audio.len() - i,
        {
            let ghost done = texts(paths@);
            paths.push(audio[i].clone());
            proof {
                assert(texts(paths@) =~= done.push(audio@[i as int]@));
                assert(texts(audio@).take(i + 1) =~= texts(audio@).take(i as int).push(
                    audio@[i as int]@,
                ));
                assert(texts(paths@) =~= video + texts(audio@).take(i + 1));
            }
            i += 1;
        }
        proof {
            assert(texts(audio@).take(i as int) =~= texts(audio@));
            assert(texts(paths@).take(n) =~= video);
            assert(texts(paths@).skip(n) =~= texts(audio@));
        }
        paths
    }

    /// The texts of `discovered`, in order, that are not among `current`.
    pub fn new_devices(discovered: &Vec<String>, current: &Vec<String>) -> (r: Vec<String>)
        ensures
            texts(r@) == without(texts(discovered@), texts(current@)),
    {
        let mut out: Vec<String> = Vec::new();
        let mut i: usize = 0;
        while i < discovered.len()
            invariant
                i <= discovered.len(),
                texts(out@) == without(texts(discovered@).take(i as int), texts(current@)),
            decreases discovered.len() - i,
        {
            proof {
                assert(texts(discovered@).take(i + 1).drop_last() =~= texts(discovered@).take(
                    i as int,
                ));
                assert(texts(discovered@).take(i + 1).last() == discovered@[i as int]@);
            }
            let ghost done = texts(out@);
            if !listed(current, discovered[i].as_str()) {
                out.push(discovered[i].clone());
                proof {
                    assert(texts(out@) =~= done.push(discovered@[i as int]@));
                }
            }
            i += 1;
        }
        proof {
            assert(texts(discovered@).take(i as int) =~= texts(discovered@));
        }
        out
    }

    /// The devices that appeared: what a new probe finds and `current_devices`
    /// does not hold, in discovery order.
    pub fn rescan_devices(current_devices: &Vec<String>, probe: &Probe) -> (r: Vec<String>)
        ensures
            exists|all: Seq<Seq<char>>, n: int|
                0 <= n <= all.len() && is_sorted_set_of(
                    #[trigger] all.take(n),
                    video_candidates(probe),
                ) && is_sorted_set_of(all.skip(n), audio_candidates(probe)) && texts(r@)
                    == without(all, texts(current_devices@)),
    {
        let discovered = Self::discover_all_monitored_paths(probe);
        Self::new_devices(&discovered, current_devices)
    }
}

} // verus!
