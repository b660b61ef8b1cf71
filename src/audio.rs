//! Audio formats of the pipeline: interleaved stereo in, mono chunks out.

use vstd::prelude::*;
use crate::config::AudioSource;
use crate::text::{chars_of, ends_with, ends_with_chars, same_chars};

verus! {

/// Input sample rate (stereo).
pub const INPUT_SAMPLE_RATE: u32 = 48_000;

/// Output sample rate, as the recognition engines expect it.
pub const OUTPUT_SAMPLE_RATE: u32 = 16_000;

/// Mono samples in one output chunk: 160 ms at 16 kHz.
pub const CHUNK_SAMPLES: usize = 2_560;

/// Stereo frames in one resampler input window: 480 ms at 48 kHz.
pub const INPUT_FRAMES_PER_CHUNK: usize = 7_680;

/// Interleaved samples in one resampler input window (two per frame).
pub const INPUT_WINDOW_SAMPLES: usize = INPUT_FRAMES_PER_CHUNK * 2;

/// Output frames the resampler makes of one input window.
pub const OUTPUT_FRAMES_PER_WINDOW: usize = INPUT_FRAMES_PER_CHUNK * 16_000 / 48_000;

/// Samples in one window of the macro-chunking engine: 560 ms at 16 kHz.
pub const MACRO_CHUNK_SAMPLES: usize = 8_960;

/// Splits interleaved stereo samples `[L0, R0, L1, R1, ...]` into the left
/// and right channels. A trailing unpaired sample is ignored.
pub fn deinterleave<T: Copy>(samples: &Vec<T>) -> (r: (Vec<T>, Vec<T>))
    ensures
        r.0@.len() == samples@.len() / 2,
        r.1@.len() == samples@.len() / 2,
        forall|i: int| 0 <= i < r.0@.len() ==> #[trigger] r.0@[i] == samples@[2 * i],
        forall|i: int| 0 <= i < r.1@.len() ==> #[trigger] r.1@[i] == samples@[2 * i + 1],
{
    let n = samples.len();
    let frames = n / 2;
    let mut left: Vec<T> = Vec::new();
    let mut right: Vec<T> = Vec::new();
    let mut i: usize = 0;
    while i < frames
        invariant
            n == samples@.len(),
            frames == n / 2,
            i <= frames,
            left@.len() == i,
            right@.len() == i,
            forall|j: int| 0 <= j < i ==> #[trigger] left@[j] == samples@[2 * j],
            forall|j: int| 0 <= j < i ==> #[trigger] right@[j] == samples@[2 * j + 1],
        decreases frames - i,
    {
        left.push(samples[2 * i]);
        right.push(samples[2 * i + 1]);
        i = i + 1;
    }
    (left, right)
}

/// A capturable audio node: a system monitor or an application stream.
#[derive(Debug, Clone)]
pub struct AudioNode {
    pub node_id: u32,
    pub name: String,
    pub description: String,
    /// Whether this is a system sink monitor rather than an application stream.
    pub is_monitor: bool,
}

/// Commands to the capture thread.
pub enum AudioCommand {
    /// Capture from another source.
    SwitchSource(AudioSource),
    /// Stop capturing.
    Shutdown,
}

/// Whether a node with id `id` is among `nodes`.
pub open spec fn node_listed(nodes: Seq<AudioNode>, id: u32) -> bool {
    exists|i: int| 0 <= i < nodes.len() && (#[trigger] nodes[i]).node_id == id
}

/// The source to capture from given the nodes that exist now: a saved
/// application source whose node is gone falls back to the system output;
/// any other source stays.
pub fn validate_audio_source(saved_source: AudioSource, current_nodes: &[AudioNode]) -> (r: AudioSource)
    ensures
        match saved_source {
            AudioSource::SystemOutput => r == saved_source,
            AudioSource::Application { node_id, .. } => if node_listed(current_nodes@, node_id) {
                r == saved_source
            } else {
                r is SystemOutput
            },
        },
{
    let id = match &saved_source {
        AudioSource::SystemOutput => {
            return saved_source;
        },
        AudioSource::Application { node_id, .. } => *node_id,
    };
    let mut i: usize = 0;
    while i < current_nodes.len()
        invariant
            i <= current_nodes@.len(),
            saved_source matches AudioSource::Application { node_id, .. } && node_id == id,
            forall|j: int| 0 <= j < i ==> (#[trigger] current_nodes@[j]).node_id != id,
        decreases current_nodes@.len() - i,
    {
        if current_nodes[i].node_id == id {
            return saved_source;
        }
        i = i + 1;
    }
    AudioSource::SystemOutput
}

/// How a discovered node is offered: `Some(true)` for a system sink
/// monitor (an audio source whose name ends in ".monitor"), `Some(false)`
/// for an application output stream, `None` for anything else.
pub open spec fn node_kind_of(media_class: Seq<char>, node_name: Seq<char>) -> Option<bool> {
    if media_class == "Audio/Source"@ && ends_with(node_name, ".monitor"@) {
        Some(true)
    } else if media_class == "Stream/Output/Audio"@ {
        Some(false)
    } else {
        None
    }
}

/// Classifies a discovered node by its media class and name: `Some(true)`
/// for a sink monitor, `Some(false)` for an application stream, `None` when
/// it cannot be captured.
pub fn node_kind(media_class: &str, node_name: &str) -> (r: Option<bool>)
    ensures
        r == node_kind_of(media_class@, node_name@),
{
    let class = chars_of(media_class);
    let name = chars_of(node_name);
    if same_chars(&class, &chars_of("Audio/Source")) && ends_with_chars(&name, &chars_of(".monitor")) {
        Some(true)
    } else if same_chars(&class, &chars_of("Stream/Output/Audio")) {
        Some(false)
    } else {
        None
    }
}

/// Position of `source` in the source menu: 0 is the system output, and
/// node `i` of `nodes` is at `i + 1`. A source whose node is not listed
/// shows as the system output.
pub open spec fn menu_index_of(source: AudioSource, nodes: Seq<AudioNode>) -> int {
    match source {
        AudioSource::SystemOutput => 0,
        AudioSource::Application { node_id, .. } => if node_listed(nodes, node_id) {
            first_node_index(nodes, node_id) + 1
        } else {
            0
        },
    }
}

/// Index of the first node with id `id` in `nodes`, or `nodes.len()` when there is none.
pub open spec fn first_node_index(nodes: Seq<AudioNode>, id: u32) -> int
    decreases nodes.len(),
{
    if nodes.len() == 0 {
        0
    } else if nodes[0].node_id == id {
        0
    } else {
        1 + first_node_index(nodes.drop_first(), id)
    }
}

proof fn lemma_first_node_index(nodes: Seq<AudioNode>, id: u32)
    ensures
        0 <= first_node_index(nodes, id) <= nodes.len(),
        node_listed(nodes, id) <==> first_node_index(nodes, id) < nodes.len(),
        first_node_index(nodes, id) < nodes.len() ==> nodes[first_node_index(nodes, id)].node_id == id,
        forall|j: int| 0 <= j < first_node_index(nodes, id) ==> (#[trigger] nodes[j]).node_id != id,
    decreases nodes.len(),
{
    if nodes.len() > 0 {
        let rest = nodes.drop_first();
        lemma_first_node_index(rest, id);
        if nodes[0].node_id != id {
            if node_listed(nodes, id) {
                let i = choose|i: int| 0 <= i < nodes.len() && (#[trigger] nodes[i]).node_id == id;
                assert(rest[i - 1] == nodes[i]);
            }
            if node_listed(rest, id) {
                let i = choose|i: int| 0 <= i < rest.len() && (#[trigger] rest[i]).node_id == id;
                assert(nodes[i + 1] == rest[i]);
            }
            assert forall|j: int| 0 <= j < first_node_index(nodes, id) implies (#[trigger] nodes[j]).node_id != id by {
                if j > 0 {
                    assert(nodes[j] == rest[j - 1]);
                }
            }
        }
    }
}

/// The source menu entry to mark for `source`: 0 for the system output,
/// `i + 1` for the first node `i` with the source's id.
pub fn source_menu_index(source: &AudioSource, nodes: &[AudioNode]) -> (r: usize)
    ensures
        r == menu_index_of(*source, nodes@),
{
    let id = match source {
        AudioSource::SystemOutput => {
            return 0;
        },
        AudioSource::Application { node_id, .. } => *node_id,
    };
    proof {
        lemma_first_node_index(nodes@, id);
    }
    let mut i: usize = 0;
    while i < nodes.len()
        invariant
            i <= nodes@.len(),
            forall|j: int| 0 <= j < i ==> (#[trigger] nodes@[j]).node_id != id,
            source matches AudioSource::Application { node_id, .. } && node_id == id,
            0 <= first_node_index(nodes@, id) <= nodes@.len(),
            node_listed(nodes@, id) <==> first_node_index(nodes@, id) < nodes@.len(),
            first_node_index(nodes@, id) < nodes@.len() ==> nodes@[first_node_index(nodes@, id)].node_id == id,
            forall|j: int| 0 <= j < first_node_index(nodes@, id) ==> (#[trigger] nodes@[j]).node_id != id,
        decreases nodes@.len() - i,
    {
        if nodes[i].node_id == id {
            assert(first_node_index(nodes@, id) == i);
            return i + 1;
        }
        i = i + 1;
    }
    0
}

/// The source that source menu entry `idx` stands for: 0 is the system
/// output, `i + 1` is node `i`; an entry past the list is the system output.
pub fn source_for_menu_index(idx: usize, nodes: &[AudioNode]) -> (r: AudioSource)
    ensures
        (idx == 0 || idx > nodes@.len()) ==> r is SystemOutput,
        0 < idx <= nodes@.len() ==> (r matches AudioSource::Application { node_id, node_name }
            && node_id == nodes@[idx - 1].node_id && node_name@ == nodes@[idx - 1].name@),
{
    if idx == 0 || idx > nodes.len() {
        AudioSource::SystemOutput
    } else {
        let node = &nodes[idx - 1];
        AudioSource::Application { node_id: node.node_id, node_name: string_copy(&node.name) }
    }
}

/// A copy of a string.
fn string_copy(s: &String) -> (r: String)
    ensures
        r@ == s@,
{
    String::from_str(s.as_str())
}

} // verus!
