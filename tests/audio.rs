use subtidal::audio::{
    deinterleave, node_kind, source_for_menu_index, source_menu_index, validate_audio_source,
    AudioNode, CHUNK_SAMPLES, INPUT_FRAMES_PER_CHUNK, INPUT_WINDOW_SAMPLES, MACRO_CHUNK_SAMPLES,
    OUTPUT_FRAMES_PER_WINDOW,
};
use subtidal::config::{AudioSource, DockPosition, ScreenEdge};
use subtidal::layout::dock_anchors;
use subtidal::gate::{SpeechGate, MAX_SPEECH_SAMPLES};
use subtidal::rechunk::{Rechunker, WindowBuffer};

#[test]
fn one_input_window_yields_one_chunk() {
    let mut windows: Rechunker<f32> = Rechunker::new(INPUT_WINDOW_SAMPLES);
    let mut chunks: Rechunker<f32> = Rechunker::new(CHUNK_SAMPLES);
    let ready = windows.push(vec![0.1f32; INPUT_FRAMES_PER_CHUNK * 2]);
    assert_eq!(ready.len(), 1);
    assert_eq!(OUTPUT_FRAMES_PER_WINDOW, 2_560);
    let out = chunks.push(vec![0.1f32; OUTPUT_FRAMES_PER_WINDOW]);
    assert_eq!(out.len(), 1, "expected 1 chunk, got {}", out.len());
    assert_eq!(out[0].len(), CHUNK_SAMPLES, "chunk should be {} samples", CHUNK_SAMPLES);
}

#[test]
fn half_input_window_yields_nothing() {
    let mut windows: Rechunker<f32> = Rechunker::new(INPUT_WINDOW_SAMPLES);
    let ready = windows.push(vec![0.1f32; INPUT_FRAMES_PER_CHUNK]);
    assert!(ready.is_empty(), "partial input should not produce output");
    assert_eq!(windows.pending_len(), INPUT_FRAMES_PER_CHUNK);
}

#[test]
fn input_windows_accumulate_across_pushes() {
    let mut windows: Rechunker<f32> = Rechunker::new(INPUT_WINDOW_SAMPLES);
    let increment: Vec<f32> = vec![0.0f32; 512];
    let total_needed = INPUT_FRAMES_PER_CHUNK * 2;
    let mut total = 0usize;
    let mut pushed = 0usize;
    while pushed < total_needed {
        let to_push = increment.len().min(total_needed - pushed);
        total += windows.push(increment[..to_push].to_vec()).len();
        pushed += to_push;
    }
    assert_eq!(total, 1, "one full input chunk should yield one output chunk");
}

#[test]
fn chunks_have_exact_size_and_order() {
    let mut r: Rechunker<u32> = Rechunker::new(3);
    let out = r.push((0..7).collect());
    assert_eq!(out, vec![vec![0, 1, 2], vec![3, 4, 5]]);
    let out = r.push(vec![7, 8]);
    assert_eq!(out, vec![vec![6, 7, 8]]);
    assert_eq!(r.pending_len(), 0);
}

#[test]
fn split_pushes_match_one_push() {
    let data: Vec<u32> = (0..10_000).collect();
    let mut split: Rechunker<u32> = Rechunker::new(CHUNK_SAMPLES);
    let mut a = split.push(data[..1_234].to_vec());
    a.extend(split.push(data[1_234..7_000].to_vec()));
    a.extend(split.push(data[7_000..].to_vec()));
    let mut whole: Rechunker<u32> = Rechunker::new(CHUNK_SAMPLES);
    let b = whole.push(data.clone());
    assert_eq!(a.len(), 3);
    assert_eq!(a, b);
    assert!(a.iter().all(|c| c.len() == CHUNK_SAMPLES));
    assert_eq!(split.flush(), whole.flush());
}

#[test]
fn flush_returns_leftover() {
    let mut r: Rechunker<u8> = Rechunker::new(4);
    assert!(r.push(vec![1, 2, 3]).is_empty());
    assert_eq!(r.flush(), vec![1, 2, 3]);
    assert_eq!(r.pending_len(), 0);
    assert!(r.push(vec![4, 5]).is_empty());
    r.clear();
    assert_eq!(r.pending_len(), 0);
}

#[test]
fn macro_window_after_four_chunks() {
    let mut w: WindowBuffer<u32> = WindowBuffer::new(MACRO_CHUNK_SAMPLES);
    for _ in 0..3 {
        assert!(w.push(vec![1; CHUNK_SAMPLES]).is_none());
    }
    let window = w.push(vec![2; CHUNK_SAMPLES]).expect("a full window");
    assert_eq!(window.len(), MACRO_CHUNK_SAMPLES);
    assert_eq!(window[0], 1);
    assert_eq!(window[MACRO_CHUNK_SAMPLES - 1], 2);
    assert!(w.push(vec![3; CHUNK_SAMPLES]).is_none());
}

#[test]
fn deinterleave_splits_channels() {
    let (l, r) = deinterleave(&vec![1, 2, 3, 4, 5]);
    assert_eq!(l, vec![1, 3]);
    assert_eq!(r, vec![2, 4]);
}

#[test]
fn gate_ignores_silence_outside_speech() {
    let mut g: SpeechGate<u8> = SpeechGate::new();
    assert!(g.process(vec![0; 4], false).is_none());
    assert!(g.process(vec![0; 4], false).is_none());
}

#[test]
fn gate_flushes_after_silence_run() {
    let mut g: SpeechGate<u8> = SpeechGate::new();
    assert!(g.process(vec![9], true).is_none());
    for _ in 0..4 {
        assert!(g.process(vec![0], false).is_none());
    }
    assert_eq!(g.process(vec![0], false), Some(vec![9, 0, 0, 0, 0, 0]));
    assert!(g.process(vec![0], false).is_none());
}

#[test]
fn gate_speech_resets_silence_count() {
    let mut g: SpeechGate<u8> = SpeechGate::new();
    g.process(vec![1], true);
    for _ in 0..4 {
        assert!(g.process(vec![0], false).is_none());
    }
    assert!(g.process(vec![2], true).is_none());
    for _ in 0..4 {
        assert!(g.process(vec![0], false).is_none());
    }
    let out = g.process(vec![0], false).expect("utterance closed");
    assert_eq!(out.len(), 11);
}

#[test]
fn gate_cap_forces_flush() {
    let mut g: SpeechGate<u8> = SpeechGate::new();
    assert!(g.process(vec![1; MAX_SPEECH_SAMPLES - 1], true).is_none());
    let out = g.process(vec![1; 2], true).expect("cap reached");
    assert_eq!(out.len(), MAX_SPEECH_SAMPLES + 1);
    assert!(g.process(vec![1], true).is_none());
}

fn node(id: u32) -> AudioNode {
    AudioNode { node_id: id, name: format!("n{id}"), description: String::new(), is_monitor: false }
}

#[test]
fn saved_source_still_present_is_kept() {
    let src = AudioSource::Application { node_id: 7, node_name: "player".to_string() };
    assert_eq!(validate_audio_source(src.clone(), &[node(3), node(7)]), src);
}

#[test]
fn missing_source_falls_back_to_system_output() {
    let src = AudioSource::Application { node_id: 7, node_name: "player".to_string() };
    assert_eq!(validate_audio_source(src, &[node(3)]), AudioSource::SystemOutput);
    assert_eq!(validate_audio_source(AudioSource::SystemOutput, &[]), AudioSource::SystemOutput);
}

#[test]
fn node_kinds() {
    assert_eq!(node_kind("Audio/Source", "alsa_output.pci.monitor"), Some(true));
    assert_eq!(node_kind("Audio/Source", "alsa_input.pci"), None);
    assert_eq!(node_kind("Stream/Output/Audio", "firefox"), Some(false));
    assert_eq!(node_kind("Audio/Sink", "x.monitor"), None);
}

#[test]
fn source_menu_round_trip() {
    let nodes = [node(3), node(7)];
    assert_eq!(source_menu_index(&AudioSource::SystemOutput, &nodes), 0);
    let src = AudioSource::Application { node_id: 7, node_name: "n7".to_string() };
    assert_eq!(source_menu_index(&src, &nodes), 2);
    let gone = AudioSource::Application { node_id: 9, node_name: "x".to_string() };
    assert_eq!(source_menu_index(&gone, &nodes), 0);
    assert_eq!(source_for_menu_index(2, &nodes), src);
    assert_eq!(source_for_menu_index(0, &nodes), AudioSource::SystemOutput);
    assert_eq!(source_for_menu_index(5, &nodes), AudioSource::SystemOutput);
}

#[test]
fn dock_anchor_choices() {
    let a = dock_anchors(ScreenEdge::Bottom, DockPosition::Stretch);
    assert_eq!(a.primary, ScreenEdge::Bottom);
    assert_eq!(a.stretch, Some((ScreenEdge::Left, ScreenEdge::Right)));
    assert_eq!(a.offset, None);
    let a = dock_anchors(ScreenEdge::Right, DockPosition::Offset(40));
    assert_eq!(a.stretch, None);
    assert_eq!(a.offset, Some((ScreenEdge::Top, 40)));
    let a = dock_anchors(ScreenEdge::Top, DockPosition::Center);
    assert_eq!(a.primary, ScreenEdge::Top);
    assert!(a.stretch.is_none() && a.offset.is_none());
}
