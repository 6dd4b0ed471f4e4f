use guitar_pitch_detection::audio_buffer::{append_bounded, take_frame, SampleCursor};
use std::collections::VecDeque;

#[test]
fn append_keeps_everything_below_limit() {
    let mut q: VecDeque<f32> = VecDeque::new();
    append_bounded(&mut q, &[0.1, 0.2], 4);
    append_bounded(&mut q, &[0.3], 4);
    assert_eq!(q.iter().copied().collect::<Vec<_>>(), vec![0.1, 0.2, 0.3]);
}

#[test]
fn append_drops_oldest_above_limit() {
    let mut q: VecDeque<i32> = (1..=3).collect();
    append_bounded(&mut q, &[4, 5, 6, 7], 5);
    assert_eq!(q.iter().copied().collect::<Vec<_>>(), vec![3, 4, 5, 6, 7]);
}

#[test]
fn append_with_zero_limit_empties_queue() {
    let mut q: VecDeque<i32> = VecDeque::new();
    append_bounded(&mut q, &[1, 2], 0);
    assert!(q.is_empty());
}

#[test]
fn frame_taken_from_front() {
    let mut q: VecDeque<i32> = (1..=6).collect();
    let f = take_frame(&mut q, 4, 0);
    assert_eq!(f, vec![1, 2, 3, 4]);
    assert_eq!(q.iter().copied().collect::<Vec<_>>(), vec![5, 6]);
}

#[test]
fn short_queue_gives_zero_padded_frame() {
    let mut q: VecDeque<f32> = VecDeque::from(vec![0.5, -0.5]);
    let f = take_frame(&mut q, 5, 0.0);
    assert_eq!(f, vec![0.5, -0.5, 0.0, 0.0, 0.0]);
    assert!(q.is_empty());
}

#[test]
fn empty_frame_request() {
    let mut q: VecDeque<i32> = (1..=2).collect();
    assert!(take_frame(&mut q, 0, 9).is_empty());
    assert_eq!(q.len(), 2);
}

#[test]
fn cursor_serves_frames_then_none() {
    let mut c = SampleCursor::new(vec![1, 2, 3, 4, 5]);
    assert_eq!(c.len(), 5);
    assert!(!c.is_empty());
    assert_eq!(c.next_frame(2), Some(vec![1, 2]));
    assert_eq!(c.next_frame(2), Some(vec![3, 4]));
    assert_eq!(c.next_frame(2), Some(vec![5]));
    assert!(c.is_empty());
    assert_eq!(c.next_frame(2), None);
    c.rewind();
    assert!(!c.is_empty());
    assert_eq!(c.next_frame(10), Some(vec![1, 2, 3, 4, 5]));
    assert_eq!(c.samples(), &[1, 2, 3, 4, 5]);
}

#[test]
fn cursor_on_empty_input() {
    let mut c: SampleCursor<f32> = SampleCursor::new(Vec::new());
    assert!(c.is_empty());
    assert_eq!(c.next_frame(512), None);
}

#[test]
fn cursor_huge_frame_size_takes_the_rest() {
    let mut c = SampleCursor::new(vec![1u8, 2, 3]);
    assert_eq!(c.next_frame(1), Some(vec![1]));
    assert_eq!(c.next_frame(usize::MAX), Some(vec![2, 3]));
}

#[test]
fn cursor_frames_concatenate_to_samples() {
    let samples: Vec<i32> = (0..23).collect();
    for fs in 1..=25usize {
        let mut c = SampleCursor::new(samples.clone());
        let mut frames: Vec<Vec<i32>> = Vec::new();
        while let Some(f) = c.next_frame(fs) {
            frames.push(f);
        }
        let joined: Vec<i32> = frames.concat();
        assert_eq!(joined, samples, "frame size {fs}");
        let (last, rest) = frames.split_last().unwrap();
        assert!(rest.iter().all(|f| f.len() == fs), "frame size {fs}");
        assert!(!last.is_empty() && last.len() <= fs, "frame size {fs}");
        assert_eq!(frames.len(), (samples.len() + fs - 1) / fs);
    }
}
