use audio_multiplexer::ring::{
    chunk_len, sample_slot, ReadError, Reader, Ring, WriteStep, WriteSteps, CHANNELS,
    MAX_WRITE_FRAMES,
};

/// Duplicates each value into a stereo frame.
fn frames(values: &[f32]) -> Vec<u32> {
    values.iter().flat_map(|&v| [v.to_bits(), v.to_bits()]).collect()
}

#[test]
fn write_then_read_roundtrip() {
    let mut ring = Ring::new(4 * MAX_WRITE_FRAMES);
    let mut reader = ring.reader();
    ring.write(&frames(&[1.0, 2.0, 3.0]));
    assert_eq!(reader.available(&ring), 3);
    let mut dst = vec![0u32; 6];
    reader.read_exact(&ring, &mut dst).unwrap();
    assert_eq!(dst, frames(&[1.0, 2.0, 3.0]));
    assert_eq!(reader.available(&ring), 0);
}

#[test]
fn read_more_than_available_fails() {
    let mut ring = Ring::new(4 * MAX_WRITE_FRAMES);
    let mut reader = ring.reader();
    ring.write(&frames(&[1.0]));
    let mut dst = vec![0u32; 4];
    assert_eq!(reader.read_exact(&ring, &mut dst), Err(ReadError::NotEnough));
    // The failed read must not consume anything.
    assert_eq!(reader.available(&ring), 1);
    assert_eq!(dst, vec![0u32; 4]);
}

#[test]
fn lapped_reader_gets_overwritten_and_recovers() {
    let capacity = 4 * MAX_WRITE_FRAMES;
    let mut ring = Ring::new(capacity);
    let mut reader = ring.reader();
    // Write more than the full capacity so the reader region is reused.
    let chunk = vec![0.5f32.to_bits(); MAX_WRITE_FRAMES * CHANNELS];
    for _ in 0..5 {
        ring.write(&chunk);
    }
    let mut dst = vec![0u32; 2];
    assert_eq!(reader.read_exact(&ring, &mut dst), Err(ReadError::Overwritten));
    reader.seek_to_latest(&ring, 16);
    assert_eq!(reader.available(&ring), 16);
    reader.read_exact(&ring, &mut dst).unwrap();
    assert_eq!(dst, [0.5f32.to_bits(), 0.5f32.to_bits()]);
}

#[test]
fn wraparound_preserves_sample_order() {
    let capacity = 4 * MAX_WRITE_FRAMES;
    let mut ring = Ring::new(capacity);
    // Advance close to the wrap point, then follow with a reader.
    let filler = vec![0u32; (capacity - 8) * CHANNELS];
    ring.write(&filler);
    let mut reader = ring.reader();
    let data: Vec<f32> = (0..32).map(|i| i as f32).collect();
    ring.write(&frames(&data));
    let mut dst = vec![0u32; 32 * CHANNELS];
    reader.read_exact(&ring, &mut dst).unwrap();
    assert_eq!(dst, frames(&data));
}

#[test]
fn readers_are_independent() {
    let mut ring = Ring::new(4 * MAX_WRITE_FRAMES);
    let mut first = ring.reader();
    ring.write(&frames(&[1.0, 2.0]));
    let mut second = ring.reader();
    ring.write(&frames(&[3.0]));
    assert_eq!(first.available(&ring), 3);
    assert_eq!(second.available(&ring), 1);
    let mut dst = vec![0u32; 2];
    second.read_exact(&ring, &mut dst).unwrap();
    assert_eq!(dst, frames(&[3.0]));
    first.read_exact(&ring, &mut dst).unwrap();
    assert_eq!(dst, frames(&[1.0]));
    assert_eq!(first.available(&ring), 2);
    assert_eq!(ring.write_pos(), 3);
}

#[test]
fn split_writes_and_reads_give_the_same_stream() {
    let mut whole = Ring::new(4 * MAX_WRITE_FRAMES);
    let mut pieces = Ring::new(4 * MAX_WRITE_FRAMES);
    let mut a = whole.reader();
    let mut b = pieces.reader();
    // Larger than one chunk, so the write is split inside as well.
    let data: Vec<u32> = (0..(2 * MAX_WRITE_FRAMES as u32 + 10) * 2).collect();
    whole.write(&data);
    pieces.write(&data[..6]);
    pieces.write(&data[6..]);
    let mut once = vec![0u32; data.len()];
    a.read_exact(&whole, &mut once).unwrap();
    let mut twice = vec![0u32; data.len()];
    b.read_exact(&pieces, &mut twice[..100]).unwrap();
    b.read_exact(&pieces, &mut twice[100..]).unwrap();
    assert_eq!(once, data);
    assert_eq!(twice, data);
}

#[test]
fn region_is_valid_up_to_the_safety_margin() {
    let capacity = 4 * MAX_WRITE_FRAMES as u64;
    let margin = MAX_WRITE_FRAMES as u64;
    let reader = Reader::at(100);
    assert!(reader.region_valid(100 + capacity - margin, capacity));
    assert!(!reader.region_valid(100 + capacity - margin + 1, capacity));
    assert_eq!(reader.check_read(100 + capacity - margin, 1, capacity), Ok(()));
    assert_eq!(
        reader.check_read(100 + capacity - margin + 1, 1, capacity),
        Err(ReadError::Overwritten)
    );
    assert_eq!(reader.check_read(100, 1, capacity), Err(ReadError::NotEnough));
}

#[test]
fn a_torn_copy_is_not_consumed() {
    let capacity = 4 * MAX_WRITE_FRAMES as u64;
    let mut reader = Reader::at(0);
    // The writer advanced into the region while the frames were copied.
    assert_eq!(
        reader.finish_read(capacity, 8, capacity),
        Err(ReadError::Overwritten)
    );
    assert_eq!(reader.pos(), 0);
    assert_eq!(reader.finish_read(8, 8, capacity), Ok(()));
    assert_eq!(reader.pos(), 8);
}

#[test]
fn seek_keeps_at_most_what_was_written() {
    let mut reader = Reader::at(7);
    reader.seek_behind(10, 4);
    assert_eq!(reader.pos(), 6);
    assert_eq!(reader.available_at(10), 4);
    reader.seek_behind(10, 40);
    assert_eq!(reader.pos(), 0);
    assert_eq!(reader.available_at(10), 10);
}

#[test]
fn chunks_and_slots() {
    assert_eq!(chunk_len(20, 6), 14);
    assert_eq!(chunk_len(100_000, 10), MAX_WRITE_FRAMES * CHANNELS);
    assert_eq!(chunk_len(6, 6), 0);
    assert_eq!(sample_slot(5, 1, 8), 3);
    assert_eq!(sample_slot(0, 0, 8), 0);
}

#[test]
fn readers_agree_where_they_overlap() {
    let mut ring = Ring::new(4 * MAX_WRITE_FRAMES);
    ring.write(&frames(&[1.0, 2.0, 3.0, 4.0]));
    let mut early = Reader::at(0);
    let mut late = Reader::at(2);
    let mut first = vec![0u32; 6];
    let mut second = vec![0u32; 4];
    early.read_exact(&ring, &mut first).unwrap();
    late.read_exact(&ring, &mut second).unwrap();
    assert_eq!(first[4..], second[..2]);
    assert_eq!(second, frames(&[3.0, 4.0]));
}

#[test]
fn a_write_publishes_chunk_by_chunk() {
    let len = (MAX_WRITE_FRAMES + 3) * CHANNELS;
    let slots = 4 * MAX_WRITE_FRAMES * CHANNELS;
    let mut steps = WriteSteps::begin(10, len);
    let mut stored = Vec::new();
    let mut published = Vec::new();
    loop {
        match steps.next_step(slots) {
            WriteStep::Store { index, slot } => {
                assert_eq!(slot, (10 * CHANNELS + index) % slots);
                stored.push(index);
            }
            WriteStep::Publish { write_pos } => published.push((stored.len(), write_pos)),
            WriteStep::Done => break,
        }
    }
    assert_eq!(stored, (0..len).collect::<Vec<usize>>());
    assert_eq!(
        published,
        vec![
            (MAX_WRITE_FRAMES * CHANNELS, 10 + MAX_WRITE_FRAMES as u64),
            (len, 10 + MAX_WRITE_FRAMES as u64 + 3),
        ]
    );
    assert_eq!(steps.next_step(slots), WriteStep::Done);
    assert_eq!(WriteSteps::begin(5, 0).next_step(slots), WriteStep::Done);
}

#[test]
fn a_read_beside_an_unfinished_write_is_untorn() {
    let capacity = 4 * MAX_WRITE_FRAMES;
    let slots = capacity * CHANNELS;
    let data: Vec<u32> = (1..=(2 * MAX_WRITE_FRAMES * CHANNELS) as u32).collect();
    let mut memory = vec![0u32; slots];
    let mut write_pos = 0;
    let mut steps = WriteSteps::begin(0, data.len());
    let mut reader = Reader::at(0);
    let mut reads = 0;
    let mut count = 0;
    loop {
        match steps.next_step(slots) {
            WriteStep::Store { index, slot } => memory[slot] = data[index],
            WriteStep::Publish { write_pos: position } => write_pos = position,
            WriteStep::Done => break,
        }
        count += 1;
        if count % 1000 != 0 || reader.check_read(write_pos, 100, capacity as u64).is_err() {
            continue;
        }
        let first = reader.pos() as usize * CHANNELS;
        let copy: Vec<u32> = (0..100 * CHANNELS)
            .map(|i| memory[sample_slot(reader.pos(), i, slots)])
            .collect();
        reader.finish_read(write_pos, 100, capacity as u64).unwrap();
        assert_eq!(copy, data[first..first + 100 * CHANNELS]);
        reads += 1;
    }
    assert!(reads > 0);
}
