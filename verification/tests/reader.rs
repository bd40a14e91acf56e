use crossbeam::channel::bounded;
use wigglyair::cells::CurrentSample;
use wigglyair::queue::{Offered, SampleBuffer};
use wigglyair::reader::{Decoded, Enqueued, Reader, ReaderStep};
use wigglyair::skip::SkipSecs;

fn block(frames: usize, channels: usize, rate: u32) -> Decoded<f32> {
    let samples: Vec<f32> = (0..frames * channels).map(|i| i as f32).collect();
    Decoded::Block { samples, sample_rate: rate, channels }
}

fn offered(step: ReaderStep<f32>) -> Vec<f32> {
    match step {
        ReaderStep::Offer(buffer) => buffer.samples().clone(),
        ReaderStep::NextPacket => panic!("nothing offered: next packet"),
        ReaderStep::NextFile => panic!("nothing offered: next file"),
    }
}

#[test]
fn sample_buffer_is_never_empty() {
    assert!(SampleBuffer::<f32>::new(Vec::new()).is_none());
    let buffer = SampleBuffer::new(vec![0.5f32, -0.5]).unwrap();
    assert_eq!(buffer.len(), 2);
    assert_eq!(buffer.samples(), &vec![0.5f32, -0.5]);
}

#[test]
fn reader_without_skip_offers_the_whole_block() {
    let mut reader = Reader::new();
    let mut skip = SkipSecs::parse("00:00".to_string()).unwrap();
    let mut position = CurrentSample::new();
    let step = reader.step(block(4, 2, 44100), &mut skip, &mut position);
    assert_eq!(offered(step), vec![0.0, 1.0, 2.0, 3.0, 4.0, 5.0, 6.0, 7.0]);
    assert_eq!(reader.pending(), 0);
    assert_eq!(position.get(), 0);
}

#[test]
fn reader_skips_whole_frames_first() {
    let mut reader = Reader::new();
    let mut skip = SkipSecs::new(1);
    let mut position = CurrentSample::new();
    // one second at 3 frames a second: three frames of two samples go
    let step = reader.step(block(5, 2, 3), &mut skip, &mut position);
    assert_eq!(offered(step), vec![6.0, 7.0, 8.0, 9.0]);
    assert_eq!(skip.seconds(), 0);
    assert_eq!(reader.pending(), 0);
    assert_eq!(position.get(), 3);
    let step = reader.step(block(2, 2, 3), &mut skip, &mut position);
    assert_eq!(offered(step), vec![0.0, 1.0, 2.0, 3.0]);
    assert_eq!(position.get(), 3);
}

#[test]
fn reader_carries_the_budget_over_blocks() {
    let mut reader = Reader::new();
    let mut skip = SkipSecs::new(2);
    let mut position = CurrentSample::new();
    // ten frames to skip, blocks of four
    assert!(matches!(
        reader.step(block(4, 2, 5), &mut skip, &mut position),
        ReaderStep::NextPacket
    ));
    assert_eq!(reader.pending(), 6);
    assert_eq!(position.get(), 4);
    assert!(matches!(
        reader.step(block(4, 2, 5), &mut skip, &mut position),
        ReaderStep::NextPacket
    ));
    assert_eq!(reader.pending(), 2);
    let step = reader.step(block(4, 2, 5), &mut skip, &mut position);
    assert_eq!(offered(step), vec![4.0, 5.0, 6.0, 7.0]);
    assert_eq!(reader.pending(), 0);
    assert_eq!(position.get(), 10);
}

#[test]
fn one_second_of_skip_costs_one_second_of_frames() {
    // a track of 44100 frames in stereo, read in blocks of 4410 frames
    let mut kept = [0usize; 2];
    for (case, code) in ["00:00", "00:01"].iter().enumerate() {
        let mut reader = Reader::new();
        let mut skip = SkipSecs::parse(code.to_string()).unwrap();
        let mut position = CurrentSample::new();
        for _ in 0..10 {
            match reader.step(block(4410, 2, 44100), &mut skip, &mut position) {
                ReaderStep::Offer(buffer) => kept[case] += buffer.len(),
                ReaderStep::NextPacket => {}
                ReaderStep::NextFile => panic!("a block never ends the file"),
            }
        }
        assert_eq!(position.get(), case as u64 * 44100);
    }
    assert_eq!(kept[0], 88200);
    assert_eq!(kept[1], 0);
}

#[test]
fn reader_takes_later_skips_too() {
    let mut reader = Reader::new();
    let mut skip = SkipSecs::default();
    let mut position = CurrentSample::new();
    assert_eq!(offered(reader.step(block(2, 1, 4), &mut skip, &mut position)), vec![0.0, 1.0]);
    skip.skip_forward(1);
    assert!(matches!(
        reader.step(block(3, 1, 4), &mut skip, &mut position),
        ReaderStep::NextPacket
    ));
    assert_eq!(reader.pending(), 1);
    assert_eq!(offered(reader.step(block(3, 1, 4), &mut skip, &mut position)), vec![1.0, 2.0]);
    assert_eq!(position.get(), 4);
}

#[test]
fn reader_leaves_a_block_without_channels_alone() {
    let mut reader = Reader::new();
    let mut skip = SkipSecs::new(1);
    let mut position = CurrentSample::new();
    let event = Decoded::Block { samples: vec![1.0f32, 2.0], sample_rate: 10, channels: 0 };
    assert_eq!(offered(reader.step(event, &mut skip, &mut position)), vec![1.0, 2.0]);
    assert_eq!(reader.pending(), 10);
    assert_eq!(position.get(), 0);
}

#[test]
fn reader_passes_over_empty_blocks() {
    let mut reader = Reader::new();
    let mut skip = SkipSecs::default();
    let mut position = CurrentSample::new();
    assert!(matches!(
        reader.step(block(0, 2, 44100), &mut skip, &mut position),
        ReaderStep::NextPacket
    ));
}

#[test]
fn reader_moves_on_after_failures() {
    let mut reader = Reader::new();
    let mut skip = SkipSecs::new(5);
    let mut position = CurrentSample::starting_at(9);
    for event in [Decoded::<f32>::OtherTrack, Decoded::DecodeFailed] {
        assert!(matches!(reader.step(event, &mut skip, &mut position), ReaderStep::NextPacket));
    }
    for event in [Decoded::<f32>::EndOfStream, Decoded::ReadFailed, Decoded::Fatal] {
        assert!(matches!(reader.step(event, &mut skip, &mut position), ReaderStep::NextFile));
    }
    assert_eq!(skip.seconds(), 5);
    assert_eq!(position.get(), 9);
    assert_eq!(reader.pending(), 0);
}

#[test]
fn after_offer_maps_the_three_answers() {
    let buffer = SampleBuffer::new(vec![1.0f32]).unwrap();
    assert!(matches!(Reader::after_offer(Offered::<f32>::Sent), Enqueued::Sent));
    match Reader::after_offer(Offered::Full(buffer)) {
        Enqueued::Retry(back) => assert_eq!(back.samples(), &vec![1.0f32]),
        _ => panic!("a full queue asks for another try"),
    }
    let buffer = SampleBuffer::new(vec![1.0f32]).unwrap();
    assert!(matches!(Reader::after_offer(Offered::Closed(buffer)), Enqueued::Stop));
}

#[test]
fn enqueue_sends_while_there_is_room() {
    let (tx, rx) = bounded::<SampleBuffer<f32>>(1);
    let first = SampleBuffer::new(vec![1.0f32, 2.0]).unwrap();
    assert!(matches!(Reader::enqueue(&tx, first), Enqueued::Sent));
    let second = SampleBuffer::new(vec![3.0f32, 4.0]).unwrap();
    match Reader::enqueue(&tx, second) {
        Enqueued::Retry(back) => {
            assert_eq!(back.samples(), &vec![3.0f32, 4.0]);
            assert_eq!(rx.try_recv().unwrap().samples(), &vec![1.0f32, 2.0]);
            assert!(matches!(Reader::enqueue(&tx, back), Enqueued::Sent));
        }
        _ => panic!("the queue was full"),
    }
    assert_eq!(rx.try_recv().unwrap().samples(), &vec![3.0f32, 4.0]);
}

#[test]
fn enqueue_stops_when_the_queue_is_closed() {
    let (tx, rx) = bounded::<SampleBuffer<f32>>(1);
    drop(rx);
    let buffer = SampleBuffer::new(vec![1.0f32]).unwrap();
    assert!(matches!(Reader::enqueue(&tx, buffer), Enqueued::Stop));
}
