use mixjack::effects::SpectralEngine;
use mixjack::ring::RingBuffer;

#[test]
fn ring_is_first_in_first_out() {
    let mut ring: RingBuffer<i64> = RingBuffer::new(3);
    assert!(ring.is_empty());
    assert_eq!(ring.max_len(), 3);
    assert_eq!(ring.push(1), None);
    assert_eq!(ring.push(2), None);
    assert_eq!(ring.len(), 2);
    assert_eq!(ring.get(0), Some(1));
    assert_eq!(ring.get(1), Some(2));
    assert_eq!(ring.get(2), None);
    assert_eq!(ring.pop(), Some(1));
    assert_eq!(ring.pop(), Some(2));
    assert_eq!(ring.pop(), None);
}

#[test]
fn ring_full_push_makes_the_oldest_give_way() {
    let mut ring: RingBuffer<i64> = RingBuffer::new(3);
    ring.extend(&[1, 2, 3]);
    assert!(ring.is_full());
    assert_eq!(ring.push(4), Some(1));
    assert_eq!(ring.len(), 3);
    assert_eq!(ring.pop(), Some(2));
    assert_eq!(ring.push(5), None);
    assert_eq!(ring.push(6), Some(3));
    assert_eq!(ring.get(0), Some(4));
    assert_eq!(ring.get(1), Some(5));
    assert_eq!(ring.get(2), Some(6));
}

#[test]
fn ring_extend_past_capacity_keeps_the_newest() {
    let mut ring: RingBuffer<i64> = RingBuffer::new(2);
    ring.extend(&[1, 2, 3, 4, 5]);
    assert_eq!(ring.pop(), Some(4));
    assert_eq!(ring.pop(), Some(5));
    assert_eq!(ring.pop(), None);
}

#[test]
fn ring_try_read_takes_all_or_nothing() {
    let mut ring: RingBuffer<i64> = RingBuffer::new(4);
    ring.extend(&[1, 2, 3]);
    let mut four = [0i64; 4];
    assert!(!ring.try_read(&mut four));
    assert_eq!(four, [0, 0, 0, 0]);
    assert_eq!(ring.len(), 3);
    let mut two = [0i64; 2];
    assert!(ring.try_read(&mut two));
    assert_eq!(two, [1, 2]);
    assert_eq!(ring.len(), 1);
    ring.extend(&[4, 5, 6]);
    let mut rest = [0i64; 4];
    assert!(ring.try_read(&mut rest));
    assert_eq!(rest, [3, 4, 5, 6]);
    let mut none: [i64; 0] = [];
    assert!(ring.try_read(&mut none));
}

#[test]
fn spectral_engine_needs_a_step_of_at_least_one_sample() {
    assert!(SpectralEngine::<i64>::new(vec![1, 1, 1]).is_none());
    assert!(SpectralEngine::<i64>::new(vec![]).is_none());
    let engine = SpectralEngine::<i64>::new(vec![1; 4]).unwrap();
    assert_eq!(engine.fft_length(), 4);
    assert_eq!(engine.step_size(), 1);
    assert_eq!(engine.latency(), 3);
    let engine = SpectralEngine::<i64>::new(vec![1; 512]).unwrap();
    assert_eq!(engine.step_size(), 128);
    assert_eq!(engine.latency(), 384);
}

#[test]
fn spectral_engine_loads_a_step_at_a_time() {
    let mut engine = SpectralEngine::<i64>::new(vec![1, 2, 3, 4, 5, 6, 7, 8]).unwrap();
    engine.set_in_gain(10);
    let mut input: RingBuffer<i64> = RingBuffer::new(16);
    input.extend(&[1]);
    assert!(engine.load(&mut input).is_none());
    assert_eq!(input.len(), 1);
    input.extend(&[2, 3]);
    // the step lands at the end of the window, behind six samples of silence
    let frame = engine.load(&mut input).unwrap();
    assert_eq!(frame, vec![0, 0, 0, 0, 0, 0, 70, 160]);
    assert_eq!(input.len(), 1);
}

#[test]
fn spectral_engine_overlaps_and_adds() {
    let mut engine = SpectralEngine::<i64>::new(vec![8; 8]).unwrap();
    let mut output: RingBuffer<i64> = RingBuffer::new(16);
    // each sample of the frame is weighted by 8 and divided by the length 8
    engine.emit(&[1, 2, 3, 4, 5, 6, 7, 8], &mut output);
    assert_eq!(output.pop(), Some(1));
    assert_eq!(output.pop(), Some(2));
    assert_eq!(output.pop(), None);
    // what is left has moved forward by a step and the next frame adds to it
    engine.emit(&[10, 10, 10, 10, 10, 10, 10, 10], &mut output);
    assert_eq!(output.pop(), Some(13));
    assert_eq!(output.pop(), Some(14));
    engine.emit(&[0; 8], &mut output);
    assert_eq!(output.pop(), Some(15));
    assert_eq!(output.pop(), Some(16));
    engine.emit(&[0; 8], &mut output);
    assert_eq!(output.pop(), Some(17));
    assert_eq!(output.pop(), Some(18));
    engine.emit(&[0; 8], &mut output);
    assert_eq!(output.pop(), Some(10));
    assert_eq!(output.pop(), Some(10));
    engine.emit(&[0; 8], &mut output);
    assert_eq!(output.pop(), Some(0));
}

#[test]
fn spectral_engine_runs_while_input_lasts() {
    // a window of twos over frames of eight: each pass adds frame * 2 / 8
    let mut engine = SpectralEngine::<i64>::new(vec![2; 8]).unwrap();
    let mut input: RingBuffer<i64> = RingBuffer::new(32);
    let mut output: RingBuffer<i64> = RingBuffer::new(32);
    input.extend(&[4, 8, 12, 16, 20]);
    let seen = std::cell::Cell::new(0usize);
    let (taken, complete) = engine.process(&mut input, &mut output, true, &|frame: Vec<i64>, report| {
        assert!(report);
        seen.set(seen.get() + 1);
        // stands for a transform pair that scales by the frame length, as an
        // unnormalised forward and inverse transform do
        frame.iter().map(|v| v * 8).collect()
    });
    assert_eq!((taken, complete), (2, true));
    assert_eq!(seen.get(), 2);
    assert_eq!(input.len(), 1);
    assert_eq!(output.len(), 4);
    // nothing has travelled the latency of six samples yet
    assert_eq!(output.pop(), Some(0));
    input.extend(&[24, 28, 32, 36, 40, 44, 48]);
    let (taken, complete) = engine.process(&mut input, &mut output, false, &|frame: Vec<i64>, report| {
        assert!(!report);
        frame.iter().map(|v| v * 8).collect()
    });
    assert_eq!((taken, complete), (4, true));
    let mut heard = Vec::new();
    while let Some(v) = output.pop() {
        heard.push(v);
    }
    // every sample is covered by four windows, each of weight 2 * 2 = 4
    assert_eq!(heard, vec![0, 0, 0, 0, 0, 64, 128, 192, 256, 320, 384]);
}

#[test]
fn spectral_engine_stops_at_a_frame_of_the_wrong_length() {
    let mut engine = SpectralEngine::<i64>::new(vec![1; 8]).unwrap();
    let mut input: RingBuffer<i64> = RingBuffer::new(32);
    let mut output: RingBuffer<i64> = RingBuffer::new(32);
    input.extend(&[1, 2, 3, 4, 5, 6]);
    let (taken, complete) = engine.process(&mut input, &mut output, false, &|_, _| vec![0; 7]);
    assert_eq!((taken, complete), (1, false));
    assert_eq!(input.len(), 4);
    assert!(output.is_empty());
}

#[test]
fn spectral_engine_with_less_than_a_step_queued_does_nothing() {
    let mut engine = SpectralEngine::<i64>::new(vec![3; 8]).unwrap();
    let mut input: RingBuffer<i64> = RingBuffer::new(8);
    let mut output: RingBuffer<i64> = RingBuffer::new(8);
    output.extend(&[5, 6]);
    input.extend(&[9]);
    let called = std::cell::Cell::new(false);
    let (taken, complete) = engine.process(&mut input, &mut output, true, &|frame, _| {
        called.set(true);
        frame
    });
    assert_eq!((taken, complete), (0, true));
    assert!(!called.get());
    assert_eq!(input.len(), 1);
    assert_eq!(input.get(0), Some(9));
    assert_eq!(output.len(), 2);
    assert_eq!(output.get(0), Some(5));
    // the input window is as it was: the next frame holds only the new step
    input.extend(&[7]);
    let frame = engine.load(&mut input).unwrap();
    assert_eq!(frame, vec![0, 0, 0, 0, 0, 0, 27, 21]);
}

#[test]
fn spectral_engine_takes_as_many_steps_as_are_queued() {
    for queued in 0..20usize {
        let mut engine = SpectralEngine::<i64>::new(vec![1; 12]).unwrap();
        let mut input: RingBuffer<i64> = RingBuffer::new(32);
        let mut output: RingBuffer<i64> = RingBuffer::new(64);
        let samples: Vec<i64> = (0..queued as i64).collect();
        input.extend(&samples);
        let (taken, complete) = engine.process(&mut input, &mut output, false, &|frame, _| frame);
        assert!(complete);
        assert_eq!(taken, queued / 3);
        assert_eq!(input.len(), queued % 3);
        assert_eq!(output.len(), (queued / 3) * 3);
        if queued % 3 > 0 {
            assert_eq!(input.get(0), Some((queued - queued % 3) as i64));
        }
    }
}
