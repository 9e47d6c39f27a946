//! Tests on the crate's exact integer samples: here every arithmetic law
//! holds with no rounding, so the verified contracts can be checked
//! literally.

use components::oversample::BlockProcessor;
use components::oversample::Oversampler;
use components::Noop;

/// With factor 0 and an identity inner process, the widening to `i64` and
/// the narrowing back to `i32` cancel exactly.
#[test]
fn exact_pass_through() {
    let mut os: Oversampler<i64> = Oversampler::new(8, 3, 0);
    let original: Vec<i32> = vec![5, -7, i32::MAX, i32::MIN, 0, 123456789, -1, 42, 9, -9, 17];
    let mut buf = original.clone();
    os.process_block(&mut buf, &mut Noop);
    assert_eq!(buf, original);
}

/// Silence in, silence out, at every factor, exactly.
#[test]
fn exact_silence() {
    for factor in 0..=3u8 {
        let mut os: Oversampler<i64> = Oversampler::new(4, 3, factor);
        let mut buf = vec![0i32; 21];
        os.process_block(&mut buf, &mut Noop);
        assert!(buf.iter().all(|v| *v == 0), "factor {factor}");
    }
}

/// The inner process sees exactly one buffer per chunk, of the chunk's
/// length times `2^factor`.
struct Recorder {
    seen: Vec<usize>,
}

impl BlockProcessor<i64> for Recorder {
    fn process_buffer(&mut self, _buf: &mut Vec<i64>, len: usize) {
        self.seen.push(len);
    }

    // Specification-only trait item, never called at run time.
    fn block_step(
        &self,
        _buf: vstd::seq::Seq<i64>,
        _next: &Self,
        _out: vstd::seq::Seq<i64>,
    ) -> bool {
        unreachable!()
    }
}

#[test]
fn inner_sees_oversampled_chunks() {
    let mut os: Oversampler<i64> = Oversampler::new(8, 3, 2);
    let mut rec = Recorder { seen: Vec::new() };
    let mut buf = vec![0i32; 20];
    os.process_block(&mut buf, &mut rec);
    assert_eq!(rec.seen, vec![32, 32, 16]);
    os.set_oversampling_factor(0);
    let mut rec0 = Recorder { seen: Vec::new() };
    os.process_block(&mut buf, &mut rec0);
    assert_eq!(rec0.seen, vec![8, 8, 4]);
}

/// The scratch buffer is sized once for the maximum factor.
#[test]
fn scratch_buffer_sized_for_max() {
    let os: Oversampler<i64> = Oversampler::new(8, 3, 1);
    assert_eq!(os.inner.buffer.len(), 8 << 3);
    assert_eq!(os.inner.up_filters.len(), 3);
    assert_eq!(os.inner.down_filters.len(), 3);
}
