//! Tests for the histogram accumulator and its cumulative bucket
//! stream.

use unbound_telemetry::histogram::{Bucket, Buckets, Histogram};
use unbound_telemetry::numbers::Nanos;

/// A duration in whole nanoseconds from fractional seconds.
fn d(secs: f64) -> Nanos {
    Nanos {
        nanos: (secs * 1_000_000_000.0).round() as u128,
    }
}

#[test]
fn test_histogram() {
    let source = vec![
        // Roughly in the same format what the resolver's statistics
        // output uses: forty exponential buckets.
        (d(000_000.000_001), 0),
        (d(000_000.000_002), 0),
        (d(000_000.000_004), 0),
        (d(000_000.000_008), 0),
        (d(000_000.000_016), 0),
        (d(000_000.000_032), 0),
        (d(000_000.000_064), 0),
        (d(000_000.000_128), 0),
        (d(000_000.000_256), 0),
        (d(000_000.000_512), 0),
        (d(000_000.001_024), 0),
        (d(000_000.002_048), 0),
        (d(000_000.004_096), 0),
        (d(000_000.008_192), 0),
        (d(000_000.016_384), 0),
        (d(000_000.032_768), 0),
        (d(000_000.065_536), 2),
        (d(000_000.131_072), 1),
        (d(000_000.262_144), 1),
        (d(000_000.524_288), 2),
        (d(000_001.000_000), 1),
        (d(000_002.000_000), 0),
        (d(000_004.000_000), 0),
        (d(000_008.000_000), 0),
        (d(000_016.000_000), 0),
        (d(000_032.000_000), 0),
        (d(000_064.000_000), 0),
        (d(000_128.000_000), 0),
        (d(000_256.000_000), 0),
        (d(000_512.000_000), 0),
        (d(001_024.000_000), 0),
        (d(002_048.000_000), 0),
        (d(004_096.000_000), 0),
        (d(008_192.000_000), 0),
        (d(016_384.000_000), 0),
        (d(032_768.000_000), 0),
        (d(065_536.000_000), 0),
        (d(131_072.000_000), 0),
        (d(262_144.000_000), 0),
        (d(524_288.000_000), 0),
    ];
    assert_eq!(source.len(), 40);

    let mut h = Histogram::new(d(0.280_601));
    for (le, value) in source.into_iter() {
        h.push(le, value);
    }

    // sum = 0.280601 seconds x 7 observations = 1.964207 seconds.
    assert_eq!(h.sum(), 1_964_207_000);
    assert_eq!(h.count(), 7);

    let mut buckets = h.buckets();

    assert_eq!(buckets.next(), Some(Bucket::Le(d(000_000.000_001), 0)));
    assert_eq!(buckets.next(), Some(Bucket::Le(d(000_000.000_002), 0)));
    assert_eq!(buckets.next(), Some(Bucket::Le(d(000_000.000_004), 0)));
    assert_eq!(buckets.next(), Some(Bucket::Le(d(000_000.000_008), 0)));
    assert_eq!(buckets.next(), Some(Bucket::Le(d(000_000.000_016), 0)));
    assert_eq!(buckets.next(), Some(Bucket::Le(d(000_000.000_032), 0)));
    assert_eq!(buckets.next(), Some(Bucket::Le(d(000_000.000_064), 0)));
    assert_eq!(buckets.next(), Some(Bucket::Le(d(000_000.000_128), 0)));
    assert_eq!(buckets.next(), Some(Bucket::Le(d(000_000.000_256), 0)));
    assert_eq!(buckets.next(), Some(Bucket::Le(d(000_000.000_512), 0)));
    assert_eq!(buckets.next(), Some(Bucket::Le(d(000_000.001_024), 0)));
    assert_eq!(buckets.next(), Some(Bucket::Le(d(000_000.002_048), 0)));
    assert_eq!(buckets.next(), Some(Bucket::Le(d(000_000.004_096), 0)));
    assert_eq!(buckets.next(), Some(Bucket::Le(d(000_000.008_192), 0)));
    assert_eq!(buckets.next(), Some(Bucket::Le(d(000_000.016_384), 0)));
    assert_eq!(buckets.next(), Some(Bucket::Le(d(000_000.032_768), 0)));
    assert_eq!(buckets.next(), Some(Bucket::Le(d(000_000.065_536), 2)));
    assert_eq!(buckets.next(), Some(Bucket::Le(d(000_000.131_072), 3)));
    assert_eq!(buckets.next(), Some(Bucket::Le(d(000_000.262_144), 4)));
    assert_eq!(buckets.next(), Some(Bucket::Le(d(000_000.524_288), 6)));
    assert_eq!(buckets.next(), Some(Bucket::Le(d(000_001.000_000), 7)));
    assert_eq!(buckets.next(), Some(Bucket::Le(d(000_002.000_000), 7)));
    assert_eq!(buckets.next(), Some(Bucket::Le(d(000_004.000_000), 7)));
    assert_eq!(buckets.next(), Some(Bucket::Le(d(000_008.000_000), 7)));
    assert_eq!(buckets.next(), Some(Bucket::Le(d(000_016.000_000), 7)));
    assert_eq!(buckets.next(), Some(Bucket::Le(d(000_032.000_000), 7)));
    assert_eq!(buckets.next(), Some(Bucket::Le(d(000_064.000_000), 7)));
    assert_eq!(buckets.next(), Some(Bucket::Le(d(000_128.000_000), 7)));
    assert_eq!(buckets.next(), Some(Bucket::Le(d(000_256.000_000), 7)));
    assert_eq!(buckets.next(), Some(Bucket::Le(d(000_512.000_000), 7)));
    assert_eq!(buckets.next(), Some(Bucket::Le(d(001_024.000_000), 7)));
    assert_eq!(buckets.next(), Some(Bucket::Le(d(002_048.000_000), 7)));
    assert_eq!(buckets.next(), Some(Bucket::Le(d(004_096.000_000), 7)));
    assert_eq!(buckets.next(), Some(Bucket::Le(d(008_192.000_000), 7)));
    assert_eq!(buckets.next(), Some(Bucket::Le(d(016_384.000_000), 7)));
    assert_eq!(buckets.next(), Some(Bucket::Le(d(032_768.000_000), 7)));
    assert_eq!(buckets.next(), Some(Bucket::Le(d(065_536.000_000), 7)));
    assert_eq!(buckets.next(), Some(Bucket::Le(d(131_072.000_000), 7)));
    assert_eq!(buckets.next(), Some(Bucket::Le(d(262_144.000_000), 7)));
    assert_eq!(buckets.next(), Some(Bucket::Le(d(524_288.000_000), 7)));
    assert_eq!(buckets.next(), Some(Bucket::Inf(7)));
    assert_eq!(buckets.next(), None);
}

#[test]
fn histogram_buckets_sorted_from_unordered_input() {
    // Buckets pushed out of order come back sorted by upper bound.
    let mut h = Histogram::new(Nanos { nanos: 0 });
    h.push(Nanos { nanos: 3_000 }, 5);
    h.push(Nanos { nanos: 1_000 }, 1);
    h.push(Nanos { nanos: 2_000 }, 2);

    let mut buckets = h.buckets();
    assert_eq!(buckets.next(), Some(Bucket::Le(Nanos { nanos: 1_000 }, 1)));
    assert_eq!(buckets.next(), Some(Bucket::Le(Nanos { nanos: 2_000 }, 3)));
    assert_eq!(buckets.next(), Some(Bucket::Le(Nanos { nanos: 3_000 }, 8)));
    assert_eq!(buckets.next(), Some(Bucket::Inf(8)));
    assert_eq!(buckets.next(), None);
}

#[test]
fn histogram_count_wraps_instead_of_trapping() {
    let mut h = Histogram::new(Nanos { nanos: 0 });
    h.push(Nanos { nanos: 1 }, u64::MAX);
    h.push(Nanos { nanos: 2 }, 3);
    assert_eq!(h.count(), 2);
}

#[test]
fn empty_histogram_stream_is_one_infinity_item() {
    let h = Histogram::default();
    assert_eq!(h.sum(), 0);
    assert_eq!(h.count(), 0);
    let mut buckets = h.buckets();
    assert_eq!(buckets.next(), Some(Bucket::Inf(0)));
    assert_eq!(buckets.next(), None);
}

#[test]
fn buckets_new_streams_given_pairs() {
    let mut buckets = Buckets::new(vec![(Nanos { nanos: 10 }, 4), (Nanos { nanos: 20 }, 6)]);
    assert_eq!(buckets.next(), Some(Bucket::Le(Nanos { nanos: 10 }, 4)));
    assert_eq!(buckets.next(), Some(Bucket::Le(Nanos { nanos: 20 }, 10)));
    assert_eq!(buckets.next(), Some(Bucket::Inf(10)));
    assert_eq!(buckets.next(), None);
}
