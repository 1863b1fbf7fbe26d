use fourier::fps_counter::{FpsCounter, FpsReading};

#[test]
fn reading_comes_after_a_second() {
    let mut counter = FpsCounter::new(5_000);
    assert_eq!(counter.execute(400_000_000), None);
    assert_eq!(counter.execute(800_000_000), None);
    assert_eq!(
        counter.execute(1_000_005_000),
        Some(FpsReading { frames: 3, elapsed_nanos: 1_000_000_000 })
    );
}

#[test]
fn new_span_begins_at_the_reading() {
    let mut counter = FpsCounter::new(0);
    assert_eq!(
        counter.execute(1_500_000_000),
        Some(FpsReading { frames: 1, elapsed_nanos: 1_500_000_000 })
    );
    assert_eq!(counter.execute(2_000_000_000), None);
    assert_eq!(
        counter.execute(2_500_000_000),
        Some(FpsReading { frames: 2, elapsed_nanos: 1_000_000_000 })
    );
}

#[test]
fn clock_that_runs_backwards_counts_as_no_time() {
    let mut counter = FpsCounter::new(10_000_000_000);
    assert_eq!(counter.execute(1), None);
    assert_eq!(counter.execute(9_999_999_999), None);
    assert_eq!(
        counter.execute(11_000_000_000),
        Some(FpsReading { frames: 3, elapsed_nanos: 1_000_000_000 })
    );
}
