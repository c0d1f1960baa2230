use next_socks5::metrics::Metrics;
use next_socks5::mock::{Generator, Rng, MAX_ACTIVE, PEAK_BUDGET};

#[test]
fn step_populates_metrics_then_drain_clears_active() {
    let mut metrics = Metrics::new();
    let mut gen = Generator::new();

    // Many ticks should open connections and move bytes.
    for i in 0..200u64 {
        let phase = (i + 1) as f64 * 0.15;
        let wave = phase.sin() * 0.5 + 0.5;
        let budget = (wave * 100_000.0) as u64;
        gen.step(&mut metrics, budget);
    }
    let snap = metrics.snapshot();
    assert!(snap.total_conns > 0, "should have opened connections");
    assert!(
        snap.bytes_up > 0 && snap.bytes_down > 0,
        "should have moved bytes"
    );
    assert!(gen.active_len() != 0, "some connections still active");

    // Draining unregisters the remaining synthetic connections.
    gen.drain(&mut metrics);
    assert_eq!(metrics.snapshot().active_conns, 0);
}

#[test]
fn ticks_are_reproducible_and_bounded() {
    let mut a = (Generator::new(), Metrics::new());
    let mut b = (Generator::new(), Metrics::new());
    for _ in 0..300 {
        let first = a.0.step(&mut a.1, PEAK_BUDGET);
        let second = b.0.step(&mut b.1, PEAK_BUDGET);
        assert_eq!(first, second);
        assert!(a.0.active_len() <= MAX_ACTIVE);
        assert_eq!(a.1.active(), a.0.active_len() as u64);
    }
    assert_eq!(a.1.snapshot(), b.1.snapshot());
}

#[test]
fn a_tick_opens_and_closes_at_most_one() {
    let mut metrics = Metrics::new();
    let mut gen = Generator::new();
    let mut failures = 0;
    for _ in 0..300 {
        let before = (gen.active_len() as u64, metrics.snapshot());
        gen.step(&mut metrics, PEAK_BUDGET);
        let after = (gen.active_len() as u64, metrics.snapshot());
        let opened = after.1.total_conns - before.1.total_conns;
        let closed = after.1.successes - before.1.successes;
        assert!(opened <= 1 && closed <= 1);
        assert_eq!(after.0 + closed, before.0 + opened);
        let failed = after.1.failures - before.1.failures;
        assert!(failed <= 1);
        failures += failed;
        assert_eq!(after.1.error_codes[0], 0);
        assert_eq!(after.1.error_codes.iter().sum::<u64>(), failures);
        assert_eq!(metrics.connections().len() as u64, after.0);
    }
    assert!(failures > 0);
}

#[test]
fn the_generator_draws_xorshift_values() {
    let mut rng = Rng(1);
    // 1 ^ (1 << 13) = 0x2001; ^ (>> 7) = 0x2041; ^ (<< 17) = 0x40822041.
    assert_eq!(rng.next_u64(), 0x4082_2041);
    let mut rng = Rng(1);
    assert_eq!(rng.below(1000), 0x4082_2041 % 1000);
    assert_eq!(rng.below(0), 0);
}
