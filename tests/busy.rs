use lact_daemon::busy::parse_gpu_busy_ms;

#[test]
fn busy_line_is_read() {
    let data = "RPS enabled? yes\nGPU busy? yes [3 boosts], 12345ms\nBoosts outstanding? 0\n";
    assert_eq!(parse_gpu_busy_ms(data), Some(12345));
}

#[test]
fn idle_gpu_has_no_value() {
    assert_eq!(parse_gpu_busy_ms("GPU busy? no\n"), None);
    assert_eq!(parse_gpu_busy_ms("RPS enabled? yes\n"), None);
    assert_eq!(parse_gpu_busy_ms("GPU busy? yes 12x4ms\n"), None);
}

#[test]
fn trailing_blanks_are_ignored() {
    assert_eq!(parse_gpu_busy_ms("GPU busy? yes, 7ms  \r\n"), Some(7));
}
