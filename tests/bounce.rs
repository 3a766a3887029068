use pathtracer::{Path, MAX_BOUNCES};

/// Feeds `hits` to a fresh path while it wants scatter rays; returns the path
/// and how many results it took.
fn feed(hits: &[bool]) -> (Path, usize) {
    let mut path = Path::new();
    let mut used = 0;
    while path.wants_scatter() && used < hits.len() {
        path.record(hits[used]);
        used += 1;
    }
    (path, used)
}

#[test]
fn fresh_path_wants_a_scatter() {
    let path = Path::new();
    assert!(path.wants_scatter());
    assert_eq!(path.bounces(), 0);
    assert_eq!(path.halvings(), 0);
    assert_eq!(path.attenuation(), 1);
}

#[test]
fn escape_keeps_color() {
    let (path, used) = feed(&[false, true, true]);
    assert_eq!(used, 1);
    assert!(!path.wants_scatter());
    assert_eq!(path.bounces(), 1);
    assert_eq!(path.halvings(), 0);
    assert_eq!(path.attenuation(), 1);
}

#[test]
fn two_hits_then_escape() {
    let (path, used) = feed(&[true, true, false, true]);
    assert_eq!(used, 3);
    assert_eq!(path.bounces(), 3);
    assert_eq!(path.halvings(), 2);
    assert_eq!(path.attenuation(), 4);
}

#[test]
fn bounces_stop_at_limit() {
    let (path, used) = feed(&[true; 12]);
    assert_eq!(MAX_BOUNCES, 5);
    assert_eq!(used, 5);
    assert!(!path.wants_scatter());
    assert_eq!(path.bounces(), 5);
    assert_eq!(path.halvings(), 5);
    assert_eq!(path.attenuation(), 32);
}

#[test]
fn escape_on_last_bounce() {
    let (path, used) = feed(&[true, true, true, true, false]);
    assert_eq!(used, 5);
    assert_eq!(path.halvings(), 4);
    assert_eq!(path.attenuation(), 16);
}

#[test]
fn attenuation_halves_each_surviving_bounce() {
    let mut path = Path::new();
    let mut previous = path.attenuation();
    let mut steps = 0;
    while path.wants_scatter() {
        let more = path.record(true);
        steps += 1;
        assert_eq!(more, path.wants_scatter());
        let now = path.attenuation();
        assert_eq!(now, 2 * previous);
        // the sample's color, red 1.0, never grows
        assert!(1.0 / now as f64 <= 1.0 / previous as f64);
        previous = now;
    }
    assert_eq!(steps, 5);
}

#[test]
fn record_reports_whether_to_go_on() {
    let mut path = Path::new();
    assert!(path.record(true));
    assert!(!path.record(false));
}
