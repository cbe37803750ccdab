use dudo::probe::{first_step, next_step, ProbeOutcome, ProbeStep};
use dudo::render::TemplateError;
use dudo::resolve::{resolve, DudoError};
use dudo::candidates::LookupError;
use dudo::table::parse_config;

struct Sweep {
    requests: usize,
    destination: Option<Vec<u8>>,
    exhausted: bool,
}

/// Drives the probe loop over mocked responses, one per candidate.
fn run(responses: &[(u16, &[u8])]) -> Sweep {
    let n = responses.len();
    let mut sweep = Sweep { requests: 0, destination: None, exhausted: false };
    let mut step = first_step(n);
    loop {
        match step {
            ProbeStep::Request(i) => {
                sweep.requests += 1;
                step = next_step(n, i, ProbeOutcome::Status(responses[i].0));
            }
            ProbeStep::Download(i) => {
                sweep.destination = Some(responses[i].1.to_vec());
                return sweep;
            }
            ProbeStep::Exhausted => {
                sweep.exhausted = true;
                return sweep;
            }
        }
    }
}

#[test]
fn third_candidate_success_downloads_its_body() {
    let s = run(&[(404, b"no"), (404, b"no"), (200, b"BODY"), (200, b"other")]);
    assert_eq!(s.requests, 3);
    assert_eq!(s.destination, Some(b"BODY".to_vec()));
    assert!(!s.exhausted);
}

#[test]
fn all_misses_exhaust_without_writing() {
    let s = run(&[(404, b""), (404, b""), (500, b""), (301, b"")]);
    assert_eq!(s.requests, 4);
    assert_eq!(s.destination, None);
    assert!(s.exhausted);
}

#[test]
fn no_candidates_exhausts_at_once() {
    assert!(matches!(first_step(0), ProbeStep::Exhausted));
    let s = run(&[]);
    assert_eq!(s.requests, 0);
    assert!(s.exhausted);
}

#[test]
fn network_error_moves_to_next_candidate() {
    assert!(matches!(next_step(3, 0, ProbeOutcome::NetworkError), ProbeStep::Request(1)));
    assert!(matches!(next_step(3, 2, ProbeOutcome::NetworkError), ProbeStep::Exhausted));
}

#[test]
fn success_on_first_candidate_stops() {
    assert!(matches!(next_step(5, 0, ProbeOutcome::Status(200)), ProbeStep::Download(0)));
    assert!(matches!(next_step(5, 1, ProbeOutcome::Status(204)), ProbeStep::Request(2)));
}

#[test]
fn unknown_arch_fails_before_any_request() {
    let table = parse_config(None).ok().unwrap();
    let r = resolve(&table, &"linux".to_string(), &"sparc".to_string(), "{{os}}-{{arch}}", "1.0");
    let probes = match &r {
        Ok(candidates) => run(&vec![(404u16, &b""[..]); candidates.len()]).requests,
        Err(_) => 0,
    };
    assert_eq!(probes, 0);
    match r {
        Err(DudoError::LookupError(LookupError::UnknownArch(n))) => assert_eq!(n, "sparc"),
        _ => panic!("expected an unknown architecture"),
    }
}

#[test]
fn bad_template_fails_before_lookup() {
    let table = parse_config(None).ok().unwrap();
    let r = resolve(&table, &"plan9".to_string(), &"sparc".to_string(), "{{nope}}", "1.0");
    assert!(matches!(r, Err(DudoError::TemplateError(_))));
}

#[test]
fn resolve_renders_every_candidate_in_order() {
    let table = parse_config(None).ok().unwrap();
    let v = resolve(
        &table,
        &"linux".to_string(),
        &"aarch64".to_string(),
        "https://dl.example/{{version}}/x-{{os}}-{{arch}}",
        "0.1.0-beta",
    )
    .ok()
    .unwrap();
    let urls: Vec<String> = v.into_iter().map(|c| c.url).collect();
    assert_eq!(
        urls,
        vec![
            "https://dl.example/0.1.0-beta/x-linux-aarch64".to_string(),
            "https://dl.example/0.1.0-beta/x-linux-arm64".to_string(),
            "https://dl.example/0.1.0-beta/x-linux-m1".to_string(),
        ]
    );
}

#[test]
fn partial_template_fails_before_lookup() {
    let table = parse_config(None).ok().unwrap();
    let r = resolve(&table, &"linux".to_string(), &"x86_64".to_string(), "{{> other}}", "1.0");
    assert!(matches!(r, Err(DudoError::TemplateError(TemplateError::PartialCall))));
}
