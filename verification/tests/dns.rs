use linkerd2_proxy::addr::IpAddr;
use linkerd2_proxy::dns::{
    all_ips, one_ip, InvalidName, LookupError, Name, Refine, ResolveError, Response, Suffix,
};
use linkerd2_proxy::poll::Async;
use std::time::Instant;

#[test]
fn test_dns_name_parsing() {
    // Make sure that the validation of names isn't too strict.
    struct Case {
        input: &'static str,
        output: &'static str,
    }

    let valid = [
        // Almost all digits and dots, similar to IPv4 addresses.
        Case { input: "1.2.3.x", output: "1.2.3.x" },
        Case { input: "1.2.3.x", output: "1.2.3.x" },
        Case { input: "1.2.3.4A", output: "1.2.3.4a" },
        Case { input: "a.b.c.d", output: "a.b.c.d" },
        // Uppercase letters in labels
        Case { input: "A.b.c.d", output: "a.b.c.d" },
        Case { input: "a.mIddle.c", output: "a.middle.c" },
        Case { input: "a.b.c.D", output: "a.b.c.d" },
        // Absolute
        Case { input: "a.b.c.d.", output: "a.b.c.d." },
    ];

    for case in valid.iter() {
        let name = Name::try_from(case.input.as_bytes());
        assert_eq!(name.as_ref().map(|x| x.text.as_str()), Ok(case.output));
    }

    let invalid = [
        // These are not in the "preferred name syntax" as defined by
        // https://tools.ietf.org/html/rfc1123#section-2.1. In particular
        // the last label only has digits.
        "1.2.3.4", "a.1.2.3", "1.2.x.3",
    ];

    for case in invalid.iter() {
        assert!(Name::try_from(case.as_bytes()).is_err());
    }
}

#[test]
fn suffixes_are_written_as_names() {
    assert_eq!(Suffix::Root.to_text(), ".");
    let name = Name::try_from(b"Svc.Cluster.Local").unwrap();
    assert_eq!(Suffix::from(name).to_text(), "svc.cluster.local");
}

#[test]
fn missing_records_are_no_failure() {
    let now = Instant::now();
    let r: Result<Response<u8>, ResolveError<()>> =
        all_ips(Err(ResolveError::NoRecordsFound { valid_until: Some(now) }));
    match r {
        Ok(Response::DoesNotExist { retry_after }) => assert_eq!(retry_after, Some(now)),
        _ => panic!("expected that the name does not exist"),
    }
    let r: Result<Response<u8>, ResolveError<&str>> = all_ips(Err(ResolveError::Other("timeout")));
    assert!(matches!(r, Err(ResolveError::Other("timeout"))));
    let r: Result<Response<u8>, ResolveError<()>> = all_ips(Ok(7));
    assert!(matches!(r, Ok(Response::Exists(7))));
}

#[test]
fn first_address_is_picked() {
    let ips = vec![IpAddr::V4("10.0.0.1".to_string()), IpAddr::V4("10.0.0.2".to_string())];
    match one_ip::<()>(Ok(Async::Ready(ips))) {
        Ok(Async::Ready(ip)) => assert_eq!(ip, IpAddr::V4("10.0.0.1".to_string())),
        _ => panic!("expected an address"),
    }
    assert!(matches!(
        one_ip::<()>(Ok(Async::Ready(vec![]))),
        Err(LookupError::NoAddressesFound)
    ));
    assert!(matches!(one_ip::<()>(Ok(Async::NotReady)), Ok(Async::NotReady)));
    assert!(matches!(one_ip(Err("refused")), Err(LookupError::ResolutionFailed("refused"))));
}

#[test]
fn refined_names_are_valid_and_lower_case() {
    let now = Instant::now();
    let refine = Refine::from_lookup(b"Web.Example.COM.", now).unwrap();
    assert_eq!(refine.name.text, "web.example.com.");
    assert_eq!(refine.valid_until, now);
    assert_eq!(Refine::from_lookup(b"10.0.0.1", now).unwrap_err(), InvalidName);
}
