use ipdnsd::ip::{service_url, ExternalLookup, IpAddress, LookupStep, ResolutionError, ResolvedIp};

fn failure(msg: &str) -> ResolutionError {
    ResolutionError { message: msg.to_string() }
}

#[test]
fn services_are_asked_in_order_until_all_fail() {
    let (mut lookup, step) = ExternalLookup::start();
    let mut asked = Vec::new();
    let mut step = step;
    let mut n = 0;
    loop {
        match step {
            LookupStep::Ask(url) => {
                asked.push(url.to_string());
                n += 1;
                step = lookup.on_reply(Err(failure(&format!("failure {}", n))));
            }
            LookupStep::GiveUp(e) => {
                assert_eq!(e.message, "failure 5");
                break;
            }
            LookupStep::Found(_) => panic!("nothing was found"),
        }
    }
    assert_eq!(
        asked,
        vec![
            "https://api.ipify.org",
            "https://ifconfig.me/ip",
            "https://icanhazip.com",
            "https://ipinfo.io/ip",
            "https://checkip.amazonaws.com",
        ]
    );
}

#[test]
fn first_answer_decides() {
    let (mut lookup, _) = ExternalLookup::start();
    let step = lookup.on_reply(Err(failure("timeout")));
    assert!(matches!(step, LookupStep::Ask(u) if u == service_url(1)));
    let ip = ResolvedIp { addr: IpAddress::V4(0xCB00_7105), text: "203.0.113.5".to_string() };
    match lookup.on_reply(Ok(ip)) {
        LookupStep::Found(found) => {
            assert_eq!(found.addr, IpAddress::V4(0xCB00_7105));
            assert_eq!(found.text, "203.0.113.5");
        }
        other => panic!("unexpected {:?}", other),
    }
}
