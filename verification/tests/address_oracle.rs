use amalgam::Host;

/// What the address parser of the standard library makes of `text`, asked
/// through `netaddr2`, which hands the part before the mask to it.
fn expected(text: &str) -> Option<Host> {
    assert!(!text.contains('/') && !text.contains(' '));
    if let Ok(net) = format!("{}/255.255.255.255", text).parse::<netaddr2::Netv4Addr>() {
        return Some(Host::V4(u32::from(net.addr())));
    }
    let full = "ffff:ffff:ffff:ffff:ffff:ffff:ffff:ffff";
    if let Ok(net) = format!("{}/{}", text, full).parse::<netaddr2::Netv6Addr>() {
        return Some(Host::V6(u128::from(net.addr())));
    }
    None
}

fn next(state: &mut u64) -> u64 {
    *state = state.wrapping_mul(6364136223846793005).wrapping_add(1442695040888963407);
    *state >> 33
}

#[test]
fn oracle_reads_plain_addresses() {
    assert_eq!(expected("10.0.0.5"), Some(Host::V4(0x0a00_0005)));
    assert_eq!(expected("::1"), Some(Host::V6(1)));
    assert_eq!(expected("zoop"), None);
}

#[test]
fn short_literals_agree_with_std() {
    let alphabet = ['0', '1', '9', 'f', ':', '.'];
    let mut accepted = 0;
    for len in 0..=7usize {
        let mut index = vec![0usize; len];
        loop {
            let text: String = index.iter().map(|i| alphabet[*i]).collect();
            let found = Host::parse(&text);
            assert_eq!(found, expected(&text), "{:?}", text);
            if found.is_some() {
                accepted += 1;
            }
            let mut at = 0;
            while at < len {
                index[at] += 1;
                if index[at] < alphabet.len() {
                    break;
                }
                index[at] = 0;
                at += 1;
            }
            if at == len {
                break;
            }
        }
    }
    assert!(accepted > 100, "{}", accepted);
}

#[test]
fn random_literals_agree_with_std() {
    let pieces = [
        "0", "1", "12", "255", "256", "01", "0000", "ffff", "FfFf", "12345", "a", "g", ":", "::",
        ".", "1.2.3.4", "10.0.0.5", "1.2.3", "%", "", "7", "abcd", "0:0", "1:2:3:4", "+",
    ];
    let mut state = 42u64;
    let mut accepted = 0;
    for _ in 0..150_000 {
        let count = next(&mut state) % 16;
        let mut text = String::new();
        for i in 0..count {
            if i > 0 && next(&mut state) % 4 != 0 {
                text.push(if next(&mut state) % 8 == 0 { '.' } else { ':' });
            }
            text.push_str(pieces[(next(&mut state) % pieces.len() as u64) as usize]);
        }
        let found = Host::parse(&text);
        assert_eq!(found, expected(&text), "{:?}", text);
        if found.is_some() {
            accepted += 1;
        }
    }
    assert!(accepted > 500, "{}", accepted);
}
