use wesldoc::ast::Version;
use wesldoc::versions::{is_latest, order_numbers, precedence, precedence_from, Precedence};

fn version(text: &str) -> Version {
    let v = semver::Version::parse(text).unwrap();
    Version {
        major: v.major,
        minor: v.minor,
        patch: v.patch,
        pre: v.pre.as_str().to_string(),
        build: v.build.as_str().to_string(),
    }
}

#[test]
fn numbers_decide_first() {
    assert_eq!(precedence(&version("1.2.3"), &version("1.2.4")), Some(Precedence::Less));
    assert_eq!(precedence(&version("1.3.0"), &version("1.2.9")), Some(Precedence::Greater));
    assert_eq!(precedence(&version("2.0.0-alpha"), &version("1.9.9")), Some(Precedence::Greater));
    assert_eq!(precedence(&version("1.2.3"), &version("1.2.3")), Some(Precedence::Equal));
    assert_eq!(precedence(&version("1.2.3+a"), &version("1.2.3+b")), Some(Precedence::Equal));
    assert_eq!(order_numbers(3, 3), Precedence::Equal);
    assert_eq!(order_numbers(2, 3), Precedence::Less);
    assert_eq!(order_numbers(u64::MAX, 3), Precedence::Greater);
}

#[test]
fn tags_decide_among_equal_numbers() {
    assert_eq!(precedence(&version("1.0.0-alpha"), &version("1.0.0")), Some(Precedence::Less));
    assert_eq!(precedence(&version("1.0.0"), &version("1.0.0-rc.1")), Some(Precedence::Greater));
    assert_eq!(
        precedence(&version("1.0.0-alpha.2"), &version("1.0.0-alpha.10")),
        Some(Precedence::Less)
    );
    assert_eq!(
        precedence(&version("1.0.0-beta"), &version("1.0.0-alpha.1")),
        Some(Precedence::Greater)
    );
    let mut broken = version("1.0.0");
    broken.pre = "not a tag".to_string();
    assert_eq!(precedence(&broken, &version("1.0.0")), None);
    assert_eq!(precedence(&broken, &version("1.0.1")), Some(Precedence::Less));
    assert_eq!(
        precedence_from(&version("1.0.0"), &version("1.0.0"), Some(Precedence::Greater)),
        Some(Precedence::Greater)
    );
    assert_eq!(
        precedence_from(&version("1.0.0"), &version("1.1.0"), Some(Precedence::Greater)),
        Some(Precedence::Less)
    );
    for (a, b) in [("1.0.0-a", "1.0.0-b"), ("3.1.4", "3.1.4-pre"), ("0.1.0", "0.0.9"), ("1.0.0-1", "1.0.0-a")] {
        let want = match semver::Version::parse(a)
            .unwrap()
            .cmp_precedence(&semver::Version::parse(b).unwrap())
        {
            std::cmp::Ordering::Less => Precedence::Less,
            std::cmp::Ordering::Equal => Precedence::Equal,
            std::cmp::Ordering::Greater => Precedence::Greater,
        };
        assert_eq!(precedence(&version(a), &version(b)), Some(want));
    }
}

#[test]
fn latest_has_no_version_above_it() {
    let existing = vec![version("0.9.0"), version("1.0.0-rc.1"), version("1.0.0")];
    assert!(is_latest(&version("1.0.0"), &existing));
    assert!(is_latest(&version("1.0.1"), &existing));
    assert!(!is_latest(&version("1.0.0-rc.2"), &existing));
    assert!(!is_latest(&version("0.9.5"), &existing));
    assert!(is_latest(&version("0.0.1"), &Vec::new()));
}
