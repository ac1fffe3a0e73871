//! Tests for the textual form of external names.

use regaffinity::{ExternalName, LibCall};

#[test]
fn display_name() {
    assert_eq!(ExternalName::clone_from_str("").to_text().unwrap(), "@\"\"");
    assert_eq!(ExternalName::clone_from_str("x").to_text().unwrap(), "@x");
    assert_eq!(
        ExternalName::clone_from_str("longname0123456789~!@#$%^&*()_+`-={}|[]:;'<>?,./ ")
            .to_text()
            .unwrap(),
        "@\"longname0123456789~!@#$%^&*()_+`-={}|[]:;'<>?,./ \""
    );
}

#[test]
fn display_index() {
    assert_eq!(ExternalName::index(0, 0).to_text().unwrap(), "@[0:0]");
    assert_eq!(ExternalName::index(1, 1).to_text().unwrap(), "@[1:1]");
    assert_eq!(
        ExternalName::index(u32::MAX, u32::MAX).to_text().unwrap(),
        "@[4294967295:4294967295]"
    );
}

#[test]
fn display_default() {
    assert_eq!(ExternalName::default().to_text().unwrap(), "@-");
}

#[test]
fn display_libcall() {
    assert_eq!(
        ExternalName::index(u32::MAX, u32::MAX).to_text().unwrap(),
        "@[4294967295:4294967295]"
    );
    assert_eq!(
        ExternalName::LibCall(LibCall::FloorF32).to_text().unwrap(),
        "@<FloorF32>"
    );
}

#[test]
fn parsing() {
    assert_eq!(
        ExternalName::from_text("@\"hello\""),
        Ok(ExternalName::clone_from_str("hello"))
    );
    assert_eq!(
        ExternalName::from_text("@[23:56]"),
        Ok(ExternalName::Index {
            space: 23,
            index: 56,
        })
    );
    assert_eq!(ExternalName::from_text("@-"), Ok(ExternalName::DefaultName));
    assert_eq!(
        ExternalName::from_text("@<FloorF32>"),
        Ok(ExternalName::LibCall(LibCall::FloorF32))
    );
}

#[test]
fn parsing_bare_names() {
    assert_eq!(
        ExternalName::from_text("@x"),
        Ok(ExternalName::clone_from_str("x"))
    );
    assert_eq!(
        ExternalName::from_text("@a_b9"),
        Ok(ExternalName::clone_from_str("a_b9"))
    );
    // An empty bare name parses; it renders back in quotes.
    assert_eq!(
        ExternalName::from_text("@"),
        Ok(ExternalName::clone_from_str(""))
    );
    // The placeholder arm wins over a bare name starting with a dash.
    assert_eq!(
        ExternalName::from_text("@-leftover"),
        Ok(ExternalName::DefaultName)
    );
}

#[test]
fn parsing_signs_and_limits() {
    // Numbers accept a leading plus sign, as integer parsing does.
    assert_eq!(
        ExternalName::from_text("@[+23:56]"),
        Ok(ExternalName::Index {
            space: 23,
            index: 56,
        })
    );
    assert_eq!(
        ExternalName::from_text("@[4294967295:0]"),
        Ok(ExternalName::Index {
            space: u32::MAX,
            index: 0,
        })
    );
    // One past the largest 32-bit value is refused.
    assert_eq!(ExternalName::from_text("@[4294967296:0]"), Err(()));
}

#[test]
fn parsing_rejects_malformed_text() {
    assert_eq!(ExternalName::from_text(""), Err(()));
    assert_eq!(ExternalName::from_text("hello"), Err(()));
    assert_eq!(ExternalName::from_text("@[23]"), Err(()));
    assert_eq!(ExternalName::from_text("@[1:2:3]"), Err(()));
    assert_eq!(ExternalName::from_text("@[a:2]"), Err(()));
    assert_eq!(ExternalName::from_text("@[1:]"), Err(()));
    assert_eq!(ExternalName::from_text("@[1:2"), Err(()));
    assert_eq!(ExternalName::from_text("@<NoSuchRoutine>"), Err(()));
    assert_eq!(ExternalName::from_text("@<FloorF32"), Err(()));
    assert_eq!(ExternalName::from_text("@\"unterminated"), Err(()));
    assert_eq!(ExternalName::from_text("@bad dog"), Err(()));
}

#[test]
fn display_refuses_unprintable_names() {
    assert_eq!(ExternalName::Name(vec![0x01]).to_text(), Err(()));
    assert_eq!(ExternalName::Name(vec![b'a', 0x7f]).to_text(), Err(()));
}

#[test]
fn libcall_names_round_trip() {
    let all = [
        LibCall::Probestack,
        LibCall::CeilF32,
        LibCall::CeilF64,
        LibCall::FloorF32,
        LibCall::FloorF64,
        LibCall::TruncF32,
        LibCall::TruncF64,
        LibCall::NearestF32,
        LibCall::NearestF64,
    ];
    for lc in all {
        let text = lc.to_text();
        assert_eq!(LibCall::from_text(&text), Ok(lc));
    }
    assert_eq!(LibCall::from_text("floorf32"), Err(()));
}

#[test]
fn name_equality_is_by_value() {
    assert_eq!(
        ExternalName::clone_from_bytes(b"hello"),
        ExternalName::clone_from_str("hello")
    );
    assert_ne!(
        ExternalName::clone_from_str("hello"),
        ExternalName::clone_from_str("hell")
    );
    assert_ne!(
        ExternalName::DefaultName,
        ExternalName::Index { space: 0, index: 0 }
    );
}
