use psf::fuzz::{esc, CixDoc, DeltaNode, FileNode, HashNode, Kind, LocationNode, SourceNode, Text};

fn t(s: &str) -> Text {
    Text(s.to_string())
}

#[test]
fn escapes_the_five_predefined_entities() {
    assert_eq!(esc("a&b<c>d\"e'f"), "a&amp;b&lt;c&gt;d&quot;e&apos;f");
    assert_eq!(esc(""), "");
    assert_eq!(esc("plain-ÄÖ"), "plain-ÄÖ");
}

#[test]
fn renders_an_empty_document() {
    let doc = CixDoc {
        name: t("n"),
        kind: t("PSF"),
        length: 0,
        version: t("1"),
        locations: vec![],
        files: vec![],
    };
    assert_eq!(
        doc.render(),
        [
            r#"<?xml version="1.0" encoding="utf-8"?>"#,
            r#"<Container name="n" type="PSF" length="0" version="1" xmlns="urn:ContainerIndex">"#,
            r#"<Files></Files></Container>"#,
        ]
        .concat()
    );
}

#[test]
fn renders_locations_files_hashes_and_sources() {
    let doc = CixDoc {
        name: t("kb-baseless.psf"),
        kind: t("PSF"),
        length: 18446744073709551615,
        version: t("1&2"),
        locations: vec![LocationNode { id: 4294967295, path: t("{windir}\\x"), flags: t("2000001") }],
        files: vec![
            FileNode {
                id: 1,
                name: t("a<b"),
                length: 11776,
                time: t("134225614730000000"),
                attr: t("128"),
                hash: Some(HashNode { alg: t("SHA256"), value: t("AABB") }),
                delta: Some(DeltaNode {
                    source: SourceNode {
                        kind: Kind("PA30".to_string()),
                        offset: 3276800,
                        length: 4595,
                        hash: Some(HashNode { alg: t("SHA256"), value: t("'CC'") }),
                    },
                }),
            },
            FileNode {
                id: 20,
                name: t("b.txt"),
                length: 5,
                time: t("0"),
                attr: t("128"),
                hash: None,
                delta: None,
            },
        ],
    };
    assert_eq!(
        doc.render(),
        [
            r#"<?xml version="1.0" encoding="utf-8"?>"#,
            r#"<Container name="kb-baseless.psf" type="PSF" length="18446744073709551615" version="1&amp;2" xmlns="urn:ContainerIndex">"#,
            r#"<DeltaBasisSearch><Location id="4294967295" path="{windir}\x" flags="2000001" /></DeltaBasisSearch>"#,
            r#"<Files>"#,
            r#"<File id="1" name="a&lt;b" length="11776" time="134225614730000000" attr="128">"#,
            r#"<Hash alg="SHA256" value="AABB" />"#,
            r#"<Delta><Source type="PA30" offset="3276800" length="4595"><Hash alg="SHA256" value="&apos;CC&apos;" /></Source></Delta>"#,
            r#"</File>"#,
            r#"<File id="20" name="b.txt" length="5" time="0" attr="128"></File>"#,
            r#"</Files></Container>"#,
        ]
        .concat()
    );
}
