use syncth::config::{Configuration, Device, Folder, FolderDevice, Gui};
use syncth::error::SyncError;
use syncth::xml::{read_document, tokenize, XmlToken};

const SAMPLE: &str = r#"<?xml version="1.0" encoding="UTF-8"?>
<!-- written by the daemon -->
<configuration version="37">
    <folder id="abc12-xyz34" label="Documents" path="/home/ann/Documents" type="sendreceive" rescanIntervalS="3600">
        <filesystemType>basic</filesystemType>
        <device id="DEV1" introducedBy="">
            <encryptionPassword></encryptionPassword>
        </device>
        <device id="DEV2" introducedBy=""/>
        <minDiskFree unit="%">1</minDiskFree>
    </folder>
    <folder id="pics" label="Tom &amp; Ann&apos;s pictures" path="~/Pictures">
        <device id="DEV1"/>
    </folder>
    <device id="DEV1" name="laptop" compression="metadata">
        <address>dynamic</address>
        <paused>false</paused>
    </device>
    <device id="DEV2" compression="metadata"/>
    <gui enabled="true" tls="false">
        <address>127.0.0.1:8384</address>
        <apikey>  s3cr3t-k3y  </apikey>
        <theme>default</theme>
    </gui>
    <options>
        <listenAddress>default</listenAddress>
    </options>
</configuration>
"#;

fn refs(ids: &[&str]) -> Vec<FolderDevice> {
    ids.iter().map(|d| FolderDevice { id: d.to_string() }).collect()
}

#[test]
fn parses_a_configuration_file() {
    let config = Configuration::parse(SAMPLE).unwrap();
    assert_eq!(
        config,
        Configuration {
            folders: vec![
                Folder {
                    id: "abc12-xyz34".to_string(),
                    label: "Documents".to_string(),
                    path: "/home/ann/Documents".to_string(),
                    devices: refs(&["DEV1", "DEV2"]),
                },
                Folder {
                    id: "pics".to_string(),
                    label: "Tom & Ann's pictures".to_string(),
                    path: "~/Pictures".to_string(),
                    devices: refs(&["DEV1"]),
                },
            ],
            devices: vec![
                Device { id: "DEV1".to_string(), name: Some("laptop".to_string()) },
                Device { id: "DEV2".to_string(), name: None },
            ],
            gui: Gui { api_key: "s3cr3t-k3y".to_string() },
        }
    );
}

#[test]
fn parsed_labels_resolve_to_their_identifiers() {
    let config = Configuration::parse(SAMPLE).unwrap();
    assert_eq!(config.file_id("Documents"), Some("abc12-xyz34"));
    assert_eq!(config.file_id("Tom & Ann's pictures"), Some("pics"));
    assert_eq!(config.device_id("laptop"), Some("DEV1"));
    for folder in &config.folders {
        assert_eq!(config.file_id(&folder.label), Some(folder.id.as_str()));
    }
}

#[test]
fn accepts_plural_element_names() {
    let text = r#"<c>
        <folders id="f" label="L" path="/p"><devices id="D"/></folders>
        <devices id="D" name="n"/>
    </c>"#;
    let config = Configuration::parse(text).unwrap();
    assert_eq!(config.folders.len(), 1);
    assert_eq!(config.folders[0].devices, refs(&["D"]));
    assert_eq!(config.devices, vec![Device { id: "D".to_string(), name: Some("n".to_string()) }]);
    assert_eq!(config.gui.api_key, "");
}

#[test]
fn accepts_fields_given_as_elements() {
    let text = r#"<c>
        <folder label="L">
            <id>f</id>
            <path>/p</path>
            <device><deviceID>D1</deviceID></device>
            <device id="D2"></device>
        </folder>
        <device id="D1"/>
    </c>"#;
    let config = Configuration::parse(text).unwrap();
    assert_eq!(
        config.folders,
        vec![Folder {
            id: "f".to_string(),
            label: "L".to_string(),
            path: "/p".to_string(),
            devices: refs(&["D1", "D2"]),
        }]
    );
}

#[test]
fn accepts_a_document_without_folders_and_devices() {
    let config = Configuration::parse("<configuration/>").unwrap();
    assert_eq!(config, Configuration { folders: vec![], devices: vec![], gui: Gui::default() });
    let config = Configuration::parse("<x><gui><apikey>k</apikey></gui></x>").unwrap();
    assert_eq!(config.gui, Gui { api_key: "k".to_string() });
}

#[test]
fn empty_values_are_values() {
    let text = r#"<c><folder id="" label="" path=""><device id=""/></folder><device id="" name=""/><gui><apikey/></gui></c>"#;
    let config = Configuration::parse(text).unwrap();
    assert_eq!(config.folders[0].id, "");
    assert_eq!(config.folders[0].devices, refs(&[""]));
    assert_eq!(config.devices[0].name, Some(String::new()));
    assert_eq!(config.gui.api_key, "");
}

#[test]
fn character_data_sections_count_as_text() {
    let text = "<c><gui><apikey><![CDATA[a<b]]></apikey></gui></c>";
    assert_eq!(Configuration::parse(text).unwrap().gui.api_key, "a<b");
}

fn malformed(text: &str) {
    assert_eq!(Configuration::parse(text), Err(SyncError::ConfigMalformed), "{}", text);
}

#[test]
fn rejects_what_is_not_a_well_formed_document() {
    malformed("");
    malformed("   ");
    malformed("just text");
    malformed("<configuration>");
    malformed("<configuration></other>");
    malformed("</configuration>");
    malformed("<a/><b/>");
    malformed("<a/>trailing");
    malformed("<a><folder id=\"f\" label=\"l\" path=\"p\"></a>");
    malformed("<a b=\"1\" b=\"2\"/>");
    malformed("<a b=1/>");
    malformed("<a><gui><apikey>&unknown;</apikey></gui></a>");
    malformed("<a><device id=\"&unknown;\"/></a>");
}

#[test]
fn rejects_folders_that_lack_a_field() {
    malformed(r#"<c><folder label="l" path="p"/></c>"#);
    malformed(r#"<c><folder id="i" path="p"/></c>"#);
    malformed(r#"<c><folder id="i" label="l"/></c>"#);
    malformed(r#"<c><folder id="i" label="l" path="p"><device/></folder></c>"#);
}

#[test]
fn rejects_fields_that_are_given_twice() {
    malformed(r#"<c><folder id="i" label="l" path="p"><id>j</id></folder></c>"#);
    malformed(r#"<c><folder id="i" label="l"><path>p</path><path>q</path></folder></c>"#);
    malformed(r#"<c><folder id="i" label="l" path="p"><device id="D"><deviceID>D</deviceID></device></folder></c>"#);
    malformed("<c><gui><apikey>a</apikey><apikey>b</apikey></gui></c>");
    malformed("<c><gui><apikey>a</apikey></gui><gui><apikey>a</apikey></gui></c>");
}

#[test]
fn rejects_fields_with_elements_inside() {
    malformed(r#"<c><folder id="i" label="l"><path><dir>p</dir></path></folder></c>"#);
    malformed("<c><gui><apikey><b>a</b></apikey></gui></c>");
}

#[test]
fn rejects_devices_without_an_identifier() {
    malformed(r#"<c><device name="n"/></c>"#);
    malformed("<c><device><id>D</id></device></c>");
    malformed("<c><gui/></c>");
}

#[test]
fn a_missing_file_is_not_found() {
    assert_eq!(Configuration::parse_file(None), Err(SyncError::ConfigNotFound));
    assert_eq!(Configuration::parse_file(Some("<a")), Err(SyncError::ConfigMalformed));
    assert!(Configuration::parse_file(Some("<a/>")).is_ok());
}

#[test]
fn tokens_follow_the_text() {
    let tokens = tokenize(r#"<?xml version="1.0"?><a x="1" y="&lt;"> hi <b/><!-- c --></a>"#);
    assert_eq!(
        tokens,
        vec![
            XmlToken::Skipped,
            XmlToken::Open {
                name: "a".to_string(),
                attributes: Some(vec![
                    ("x".to_string(), "1".to_string()),
                    ("y".to_string(), "<".to_string()),
                ]),
            },
            XmlToken::Text(Some("hi".to_string())),
            XmlToken::Open { name: "b".to_string(), attributes: Some(vec![]) },
            XmlToken::Close,
            XmlToken::Skipped,
            XmlToken::Close,
            XmlToken::End,
        ]
    );
}

#[test]
fn tokens_end_where_reading_breaks() {
    let tokens = tokenize("<a></b><c/>");
    assert_eq!(tokens.last(), Some(&XmlToken::Broken));
    assert_eq!(tokens.iter().filter(|t| **t == XmlToken::Broken || **t == XmlToken::End).count(), 1);
    assert_eq!(tokenize(""), vec![XmlToken::End]);
}

#[test]
fn documents_become_trees() {
    let root = read_document(&tokenize("<a k=\"v\">one<b>x</b>two<c/></a>")).unwrap();
    assert_eq!(root.name, "a");
    assert_eq!(root.attributes, vec![("k".to_string(), "v".to_string())]);
    assert_eq!(root.text, "onetwo");
    assert_eq!(root.children.len(), 2);
    assert_eq!(root.children[0].name, "b");
    assert_eq!(root.children[0].text, "x");
    assert_eq!(root.children[1].name, "c");
    assert!(root.children[1].children.is_empty());
    assert_eq!(read_document(&tokenize("<a><b></a>")), None);
    assert_eq!(read_document(&vec![XmlToken::Close, XmlToken::End]), None);
    assert_eq!(read_document(&vec![]), None);
}
