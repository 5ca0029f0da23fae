use amalgam::error::Error;
use amalgam::InputType;

#[test]
fn journald_json_is_selected() {
    assert_eq!(InputType::from_str("journald-json"), Ok(InputType::JournaldJson));
}

#[test]
fn white_space_around_the_name_is_refused() {
    for text in [
        " journald-json",
        "journald-json ",
        "  journald-json\n",
        "journald-json\r\n",
        "\tjournald-json",
        "\u{3000}journald-json\u{a0}",
    ] {
        assert_eq!(
            InputType::from_str(text),
            Err(Error::InvalidInputType(text.to_string())),
            "{:?}",
            text
        );
    }
}

#[test]
fn other_names_are_invalid() {
    for text in [
        "",
        " ",
        "syslog",
        " syslog \r\n",
        "Journald-Json",
        "JOURNALD-JSON",
        "journald json",
        "journald_json",
        "journald-json2",
        "journald-jso",
        "ournald-json",
        "journald-json\u{0}",
    ] {
        assert_eq!(
            InputType::from_str(text),
            Err(Error::InvalidInputType(text.to_string())),
            "{:?}",
            text
        );
    }
}
