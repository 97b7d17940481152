use appointment_agent::config::MuseumConfig;

#[test]
fn test_config_struct_mapping() {
    let museum = MuseumConfig {
        name: "SAM".into(),
        slug: "sam".into(),
        museumid: "123".into(),
    };

    assert_eq!(museum.slug, "sam");
}
