use orion::PermashortCitation;

#[test]
fn test_to_string() {
    let psc = PermashortCitation::new(
        String::from("https"),
        String::from("vdx.hu"),
        String::from("s/Df3l"),
    );

    assert_eq!(psc.to_string().as_str(), "vdx.hu s/Df3l")
}

#[test]
fn test_to_uri() {
    let psc = PermashortCitation::new(
        String::from("https"),
        String::from("vdx.hu"),
        String::from("s/Df3l"),
    );

    assert_eq!(psc.to_uri().as_str(), "https://vdx.hu/s/Df3l")
}

#[test]
fn test_from_short_code() {
    let psc = PermashortCitation::from_short_code(
        &String::from("http"),
        &String::from("localhost:9000"),
        &String::from("Df3l"),
    );

    assert_eq!(psc.to_uri().as_str(), "http://localhost:9000/s/Df3l")
}
