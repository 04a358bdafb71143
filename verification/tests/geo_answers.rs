use zeronode_client::geo::{ip_api_geo, ipwho_geo, unknown_geo};

#[test]
fn ip_api_success_fields() {
    let body = r#"{"status":"success","query":"1.2.3.4","country":"Germany","countryCode":"DE","region":"HE","regionName":"Hesse","city":"Frankfurt","zip":"60313","lat":50.1,"lon":8.6,"timezone":"Europe/Berlin","isp":"ISP","org":"Org","as":"AS123 Org"}"#;
    let g = ip_api_geo(body, "9.9.9.9").expect("success answer");
    assert_eq!(g.ip, "1.2.3.4");
    assert_eq!(g.country_code, "DE");
    assert_eq!(g.country, "Germany");
    assert_eq!(g.region_code, "HE");
    assert_eq!(g.region, "Hesse");
    assert_eq!(g.city, "Frankfurt");
    assert_eq!(g.zip, "60313");
    assert_eq!(g.timezone, "Europe/Berlin");
    assert_eq!(g.isp, "ISP");
    assert_eq!(g.org, "Org");
    assert_eq!(g.as_name, "AS123 Org");
}

#[test]
fn ip_api_defaults_and_failures() {
    let g = ip_api_geo(r#"{"status":"success"}"#, "9.9.9.9").unwrap();
    assert_eq!(g.ip, "9.9.9.9");
    assert_eq!(g.country, "");
    assert!(ip_api_geo(r#"{"status":"fail","message":"private range"}"#, "10.0.0.1").is_none());
    assert!(ip_api_geo(r#"{"query":"1.2.3.4"}"#, "1.2.3.4").is_none());
    assert!(ip_api_geo("<html>", "1.2.3.4").is_none());
}

#[test]
fn ipwho_fields_and_as_label() {
    let body = r#"{"success":true,"ip":"5.6.7.8","country":"France","country_code":"FR","region":"Ile-de-France","region_code":"IDF","city":"Paris","postal":"75001","latitude":48.8,"longitude":2.3,"connection":{"asn":3215,"org":"Orange","isp":"Orange SA"},"timezone":{"id":"Europe/Paris"}}"#;
    let g = ipwho_geo(body, "9.9.9.9").expect("answer");
    assert_eq!(g.ip, "5.6.7.8");
    assert_eq!(g.country_code, "FR");
    assert_eq!(g.region_code, "IDF");
    assert_eq!(g.region, "Ile-de-France");
    assert_eq!(g.zip, "75001");
    assert_eq!(g.timezone, "Europe/Paris");
    assert_eq!(g.isp, "Orange SA");
    assert_eq!(g.org, "Orange");
    assert_eq!(g.as_name, "AS3215 Orange");
}

#[test]
fn ipwho_fallbacks_and_failures() {
    let g = ipwho_geo(r#"{"isp":"Top ISP","connection":{"asn":"AS9"}}"#, "9.9.9.9").unwrap();
    assert_eq!(g.ip, "9.9.9.9");
    assert_eq!(g.isp, "Top ISP");
    assert_eq!(g.as_name, "AS9");
    let g = ipwho_geo(r#"{"success":true}"#, "1.1.1.1").unwrap();
    assert_eq!(g.as_name, "");
    assert!(ipwho_geo(r#"{"success":false,"message":"Invalid IP"}"#, "x").is_none());
    assert!(ipwho_geo("not json", "x").is_none());
}

#[test]
fn unknown_location() {
    let g = unknown_geo("9.9.9.9");
    assert_eq!(g.ip, "9.9.9.9");
    assert_eq!(g.country, "Unknown");
    assert_eq!(g.city, "");
    assert_eq!(g.as_name, "");
}
