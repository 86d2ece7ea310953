use atmb_crawl::atmb::model::{Address, Mailbox};
use atmb_crawl::record::Record;
use atmb_crawl::smarty::{AdditionalInfo, Rdi, YesOrNo};

fn address(zip: &str, zip4: Option<&str>) -> Address {
    Address {
        line1: "123 Main St".to_string(),
        city: "City".to_string(),
        state: "ST".to_string(),
        zip: zip.to_string(),
        zip4: zip4.map(|s| s.to_string()),
    }
}

fn mailbox(name: &str) -> Mailbox {
    Mailbox {
        name: name.to_string(),
        address: address("12345", Some("6789")),
        link: "https://www.anytimemailbox.com/s/city-123-main-st".to_string(),
        price: "US$9.99/month".to_string(),
    }
}

#[test]
fn full_zip_without_extension_is_the_zip() {
    assert_eq!(address("12345", None).full_zip(), "12345");
}

#[test]
fn full_zip_with_extension_joins_with_a_hyphen() {
    assert_eq!(address("12345", Some("6789")).full_zip(), "12345-6789");
}

#[test]
fn full_zip_leaves_the_address_as_it_was() {
    let a = address("12345", Some("6789"));
    let _ = a.full_zip();
    assert_eq!(a, address("12345", Some("6789")));
}

#[test]
fn address_clone_is_equal() {
    let a = address("35203", None);
    assert_eq!(a.clone(), a);
    assert!(a.same(&a.clone()));
}

#[test]
fn address_same_tells_every_field_apart() {
    let a = address("12345", Some("6789"));
    assert!(!a.same(&address("12345", None)));
    assert!(!a.same(&address("12346", Some("6789"))));
    assert!(!a.same(&address("12345", Some("6780"))));
    let mut b = a.clone();
    b.line1 = "124 Main St".to_string();
    assert!(!a.same(&b));
    let mut c = a.clone();
    c.city = "Town".to_string();
    assert!(!a.same(&c));
    let mut d = a.clone();
    d.state = "TS".to_string();
    assert!(!a.same(&d));
}

#[test]
fn mailbox_same_tells_every_field_apart() {
    let m = mailbox("Main");
    assert!(m.same(&m.clone()));
    assert!(!m.same(&mailbox("Other")));
    let mut l = m.clone();
    l.link = "https://www.anytimemailbox.com/s/other".to_string();
    assert!(!m.same(&l));
    let mut p = m.clone();
    p.price = "US$5.99/month".to_string();
    assert!(!m.same(&p));
    let mut a = m.clone();
    a.address.zip4 = None;
    assert!(!m.same(&a));
}

#[test]
fn record_takes_the_fields_of_the_mailbox_and_the_info() {
    let info = AdditionalInfo { cmra: YesOrNo::N, rdi: Rdi::Commercial };
    let r = Record::from_mailbox_and_info(mailbox("Main"), info);
    assert_eq!(r.name(), "Main");
    assert_eq!(r.street(), "123 Main St");
    assert_eq!(r.city(), "City");
    assert_eq!(r.state(), "ST");
    assert_eq!(r.zip(), "12345-6789");
    assert_eq!(r.price(), "US$9.99/month");
    assert_eq!(r.link(), "https://www.anytimemailbox.com/s/city-123-main-st");
    assert_eq!(r.rdi, Rdi::Commercial);
    assert_eq!(r.cmra, YesOrNo::N);
}

#[test]
fn record_of_a_mailbox_without_extension_has_the_plain_zip() {
    let mut m = mailbox("Main");
    m.address.zip4 = None;
    let info = AdditionalInfo { cmra: YesOrNo::Y, rdi: Rdi::Unknown };
    let r = Record::from_mailbox_and_info(m, info);
    assert_eq!(r.zip(), "12345");
    assert_eq!(r.cmra, YesOrNo::Y);
    assert_eq!(r.rdi, Rdi::Unknown);
}
