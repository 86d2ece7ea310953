use atmb_crawl::atmb::model::{Address, Mailbox};
use atmb_crawl::record::{build_records, merge_inquiries, position_of, sort_records, Record};
use atmb_crawl::smarty::{AdditionalInfo, Rdi, YesOrNo};

fn mailbox(name: &str) -> Mailbox {
    Mailbox {
        name: name.to_string(),
        address: Address {
            line1: "1 Main".to_string(),
            city: "City".to_string(),
            state: "ST".to_string(),
            zip: "12345".to_string(),
            zip4: None,
        },
        link: format!("https://www.anytimemailbox.com/s/{}", name),
        price: "US$9.99/month".to_string(),
    }
}

fn info(cmra: YesOrNo, rdi: Rdi) -> AdditionalInfo {
    AdditionalInfo { cmra, rdi }
}

fn record(name: &str, cmra: YesOrNo, rdi: Rdi) -> Record {
    Record::from_mailbox_and_info(mailbox(name), info(cmra, rdi))
}

fn names(records: &[Record]) -> Vec<&str> {
    records.iter().map(|r| r.name()).collect()
}

#[test]
fn records_leave_out_the_mail_receiving_agencies() {
    let enriched = vec![
        (mailbox("a"), info(YesOrNo::N, Rdi::Commercial)),
        (mailbox("b"), info(YesOrNo::Y, Rdi::Commercial)),
        (mailbox("c"), info(YesOrNo::N, Rdi::Residential)),
        (mailbox("d"), info(YesOrNo::Y, Rdi::Unknown)),
    ];
    let records = build_records(enriched);
    assert_eq!(names(&records), vec!["a", "c"]);
    assert_eq!(records[0].rdi, Rdi::Commercial);
    assert_eq!(records[1].rdi, Rdi::Residential);
    assert!(records.iter().all(|r| r.cmra == YesOrNo::N));
}

#[test]
fn records_of_nothing_are_none() {
    assert_eq!(build_records(Vec::new()).len(), 0);
    assert_eq!(build_records(vec![(mailbox("a"), info(YesOrNo::Y, Rdi::Residential))]).len(), 0);
}

#[test]
fn rank_puts_the_flag_before_the_kind() {
    assert_eq!(record("a", YesOrNo::N, Rdi::Residential).rank(), 0);
    assert_eq!(record("a", YesOrNo::N, Rdi::Commercial).rank(), 1);
    assert_eq!(record("a", YesOrNo::N, Rdi::Unknown).rank(), 2);
    assert_eq!(record("a", YesOrNo::Y, Rdi::Residential).rank(), 3);
    assert_eq!(record("a", YesOrNo::Y, Rdi::Commercial).rank(), 4);
    assert_eq!(record("a", YesOrNo::Y, Rdi::Unknown).rank(), 5);
}

#[test]
fn rank_orders_as_the_pair_of_flag_and_kind_does() {
    let flags = [YesOrNo::N, YesOrNo::Y];
    let kinds = [Rdi::Residential, Rdi::Commercial, Rdi::Unknown];
    for c1 in flags {
        for r1 in kinds {
            for c2 in flags {
                for r2 in kinds {
                    let by_rank = record("a", c1, r1).rank().cmp(&record("b", c2, r2).rank());
                    assert_eq!(by_rank, (c1, r1).cmp(&(c2, r2)));
                }
            }
        }
    }
}

#[test]
fn sort_orders_by_rank_and_keeps_equals_in_place() {
    let records = vec![
        record("a", YesOrNo::Y, Rdi::Unknown),
        record("b", YesOrNo::N, Rdi::Unknown),
        record("c", YesOrNo::N, Rdi::Residential),
        record("d", YesOrNo::Y, Rdi::Residential),
        record("e", YesOrNo::N, Rdi::Commercial),
        record("f", YesOrNo::N, Rdi::Residential),
        record("g", YesOrNo::N, Rdi::Unknown),
        record("h", YesOrNo::Y, Rdi::Commercial),
        record("i", YesOrNo::N, Rdi::Residential),
    ];
    let sorted = sort_records(records);
    assert_eq!(names(&sorted), vec!["c", "f", "i", "e", "b", "g", "d", "h", "a"]);
}

#[test]
fn sort_agrees_with_the_stable_sort_of_std() {
    let flags = [YesOrNo::Y, YesOrNo::N];
    let kinds = [Rdi::Unknown, Rdi::Residential, Rdi::Commercial];
    let mut records = Vec::new();
    let mut expected = Vec::new();
    for i in 0..60usize {
        let (cmra, rdi) = (flags[(i * 7 + i / 5) % 2], kinds[(i * 5 + i / 7) % 3]);
        records.push(record(&format!("m{}", i), cmra, rdi));
        expected.push((format!("m{}", i), cmra, rdi));
    }
    expected.sort_by(|a, b| (&a.1, &a.2).cmp(&(&b.1, &b.2)));
    let sorted = sort_records(records);
    let got: Vec<(String, YesOrNo, Rdi)> =
        sorted.iter().map(|r| (r.name().to_string(), r.cmra, r.rdi)).collect();
    assert_eq!(got, expected);
}

#[test]
fn sort_of_nothing_is_nothing() {
    assert_eq!(sort_records(Vec::new()).len(), 0);
}

#[test]
fn position_is_that_of_the_first_equal_mailbox() {
    let pairs = vec![
        (mailbox("a"), info(YesOrNo::N, Rdi::Unknown)),
        (mailbox("b"), info(YesOrNo::N, Rdi::Unknown)),
        (mailbox("a"), info(YesOrNo::Y, Rdi::Unknown)),
    ];
    assert_eq!(position_of(&pairs, &mailbox("a")), Some(0));
    assert_eq!(position_of(&pairs, &mailbox("b")), Some(1));
    assert_eq!(position_of(&pairs, &mailbox("c")), None);
    assert_eq!(position_of(&Vec::new(), &mailbox("a")), None);
}

#[test]
fn merge_leaves_out_what_the_service_did_not_tell() {
    let outcomes = vec![
        Some((mailbox("a"), info(YesOrNo::N, Rdi::Commercial))),
        None,
        Some((mailbox("c"), info(YesOrNo::Y, Rdi::Residential))),
    ];
    let merged = merge_inquiries(outcomes);
    assert_eq!(merged.len(), 2);
    assert_eq!(merged[0], (mailbox("a"), info(YesOrNo::N, Rdi::Commercial)));
    assert_eq!(merged[1], (mailbox("c"), info(YesOrNo::Y, Rdi::Residential)));
}

#[test]
fn merge_keeps_an_equal_mailbox_once_with_what_was_told_last() {
    let outcomes = vec![
        Some((mailbox("a"), info(YesOrNo::N, Rdi::Commercial))),
        Some((mailbox("b"), info(YesOrNo::N, Rdi::Unknown))),
        Some((mailbox("a"), info(YesOrNo::Y, Rdi::Residential))),
        None,
        Some((mailbox("a"), info(YesOrNo::N, Rdi::Residential))),
    ];
    let merged = merge_inquiries(outcomes);
    assert_eq!(merged.len(), 2);
    assert_eq!(merged[0], (mailbox("a"), info(YesOrNo::N, Rdi::Residential)));
    assert_eq!(merged[1], (mailbox("b"), info(YesOrNo::N, Rdi::Unknown)));
}

#[test]
fn merge_of_nothing_is_nothing() {
    assert_eq!(merge_inquiries(Vec::new()).len(), 0);
    assert_eq!(merge_inquiries(vec![None, None]).len(), 0);
}
