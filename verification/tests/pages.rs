use atmb_crawl::atmb::markup::{Element, Fragment};
use atmb_crawl::atmb::model::{Address, Mailbox};
use atmb_crawl::atmb::page::{
    first_element, lines_of_fragments, zip_is_valid, CountryPage, LocationDetailPage,
    LocationHtmlInfo, ParseError, StateHtmlInfo, StatePage,
};

fn location(line2: &str, price: &str) -> LocationHtmlInfo {
    LocationHtmlInfo::new(
        "Main".to_string(),
        "123 Main St".to_string(),
        line2.to_string(),
        price.to_string(),
        "https://www.anytimemailbox.com/s/main".to_string(),
    )
}

fn element(text: &str, inner_html: &str, attr: Option<&str>) -> Element {
    Element {
        text: text.to_string(),
        inner_html: inner_html.to_string(),
        attr: attr.map(|a| a.to_string()),
    }
}

fn listing_fragment(title: &str, price: &str, address: &str, href: Option<&str>) -> Fragment {
    Fragment {
        matches: vec![
            vec![element(title, title, None)],
            vec![element(price, price, None)],
            vec![element("", address, None)],
            vec![element("Choose Plan", "Choose Plan", href)],
        ],
    }
}

fn listing_html(title: &str, price: &str, address: &str, href: &str) -> String {
    format!(
        "<div class=\"theme-location-item\"><h3 class=\"t-title\">{}</h3>\
         <div class=\"t-price\">{}</div><div class=\"t-addr\">{}</div>\
         <a class=\"theme-button gt-plan\" href=\"{}\">Choose Plan</a></div>",
        title, price, address, href
    )
}

fn state_html(listings: usize) -> String {
    let mut html = String::from("<html><head><title>Alabama</title></head><body>");
    for i in 0..listings {
        html.push_str(&listing_html(
            &format!("Location {}", i),
            "Starting from <b>US$ 9.99</b> / month",
            &format!("{} Main St<br>Birmingham, AL 3520{}<br>", 100 + i, i % 10),
            &format!("/s/location-{}", i),
        ));
    }
    html.push_str("</body></html>");
    html
}

fn country_html(states: usize) -> String {
    let mut html = String::from("<html><body><ul>");
    for i in 0..states {
        html.push_str(&format!(
            "<li><a class='theme-simple-link' href='/l/usa/state-{}'>State {}</a></li>\n",
            i, i
        ));
    }
    html.push_str("</ul><a class='other' href='/about'>About</a></body></html>");
    html
}

fn detail_html(lines: &[&str]) -> String {
    let mut html = String::from(
        "<html><body><div class=\"t-sec1\"><h2>Address</h2><div class=\"t-text\">",
    );
    for line in lines {
        html.push_str(&format!("<div>{}</div>", line));
    }
    html.push_str("</div></div></body></html>");
    html
}

fn strings(lines: &[&str]) -> Vec<String> {
    lines.iter().map(|s| s.to_string()).collect()
}

#[test]
fn state_info_hands_back_its_fields() {
    let info = StateHtmlInfo::new("/l/usa/alabama", "Alabama");
    assert_eq!(info.url(), "/l/usa/alabama");
    assert_eq!(info.name(), "Alabama");
}

#[test]
fn country_page_lists_the_states_in_order() {
    let html = country_html(3);
    let page = CountryPage::parse_html(&html).unwrap();
    assert_eq!(page.states.len(), 3);
    assert_eq!(page.states[0].url(), "/l/usa/state-0");
    assert_eq!(page.states[0].name(), "State 0");
    assert_eq!(page.states[2].url(), "/l/usa/state-2");
    assert_eq!(page.states[2].name(), "State 2");
}

#[test]
fn country_page_without_state_links_is_an_error() {
    let html = "<html><body><p>One <a class=\"theme-simple-link\" href=\"/x\">x</a></p>\
                <a class='other' href='/about'>About</a></body></html>";
    assert_eq!(CountryPage::parse_html(html).err(), Some(ParseError::NoState));
    assert_eq!(CountryPage::parse_html("").err(), Some(ParseError::NoState));
}

#[test]
fn country_page_from_no_match_is_an_error() {
    assert_eq!(CountryPage::from_captures(Vec::new()).err(), Some(ParseError::NoState));
}

#[test]
fn country_page_from_matches_takes_link_and_name() {
    let matches = vec![
        vec![Some("<a ...>"), Some("/l/usa/alabama"), Some("Alabama")],
        vec![Some("<a ...>"), Some("/l/usa/alaska"), Some("Alaska")],
    ];
    let page = CountryPage::from_captures(matches).unwrap();
    assert_eq!(page.states.len(), 2);
    assert_eq!(page.states[1].url(), "/l/usa/alaska");
    assert_eq!(page.states[1].name(), "Alaska");
}

#[test]
fn country_page_from_a_match_of_another_shape_is_an_error() {
    let two = vec![vec![Some("<a ...>"), Some("/l/usa/alabama")]];
    assert_eq!(CountryPage::from_captures(two).err(), Some(ParseError::CaptureShape));
    let four = vec![
        vec![Some("a"), Some("b"), Some("c")],
        vec![Some("a"), Some("b"), Some("c"), Some("d")],
    ];
    assert_eq!(CountryPage::from_captures(four).err(), Some(ParseError::CaptureShape));
    let missing = vec![vec![Some("a"), None, Some("c")]];
    assert_eq!(CountryPage::from_captures(missing).err(), Some(ParseError::CaptureShape));
}

#[test]
fn country_page_link_does_not_run_over_a_line_end() {
    let html = "<a class='theme-simple-link' href='/a'>A\n</a>\
                <a class='theme-simple-link' href='/b'>B</a>";
    let page = CountryPage::parse_html(html).unwrap();
    assert_eq!(page.states.len(), 1);
    assert_eq!(page.states[0].url(), "/b");
}

#[test]
fn split_address_takes_the_first_two_lines() {
    assert_eq!(
        StatePage::split_address("123 Main St<br>City, ST 12345<br>"),
        Some(("123 Main St", "City, ST 12345"))
    );
    assert_eq!(StatePage::split_address("a<br>b"), Some(("a", "b")));
    assert_eq!(StatePage::split_address("a<br>b<br>c<br>d"), Some(("a", "b")));
    assert_eq!(StatePage::split_address("<br>"), Some(("", "")));
}

#[test]
fn split_address_without_a_line_break_fails() {
    assert_eq!(StatePage::split_address("123 Main St, City, ST 12345"), None);
    assert_eq!(StatePage::split_address(""), None);
    assert_eq!(StatePage::split_address("a<br/>b"), None);
}

#[test]
fn second_line_gives_city_state_and_zip() {
    let l = location("City, ST 12345", "");
    assert_eq!(l.parse_city(), Some("City"));
    assert_eq!(l.parse_state(), Some("ST"));
    assert_eq!(l.parse_zip(), Some(("12345", None)));
}

#[test]
fn second_line_gives_the_zip_extension() {
    let l = location("City, ST 12345-6789", "");
    assert_eq!(l.parse_city(), Some("City"));
    assert_eq!(l.parse_state(), Some("ST"));
    assert_eq!(l.parse_zip(), Some(("12345", Some("6789"))));
}

#[test]
fn second_line_tokens_are_delimited_by_any_whitespace() {
    let l = location("Saint Paul,  MN\t 55101-1234 , USA", "");
    assert_eq!(l.parse_city(), Some("Saint Paul"));
    assert_eq!(l.parse_state(), Some("MN"));
    assert_eq!(l.parse_zip(), Some(("55101", Some("1234"))));
}

#[test]
fn second_line_without_comma_has_a_city_only() {
    let l = location("City ST 12345", "");
    assert_eq!(l.parse_city(), Some("City ST 12345"));
    assert_eq!(l.parse_state(), None);
    assert_eq!(l.parse_zip(), None);
}

#[test]
fn second_line_without_zip_has_a_state_only() {
    let l = location("City, ST", "");
    assert_eq!(l.parse_state(), Some("ST"));
    assert_eq!(l.parse_zip(), None);
    let e = location("City,", "");
    assert_eq!(e.parse_city(), Some("City"));
    assert_eq!(e.parse_state(), None);
    assert_eq!(e.parse_zip(), None);
}

#[test]
fn zip_is_split_at_its_first_hyphens() {
    assert_eq!(location("C, ST 12345-6789-00", "").parse_zip(), Some(("12345", Some("6789"))));
    assert_eq!(location("C, ST 12345-", "").parse_zip(), Some(("12345", Some(""))));
    assert_eq!(location("C, ST -6789", "").parse_zip(), Some(("", Some("6789"))));
}

#[test]
fn zip_is_valid_asks_for_a_zip_and_four_digits() {
    assert!(zip_is_valid("12345", None));
    assert!(zip_is_valid("12345", Some("6789")));
    assert!(zip_is_valid("A1B", Some("0000")));
    assert!(!zip_is_valid("", None));
    assert!(!zip_is_valid("", Some("6789")));
    assert!(!zip_is_valid("12345", Some("")));
    assert!(!zip_is_valid("12345", Some("678")));
    assert!(!zip_is_valid("12345", Some("67890")));
    assert!(!zip_is_valid("12345", Some("67a9")));
    assert!(!zip_is_valid("12345", Some("67/9")));
    assert!(!zip_is_valid("12345", Some("67:9")));
    assert!(!zip_is_valid("12345", Some("٦٧٨٩")));
}

#[test]
fn price_is_normalized() {
    assert_eq!(location("", "Starting from US$ 9.99 / month").price(), "US$9.99/month");
}

#[test]
fn price_loses_all_whitespace() {
    assert_eq!(
        location("", "\n  Starting from\n\tUS$ 9.99\u{A0}/ month \n").price(),
        "US$9.99/month"
    );
    assert_eq!(location("", "  ").price(), "");
    assert_eq!(location("", "").price(), "");
}

#[test]
fn price_loses_the_prefix_once() {
    assert_eq!(location("", "Starting from Starting from US$ 5").price(), "StartingfromUS$5");
    assert_eq!(location("", "US$ 5 Starting from").price(), "US$5");
    assert_eq!(location("", "Starting  from US$ 5").price(), "StartingfromUS$5");
    assert_eq!(location("", "starting from US$ 5").price(), "startingfromUS$5");
    assert_eq!(location("", "US$ 5").price(), "US$5");
}

#[test]
fn location_gives_its_address() {
    let a = location("City, ST 12345-6789", "x").into_address().unwrap();
    assert_eq!(
        a,
        Address {
            line1: "123 Main St".to_string(),
            city: "City".to_string(),
            state: "ST".to_string(),
            zip: "12345".to_string(),
            zip4: Some("6789".to_string()),
        }
    );
}

#[test]
fn location_without_a_valid_zip_gives_no_address() {
    for line2 in ["City", "City, ST", "City, ST -6789", "City, ST 12345-678", "City, ST 12345-",
        "City,", ""]
    {
        assert_eq!(location(line2, "x").into_address().err(), Some(ParseError::Zip));
        assert_eq!(location(line2, "x").into_mailbox().err(), Some(ParseError::Zip));
    }
}

#[test]
fn location_gives_its_mailbox() {
    let m = location("City, ST 12345", "Starting from US$ 9.99 / month").into_mailbox().unwrap();
    assert_eq!(
        m,
        Mailbox {
            name: "Main".to_string(),
            address: Address {
                line1: "123 Main St".to_string(),
                city: "City".to_string(),
                state: "ST".to_string(),
                zip: "12345".to_string(),
                zip4: None,
            },
            link: "https://www.anytimemailbox.com/s/main".to_string(),
            price: "US$9.99/month".to_string(),
        }
    );
}

#[test]
fn location_clone_gives_the_same_mailbox() {
    let l = location("City, ST 12345", "US$ 1");
    assert_eq!(l.clone().into_mailbox(), l.into_mailbox());
}

#[test]
fn first_element_is_the_first_match_of_a_selector() {
    let f = Fragment {
        matches: vec![vec![element("a", "", None), element("b", "", None)], vec![]],
    };
    assert_eq!(first_element(&f, 0).map(|e| e.text.as_str()), Some("a"));
    assert!(first_element(&f, 1).is_none());
    assert!(first_element(&f, 2).is_none());
}

#[test]
fn listing_is_read_from_its_fragment() {
    let f = listing_fragment("Main", "US$ 1", "1 Main St<br>City, ST 12345<br>", Some("/s/main"));
    let m = LocationHtmlInfo::from_fragment(0, &f).unwrap().into_mailbox().unwrap();
    assert_eq!(m.name, "Main");
    assert_eq!(m.address.line1, "1 Main St");
    assert_eq!(m.address.city, "City");
    assert_eq!(m.link, "https://www.anytimemailbox.com/s/main");
    assert_eq!(m.price, "US$1");
}

#[test]
fn listing_reports_the_first_thing_missing() {
    let good = listing_fragment("Main", "US$ 1", "1 Main St<br>City, ST 12345", Some("/s/main"));
    let without = |k: usize| {
        let mut f = listing_fragment("Main", "US$ 1", "1 Main St<br>City, ST 1", Some("/s/m"));
        for j in k..4 {
            f.matches[j].clear();
        }
        f
    };
    assert!(LocationHtmlInfo::from_fragment(7, &good).is_ok());
    assert_eq!(
        LocationHtmlInfo::from_fragment(7, &without(0)).err(),
        Some(ParseError::NoTitle { listing: 7 })
    );
    assert_eq!(
        LocationHtmlInfo::from_fragment(7, &without(1)).err(),
        Some(ParseError::NoPrice { listing: 7 })
    );
    assert_eq!(
        LocationHtmlInfo::from_fragment(7, &without(2)).err(),
        Some(ParseError::NoAddress { listing: 7 })
    );
    assert_eq!(
        LocationHtmlInfo::from_fragment(7, &without(3)).err(),
        Some(ParseError::NoPlanButton { listing: 7 })
    );
    let no_split = listing_fragment("Main", "US$ 1", "1 Main St, City, ST 12345", None);
    assert_eq!(
        LocationHtmlInfo::from_fragment(7, &no_split).err(),
        Some(ParseError::AddressSplit { listing: 7 })
    );
    let no_link = listing_fragment("Main", "US$ 1", "1 Main St<br>City, ST 12345", None);
    assert_eq!(
        LocationHtmlInfo::from_fragment(7, &no_link).err(),
        Some(ParseError::NoPlanLink { listing: 7 })
    );
    let short = Fragment { matches: vec![vec![element("Main", "", None)]] };
    assert_eq!(
        LocationHtmlInfo::from_fragment(7, &short).err(),
        Some(ParseError::NoPrice { listing: 7 })
    );
}

#[test]
fn state_page_from_fragments_stops_at_the_first_bad_listing() {
    let fragments = vec![
        listing_fragment("A", "US$ 1", "1 Main St<br>City, ST 12345", Some("/s/a")),
        listing_fragment("B", "US$ 1", "1 Main St", Some("/s/b")),
        listing_fragment("C", "US$ 1", "1 Main St<br>City, ST 12345", None),
    ];
    assert_eq!(
        StatePage::from_fragments(&fragments).err(),
        Some(ParseError::AddressSplit { listing: 1 })
    );
    let first = vec![listing_fragment("A", "US$ 1", "1 Main St<br>City, ST 12345", Some("/s/a"))];
    assert_eq!(StatePage::from_fragments(&first).map(|p| p.len()).ok(), Some(1));
}

#[test]
fn state_page_without_listings_is_empty() {
    let page = StatePage::parse_html("<html><body><p>Nothing here</p></body></html>").unwrap();
    assert_eq!(page.len(), 0);
    assert_eq!(page.to_mailboxes(), Ok(Vec::new()));
    assert_eq!(StatePage::from_fragments(&Vec::new()).map(|p| p.len()).ok(), Some(0));
}

#[test]
fn state_page_reads_its_listings() {
    let page = StatePage::parse_html(&state_html(10)).unwrap();
    assert_eq!(page.len(), 10);
    let mailboxes = page.to_mailboxes().unwrap();
    assert_eq!(mailboxes.len(), 10);
    assert_eq!(
        mailboxes[3],
        Mailbox {
            name: "Location 3".to_string(),
            address: Address {
                line1: "103 Main St".to_string(),
                city: "Birmingham".to_string(),
                state: "AL".to_string(),
                zip: "35203".to_string(),
                zip4: None,
            },
            link: "https://www.anytimemailbox.com/s/location-3".to_string(),
            price: "US$9.99/month".to_string(),
        }
    );
}

#[test]
fn state_page_reports_what_a_listing_lacks() {
    let complete = listing_html("A", "US$ 1", "1 Main St<br>City, ST 12345", "/s/a");
    let page = |listing: &str| format!("<html><body>{}{}</body></html>", complete, listing);
    let cases = [
        (
            "<div class=\"theme-location-item\"><div class=\"t-price\">1</div></div>",
            ParseError::NoTitle { listing: 1 },
        ),
        (
            "<div class=\"theme-location-item\"><h3 class=\"t-title\">B</h3></div>",
            ParseError::NoPrice { listing: 1 },
        ),
        (
            "<div class=\"theme-location-item\"><h3 class=\"t-title\">B</h3>\
             <div class=\"t-price\">1</div></div>",
            ParseError::NoAddress { listing: 1 },
        ),
        (
            "<div class=\"theme-location-item\"><h3 class=\"t-title\">B</h3>\
             <div class=\"t-price\">1</div><div class=\"t-addr\">1 Main St</div></div>",
            ParseError::AddressSplit { listing: 1 },
        ),
        (
            "<div class=\"theme-location-item\"><h3 class=\"t-title\">B</h3>\
             <div class=\"t-price\">1</div><div class=\"t-addr\">1 Main St<br>C, S 1</div>\
             <a class=\"plan\" href=\"/s/b\">Choose</a></div>",
            ParseError::NoPlanButton { listing: 1 },
        ),
        (
            "<div class=\"theme-location-item\"><h3 class=\"t-title\">B</h3>\
             <div class=\"t-price\">1</div><div class=\"t-addr\">1 Main St<br>C, S 1</div>\
             <a class=\"gt-plan\">Choose</a></div>",
            ParseError::NoPlanLink { listing: 1 },
        ),
    ];
    for (listing, error) in cases {
        assert_eq!(StatePage::parse_html(&page(listing)).err(), Some(error));
    }
}

#[test]
fn state_page_takes_the_container_by_its_whole_class() {
    let html = "<div class=\"theme-location-item featured\"><h3 class=\"t-title\">A</h3></div>";
    assert_eq!(StatePage::parse_html(html).map(|p| p.len()).ok(), Some(0));
}

#[test]
fn state_page_with_a_bad_zip_gives_no_mailboxes() {
    let mut html = state_html(9);
    html.push_str(&listing_html("Bad", "US$ 1", "1 Main St<br>City, ST<br>", "/s/bad"));
    let page = StatePage::parse_html(&html).unwrap();
    assert_eq!(page.len(), 10);
    assert_eq!(page.to_mailboxes(), Err(ParseError::Zip));
}

#[test]
fn detail_lines_are_the_texts_that_are_not_empty() {
    let block = Fragment {
        matches: vec![vec![
            element("Name", "", None),
            element("", "<img>", None),
            element("1 Main St", "", None),
        ]],
    };
    assert_eq!(lines_of_fragments(&vec![block]), Some(strings(&["Name", "1 Main St"])));
    assert_eq!(lines_of_fragments(&vec![Fragment { matches: vec![] }]), Some(Vec::new()));
    assert_eq!(lines_of_fragments(&Vec::new()), None);
}

#[test]
fn detail_lines_come_from_the_first_block() {
    let first = Fragment { matches: vec![vec![element("a", "", None)]] };
    let second = Fragment { matches: vec![vec![element("b", "", None)]] };
    assert_eq!(lines_of_fragments(&vec![first, second]), Some(strings(&["a"])));
}

#[test]
fn detail_of_three_lines_is_an_error() {
    let lines = strings(&["Name", "1 Main St", "City, ST 12345"]);
    assert_eq!(
        LocationDetailPage::from_lines(&lines).err(),
        Some(ParseError::LineCount { found: 3 })
    );
}

#[test]
fn detail_of_four_lines_has_the_street_verbatim() {
    let lines = strings(&["Name", "1 Main St", "City, ST 12345", "United States"]);
    assert_eq!(LocationDetailPage::from_lines(&lines).unwrap().street(), "1 Main St");
}

#[test]
fn detail_of_five_lines_has_one_more_line() {
    let lines = strings(&["Name", "1 Main St", "Suite 2", "City, ST 12345", "United States"]);
    assert_eq!(LocationDetailPage::from_lines(&lines).unwrap().street(), "1 Main St Suite 2");
}

#[test]
fn detail_of_six_lines_has_two_more_lines() {
    let lines =
        strings(&["Name", "1 Main St", "Floor 3", "Suite 2", "City, ST 12345", "United States"]);
    assert_eq!(
        LocationDetailPage::from_lines(&lines).unwrap().street(),
        "1 Main St Floor 3 Suite 2"
    );
}

#[test]
fn detail_of_seven_lines_is_an_error() {
    let lines = strings(&["Name", "1", "2", "3", "4", "City, ST 12345", "United States"]);
    assert_eq!(
        LocationDetailPage::from_lines(&lines).err(),
        Some(ParseError::LineCount { found: 7 })
    );
    assert_eq!(
        LocationDetailPage::from_lines(&Vec::new()).err(),
        Some(ParseError::LineCount { found: 0 })
    );
}

#[test]
fn detail_page_reads_the_street() {
    let four = detail_html(&["Name", "1 Main St", "City, ST 12345", "United States"]);
    assert_eq!(LocationDetailPage::parse_html(&four).unwrap().street(), "1 Main St");
    let five = detail_html(&["Name", "1 Main St", "Suite 2", "City, ST 12345", "United States"]);
    assert_eq!(LocationDetailPage::parse_html(&five).unwrap().street(), "1 Main St Suite 2");
    let six = detail_html(&["Name", "1 Main St", "Fl 3", "Ste 2", "City, ST 1", "United States"]);
    assert_eq!(LocationDetailPage::parse_html(&six).unwrap().street(), "1 Main St Fl 3 Ste 2");
}

#[test]
fn detail_page_skips_empty_lines() {
    let html = detail_html(&["Name", "", "1 Main St", "", "City, ST 12345", "United States"]);
    assert_eq!(LocationDetailPage::parse_html(&html).unwrap().street(), "1 Main St");
}

#[test]
fn detail_page_with_a_wrong_line_count_is_an_error() {
    let three = detail_html(&["Name", "1 Main St", "City, ST 12345"]);
    assert_eq!(
        LocationDetailPage::parse_html(&three).err(),
        Some(ParseError::LineCount { found: 3 })
    );
    let seven = detail_html(&["a", "b", "c", "d", "e", "f", "g"]);
    assert_eq!(
        LocationDetailPage::parse_html(&seven).err(),
        Some(ParseError::LineCount { found: 7 })
    );
}

#[test]
fn detail_page_without_the_block_is_an_error() {
    let html = "<html><body><div class=\"t-text\"><div>a</div></div></body></html>";
    assert_eq!(LocationDetailPage::parse_html(html).err(), Some(ParseError::NoDetail));
    assert_eq!(LocationDetailPage::parse_html("").err(), Some(ParseError::NoDetail));
}

#[test]
fn fifty_states_and_ten_listings_give_ten_mailboxes() {
    let country = country_html(50);
    let page = CountryPage::parse_html(&country).unwrap();
    assert_eq!(page.states.len(), 50);
    let state = StatePage::parse_html(&state_html(10)).unwrap();
    let pages = atmb_crawl::atmb::collect_state_pages(vec![Some(state)]).unwrap();
    let mailboxes = atmb_crawl::atmb::collect_mailboxes(&pages).unwrap();
    assert_eq!(mailboxes.len(), 10);
    let outcomes: Vec<Option<Mailbox>> = mailboxes.into_iter().map(Some).collect();
    let detailed = atmb_crawl::atmb::collect_detailed(outcomes).unwrap();
    assert_eq!(detailed.len(), 10);
    assert_eq!(detailed[9].name, "Location 9");
}
