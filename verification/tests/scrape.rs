use skroutz_deals::{
    assemble_card, extract_records, process_response, skip_to_digit, trim, Function, ScrapeError,
};

fn card(title: &str, original: &str, discounted: &str, href: &str) -> String {
    format!(
        "<li class=\"cf card\"><div class=\"card-content\"><strike>{}</strike><a class=\"js-sku-link sku-link\" title=\"{}\" href=\"{}\">{}</a></div></li>",
        original, title, href, discounted
    )
}

fn page(cards: &[String]) -> String {
    format!("<ul>{}</ul>", cards.join(""))
}

#[test]
fn trim_strips_edges() {
    assert_eq!(trim("  Example Product \n"), "Example Product");
    assert_eq!(trim(""), "");
    assert_eq!(trim(" \t "), "");
    assert_eq!(trim("\u{2003}Example Product\u{a0}"), "Example Product");
    assert_eq!(trim(" padded "), " padded ".trim());
    assert_eq!(
        trim("\u{3000}\u{85}kept\u{202f}\u{1680}"),
        "\u{3000}\u{85}kept\u{202f}\u{1680}".trim()
    );
}

#[test]
fn skip_to_digit_drops_currency_glyph() {
    assert_eq!(skip_to_digit("\u{20ac} 14,99"), "14,99");
    assert_eq!(skip_to_digit("14,99"), "14,99");
    assert_eq!(skip_to_digit("no digits"), "");
}

#[test]
fn record_builder_keeps_fields() {
    let f = Function::new("a", "b", "c", "d", "e");
    assert_eq!(f.name, "a");
    assert_eq!(f.old_price, "b");
    assert_eq!(f.new_price, "c");
    assert_eq!(f.discount, "d");
    assert_eq!(f.link, "e");
}

#[test]
fn assembled_card_has_derived_discount_and_link() {
    let r = assemble_card(
        Some("Example Product"),
        Some("19,99 \u{20ac}"),
        Some("14,99 \u{20ac}"),
        Some("/p/123"),
    )
    .unwrap()
    .unwrap();
    assert_eq!(r.name, "Example Product");
    assert_eq!(r.old_price, "19,99 \u{20ac}");
    assert_eq!(r.new_price, "14,99 \u{20ac}");
    assert_eq!(r.discount, "25.0125");
    assert!(r.link.contains("https://skroutz.gr/p/123"));
}

#[test]
fn missing_field_yields_no_record() {
    assert!(matches!(
        assemble_card(None, Some("19,99"), Some("14,99"), Some("/p/1")),
        Ok(None)
    ));
    assert!(matches!(
        assemble_card(Some("t"), None, Some("14,99"), Some("/p/1")),
        Ok(None)
    ));
    assert!(matches!(
        assemble_card(Some("t"), Some("19,99"), Some("14,99"), None),
        Ok(None)
    ));
}

#[test]
fn malformed_price_aborts_assembly() {
    assert!(matches!(
        assemble_card(Some("t"), Some("no price"), Some("14,99"), Some("/p/1")),
        Err(ScrapeError::PriceParse)
    ));
}

#[test]
fn extracts_records_in_document_order() {
    let body = page(&[
        card("First Product", "19,99 \u{20ac}", "14,99 \u{20ac}", "/p/1"),
        card("Second Product", "30,00 \u{20ac}", "15,00 \u{20ac}", "/p/2"),
    ]);
    let recs = extract_records(&body).unwrap();
    assert_eq!(recs.len(), 2);
    assert_eq!(recs[0].name, "First Product");
    assert_eq!(recs[0].old_price, "19,99 \u{20ac}");
    assert_eq!(recs[0].new_price, "14,99 \u{20ac}");
    assert_eq!(recs[0].discount, "25.0125");
    assert!(recs[0].link.contains("https://skroutz.gr/p/1"));
    assert_eq!(recs[1].name, "Second Product");
    assert_eq!(recs[1].discount, "50.0000");
}

#[test]
fn partial_card_is_skipped_and_extraction_goes_on() {
    let no_title = "<li class=\"cf card\"><div class=\"card-content\"><strike>9,99 \u{20ac}</strike><a class=\"js-sku-link sku-link\" href=\"/p/2\">5,99 \u{20ac}</a></div></li>".to_string();
    let body = page(&[
        card("First Product", "19,99 \u{20ac}", "14,99 \u{20ac}", "/p/1"),
        no_title,
        card("Third Product", "30,00 \u{20ac}", "15,00 \u{20ac}", "/p/3"),
    ]);
    let recs = extract_records(&body).unwrap();
    assert_eq!(recs.len(), 2);
    assert_eq!(recs[0].name, "First Product");
    assert_eq!(recs[1].name, "Third Product");
}

#[test]
fn card_without_strike_is_skipped() {
    let no_strike = "<li class=\"cf card\"><div class=\"card-content\"><a class=\"js-sku-link sku-link\" title=\"Bare\" href=\"/p/9\">5,99 \u{20ac}</a></div></li>".to_string();
    let body = page(&[no_strike]);
    let recs = extract_records(&body).unwrap();
    assert_eq!(recs.len(), 0);
}

#[test]
fn malformed_price_aborts_extraction() {
    let body = page(&[card("Broken", "no digits here", "14,99 \u{20ac}", "/p/1")]);
    assert!(matches!(extract_records(&body), Err(ScrapeError::PriceParse)));
}

#[test]
fn zero_original_price_aborts_extraction() {
    let body = page(&[card("Free", "0,00 \u{20ac}", "0,00 \u{20ac}", "/p/1")]);
    assert!(matches!(extract_records(&body), Err(ScrapeError::DivisionByZero)));
}

fn twelve_cards() -> String {
    let names = [
        "Product One",
        "Product Two",
        "Product Three",
        "Product Four",
        "Product Five",
        "Product Six",
        "Product Seven",
        "Product Eight",
        "Product Nine",
        "Product Ten",
        "Product Eleven",
        "Product Twelve",
    ];
    let mut cards: Vec<String> = Vec::new();
    for (i, name) in names.iter().enumerate() {
        cards.push(card(
            name,
            "20,00 \u{20ac}",
            "10,00 \u{20ac}",
            &format!("/p/{}", i),
        ));
    }
    page(&cards)
}

#[test]
fn requesting_five_of_twelve_returns_five_known_records() {
    let body = twelve_cards();
    let recs = process_response(200, &body, 5).unwrap();
    assert_eq!(recs.len(), 5);
    let all = extract_records(&body).unwrap();
    for r in &recs {
        assert!(all.iter().any(|a| a.name == r.name && a.link == r.link));
    }
}

#[test]
fn truncation_saturates_when_fewer_exist() {
    let body = page(&[
        card("First Product", "19,99 \u{20ac}", "14,99 \u{20ac}", "/p/1"),
        card("Second Product", "30,00 \u{20ac}", "15,00 \u{20ac}", "/p/2"),
        card("Third Product", "40,00 \u{20ac}", "20,00 \u{20ac}", "/p/3"),
    ]);
    let recs = process_response(200, &body, 10).unwrap();
    assert_eq!(recs.len(), 3);
}

#[test]
fn shuffle_keeps_the_same_records() {
    let body = twelve_cards();
    let recs = process_response(200, &body, 12).unwrap();
    assert_eq!(recs.len(), 12);
    let mut got: Vec<String> = recs.iter().map(|r| r.name.clone()).collect();
    let mut want: Vec<String> = extract_records(&body)
        .unwrap()
        .iter()
        .map(|r| r.name.clone())
        .collect();
    got.sort();
    want.sort();
    assert_eq!(got, want);
}

#[test]
fn shuffle_keeps_truncated_prefix() {
    let body = twelve_cards();
    let all = extract_records(&body).unwrap();
    let first_three: Vec<&str> = all[..3].iter().map(|r| r.name.as_str()).collect();
    let recs = process_response(200, &body, 3).unwrap();
    assert_eq!(recs.len(), 3);
    for r in &recs {
        assert!(first_three.contains(&r.name.as_str()));
    }
}

#[test]
fn non_success_status_is_transport_error() {
    let body = twelve_cards();
    assert!(matches!(
        process_response(404, &body, 5),
        Err(ScrapeError::Transport)
    ));
    assert!(matches!(
        process_response(500, &body, 5),
        Err(ScrapeError::Transport)
    ));
    assert!(matches!(
        process_response(301, &body, 5),
        Err(ScrapeError::Transport)
    ));
    assert!(process_response(204, &body, 5).is_ok());
}

#[test]
fn empty_page_yields_no_records() {
    let recs = process_response(200, "<ul></ul>", 5).unwrap();
    assert_eq!(recs.len(), 0);
}

#[test]
fn error_messages_name_the_failure() {
    assert_eq!(
        ScrapeError::Transport.message(),
        "fetch failed or returned a non-success status"
    );
    assert_eq!(ScrapeError::PriceParse.message(), "malformed price text");
    assert_eq!(ScrapeError::DivisionByZero.message(), "original price of zero");
    assert_eq!(
        ScrapeError::SelectorSyntax.message(),
        "malformed structural selector"
    );
}
