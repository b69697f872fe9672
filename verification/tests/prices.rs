use skroutz_deals::{
    build_url, compute_discount, create_link, parse_price, render_discount, u128_to_string,
    Discount, ScrapeError,
};

#[test]
fn normalize_with_separators() {
    let a = parse_price("1.234,56 \u{20ac}").unwrap();
    let b = parse_price("1234,56").unwrap();
    assert_eq!(a.num, 123456);
    assert_eq!(a.scale, 2);
    assert_eq!(b.num, 123456);
    assert_eq!(b.scale, 2);
}

#[test]
fn normalize_plain_integer() {
    let p = parse_price("1999").unwrap();
    assert_eq!(p.num, 1999);
    assert_eq!(p.scale, 0);
}

#[test]
fn normalize_example_price() {
    let p = parse_price("19,99 \u{20ac}").unwrap();
    assert_eq!(p.num, 1999);
    assert_eq!(p.scale, 2);
}

#[test]
fn parse_error_when_no_digit() {
    assert!(matches!(parse_price("\u{20ac} "), Err(ScrapeError::PriceParse)));
    assert!(matches!(parse_price(""), Err(ScrapeError::PriceParse)));
    assert!(matches!(parse_price(","), Err(ScrapeError::PriceParse)));
}

#[test]
fn parse_error_on_second_comma() {
    assert!(matches!(parse_price("1,2,3"), Err(ScrapeError::PriceParse)));
}

#[test]
fn parse_error_on_oversized_numeral() {
    assert!(matches!(parse_price("1234567890123456"), Err(ScrapeError::PriceParse)));
    assert!(parse_price("123456789012345").is_ok());
}

#[test]
fn discount_of_example_pair() {
    let o = parse_price("19,99 \u{20ac}").unwrap();
    let d = parse_price("14,99 \u{20ac}").unwrap();
    let disc = compute_discount(&o, &d).unwrap();
    assert!(!disc.neg);
    assert_eq!(disc.units, 250125);
    assert_eq!(render_discount(&disc), "25.0125");
    let shown = 25.0125_f64;
    let exact = 100.0 * (19.99 - 14.99) / 19.99;
    assert!((shown - exact).abs() <= 1e-3);
}

#[test]
fn discount_in_open_interval_for_real_drop() {
    let o = parse_price("100000,00").unwrap();
    let d = parse_price("99999,99").unwrap();
    let disc = compute_discount(&o, &d).unwrap();
    assert!(!disc.neg);
    assert!(disc.units >= 1);
    assert!(disc.units < 1000000);
}

#[test]
fn tiny_drop_never_reads_zero() {
    let o = parse_price("10001").unwrap();
    let d = parse_price("10000").unwrap();
    let disc = compute_discount(&o, &d).unwrap();
    assert!(!disc.neg);
    assert_eq!(disc.units, 99);
    assert_eq!(render_discount(&disc), "0.0099");
}

#[test]
fn sub_unit_drop_rounds_up_to_one_unit() {
    let o = parse_price("100000000000001").unwrap();
    let d = parse_price("100000000000000").unwrap();
    let disc = compute_discount(&o, &d).unwrap();
    assert!(!disc.neg);
    assert_eq!(disc.units, 1);
    assert_eq!(render_discount(&disc), "0.0001");
}

#[test]
fn discount_zero_original_is_error() {
    let o = parse_price("0,00").unwrap();
    let d = parse_price("1,00").unwrap();
    assert!(matches!(compute_discount(&o, &d), Err(ScrapeError::DivisionByZero)));
}

#[test]
fn discount_negative_when_price_rose() {
    let o = parse_price("10,00").unwrap();
    let d = parse_price("12,00").unwrap();
    let disc = compute_discount(&o, &d).unwrap();
    assert!(disc.neg);
    assert_eq!(disc.units, 200000);
    assert_eq!(render_discount(&disc), "-20.0000");
}

#[test]
fn discount_across_scales() {
    let o = parse_price("20").unwrap();
    let d = parse_price("14,99").unwrap();
    let disc = compute_discount(&o, &d).unwrap();
    assert!(!disc.neg);
    assert_eq!(disc.units, 250500);
}

#[test]
fn render_pads_fraction_digits() {
    assert_eq!(render_discount(&Discount { neg: false, units: 5 }), "0.0005");
    assert_eq!(render_discount(&Discount { neg: false, units: 1000000 }), "100.0000");
    assert_eq!(render_discount(&Discount { neg: false, units: 230 }), "0.0230");
}

#[test]
fn numeral_rendering() {
    assert_eq!(u128_to_string(0), "0");
    assert_eq!(u128_to_string(7), "7");
    assert_eq!(u128_to_string(120034), "120034");
}

#[test]
fn link_is_osc8_wrapped() {
    let l = create_link("https://skroutz.gr/p/1".to_string(), "link".to_string());
    assert_eq!(l, "\x1b]8;;https://skroutz.gr/p/1\x1b\\link\x1b]8;;\x1b\\");
}

#[test]
fn url_embeds_page_index() {
    assert_eq!(
        build_url(3),
        "https://www.skroutz.gr/deals?order_by=recommended&recent=1&page=3"
    );
    assert_eq!(
        build_url(12),
        "https://www.skroutz.gr/deals?order_by=recommended&recent=1&page=12"
    );
}
