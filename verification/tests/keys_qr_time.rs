use node_config::config_build::normalize_reality_short_ids;
use node_config::keys::{
    generate_reality_keypair, generate_reality_short_id, hex_encode, random_hex,
    reality_keypair_from,
};
use node_config::qr::{qr_svg, svg_of_modules};
use node_config::time_text::{format_date, format_uptime, local_date_text, zero_padded_decimal};

const ALICE_SECRET: [u8; 32] = [
    119, 7, 109, 10, 115, 24, 165, 125, 60, 22, 193, 114, 81, 178, 102, 69, 223, 76, 47, 135,
    235, 192, 153, 42, 177, 119, 251, 165, 29, 185, 44, 42,
];

#[test]
fn keypair_of_a_known_secret() {
    let (private, public) = reality_keypair_from(ALICE_SECRET);
    assert_eq!(private, "dwdtCnMYpX08FsFyUbJmRd9ML4frwJkqsXf7pR25LCo");
    assert_eq!(public, "hSDwCYkwp1R0i33ctD73Wg2_Og0mOBr066SpjqqbTmo");
}

#[test]
fn generated_keypair_has_two_keys() {
    let (private, public) = generate_reality_keypair();
    assert_eq!(private.len(), 43);
    assert_eq!(public.len(), 43);
    assert_ne!(private, public);
}

#[test]
fn hex_of_bytes() {
    assert_eq!(hex_encode(&[0x00, 0xab, 0xff, 0x10]), "00abff10");
    assert_eq!(hex_encode(&[]), "");
}

#[test]
fn random_hex_has_two_digits_per_byte() {
    let h = random_hex(8).unwrap();
    assert_eq!(h.len(), 16);
    assert!(h.chars().all(|c| c.is_ascii_digit() || ('a'..='f').contains(&c)));
    assert_eq!(random_hex(0).unwrap(), "");
}

#[test]
fn generated_short_id_is_kept_by_the_config() {
    let id = generate_reality_short_id().unwrap();
    assert_eq!(normalize_reality_short_ids(&id), vec![id.clone()]);
}

#[test]
fn short_ids_are_lowered_and_checked() {
    let ids = normalize_reality_short_ids("AB12, xyz, 0123456789abcdef01, abc, ,ff\n0123456789ABCDEF");
    assert_eq!(ids, vec!["ab12".to_string(), "ff".to_string(), "0123456789abcdef".to_string()]);
}

#[test]
fn svg_of_a_small_grid() {
    let svg = svg_of_modules(&vec![vec![true, false], vec![false, true]]);
    assert_eq!(
        svg,
        "<svg xmlns='http://www.w3.org/2000/svg' viewBox='0 0 10 10' shape-rendering='crispEdges'><rect width='100%' height='100%' fill='white'/><path d='M4,4h1v1h-1zM5,5h1v1h-1z' fill='black'/></svg>"
    );
}

#[test]
fn qr_code_of_a_short_text() {
    let svg = qr_svg("hello").unwrap();
    assert!(svg.starts_with("<svg xmlns='http://www.w3.org/2000/svg' viewBox='0 0 29 29'"));
    assert!(svg.contains("<path d='M4,4h1v1h-1zM5,4h1v1h-1z"));
    assert!(svg.ends_with("' fill='black'/></svg>"));
}

#[test]
fn qr_code_of_a_too_long_text() {
    assert_eq!(qr_svg(&"a".repeat(3000)), None);
}

#[test]
fn dates_are_zero_padded() {
    assert_eq!(format_date(2024, 3, 7), "2024-03-07");
    assert_eq!(format_date(12345, 12, 31), "12345-12-31");
    assert_eq!(format_date(7, 1, 1), "0007-01-01");
    assert_eq!(zero_padded_decimal(5, 4), "0005");
    assert_eq!(zero_padded_decimal(123456, 2), "123456");
}

#[test]
fn uptime_texts() {
    assert_eq!(format_uptime(0), "0m");
    assert_eq!(format_uptime(59), "0m");
    assert_eq!(format_uptime(61), "1m");
    assert_eq!(format_uptime(3600), "1h 0m");
    assert_eq!(format_uptime(7325), "2h 2m");
    assert_eq!(format_uptime(90061), "1d 1h");
    assert_eq!(format_uptime(86399), "23h 59m");
}

#[test]
fn qr_code_of_the_longest_text_that_fits() {
    let svg = qr_svg(&"a".repeat(2331)).unwrap();
    assert!(svg.starts_with("<svg xmlns='http://www.w3.org/2000/svg' viewBox='0 0 185 185'"));
}

#[test]
fn qr_code_of_the_empty_text_is_the_smallest() {
    let svg = qr_svg("").unwrap();
    assert!(svg.starts_with("<svg xmlns='http://www.w3.org/2000/svg' viewBox='0 0 29 29'"));
}

#[test]
fn browser_dates_count_months_from_one() {
    assert_eq!(local_date_text(2024, 0, 5), "2024-01-05");
    assert_eq!(local_date_text(2024, 11, 31), "2024-12-31");
    assert_eq!(local_date_text(999, 8, 9), "0999-09-09");
}
