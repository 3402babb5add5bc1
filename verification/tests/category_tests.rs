use bvg_api::category::{hex_to_rgb, product_category, product_hex, product_symbol, ProductCategory};

#[test]
fn every_string_maps_to_exactly_one_category() {
    assert_eq!(product_category("subway"), ProductCategory::Subway);
    assert_eq!(product_category("suburban"), ProductCategory::Suburban);
    assert_eq!(product_category("bus"), ProductCategory::Bus);
    assert_eq!(product_category("tram"), ProductCategory::Tram);
    assert_eq!(product_category(""), ProductCategory::Other);
    assert_eq!(product_category("ferry"), ProductCategory::Other);
    assert_eq!(product_category("regional"), ProductCategory::Other);
}

#[test]
fn matching_is_case_insensitive_and_by_substring() {
    assert_eq!(product_category("Subway"), ProductCategory::Subway);
    assert_eq!(product_category("SUBWAY"), ProductCategory::Subway);
    assert_eq!(product_category("the-subway-line"), ProductCategory::Subway);
    assert_eq!(product_category("SubUrban"), ProductCategory::Suburban);
    assert_eq!(product_category("NightBUS"), ProductCategory::Bus);
    assert_eq!(product_category("Tramway"), ProductCategory::Tram);
}

#[test]
fn priority_order_subway_suburban_bus_tram() {
    assert_eq!(product_category("subway suburban bus tram"), ProductCategory::Subway);
    assert_eq!(product_category("suburban bus tram"), ProductCategory::Suburban);
    assert_eq!(product_category("bus tram"), ProductCategory::Bus);
    assert_eq!(product_category("tram bus"), ProductCategory::Bus);
    assert_eq!(product_category("tram only"), ProductCategory::Tram);
}

#[test]
fn symbols_keyed_by_category() {
    assert_eq!(product_symbol("subway"), "\u{1F687}");
    assert_eq!(product_symbol("suburban"), "\u{1F686}");
    assert_eq!(product_symbol("bus"), "\u{1F68C}");
    assert_eq!(product_symbol("tram"), "\u{1F683}");
    assert_eq!(product_symbol("something else"), "\u{1F680}");
}

#[test]
fn colors_keyed_by_category() {
    assert_eq!(product_hex("subway"), "#00539F");
    assert_eq!(product_hex("suburban"), "#00854A");
    assert_eq!(product_hex("bus"), "#95276E");
    assert_eq!(product_hex("tram"), "#BE1414");
    assert_eq!(product_hex("boat"), "#00FFFF");
}

#[test]
fn hex_decoding_exact_values() {
    assert_eq!(hex_to_rgb("#00539F"), (0x00, 0x53, 0x9F));
    assert_eq!(hex_to_rgb("#BE1414"), (0xBE, 0x14, 0x14));
    assert_eq!(hex_to_rgb("#00FFFF"), (0x00, 0xFF, 0xFF));
    assert_eq!(hex_to_rgb("95276E"), (0x95, 0x27, 0x6E));
    // all leading hashes are skipped
    assert_eq!(hex_to_rgb("##00854A"), (0x00, 0x85, 0x4A));
    // lower-case digits decode too
    assert_eq!(hex_to_rgb("#00854a"), (0x00, 0x85, 0x4A));
}

#[test]
fn hex_decoding_bad_pair_falls_back_to_255() {
    assert_eq!(hex_to_rgb("#GG1122"), (255, 0x11, 0x22));
    assert_eq!(hex_to_rgb("#11ZZ22"), (0x11, 255, 0x22));
    assert_eq!(hex_to_rgb("#1122 Z"), (0x11, 0x22, 255));
}

#[test]
fn every_renderer_color_decodes() {
    for product in ["subway", "suburban", "bus", "tram", "other"] {
        let (r, g, b) = hex_to_rgb(product_hex(product));
        // a known category never hits the 255 fallback on all three channels
        assert!(r != 255 || g != 255 || b != 255 || product_hex(product) == "#FFFFFF");
        let _ = (r, g, b);
    }
}
