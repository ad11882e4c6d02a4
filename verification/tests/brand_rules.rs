use cardcheck::Brand;
use cardcheck::detect_brand;

#[test]
fn brand_empty_is_unknown() {
    assert_eq!(detect_brand(""), Brand::Unknown);
    assert_eq!(detect_brand("no digits"), Brand::Unknown);
}

#[test]
fn brand_visa() {
    assert_eq!(detect_brand("4111111111111111"), Brand::Visa);
    assert_eq!(detect_brand("4"), Brand::Visa);
}

#[test]
fn brand_american_express() {
    assert_eq!(detect_brand("341111111111111"), Brand::AmericanExpress);
    assert_eq!(detect_brand("371449635398431"), Brand::AmericanExpress);
}

#[test]
fn brand_mastercard_two_digit_range() {
    assert_eq!(detect_brand("5111111111111111"), Brand::Mastercard);
    assert_eq!(detect_brand("5555555555554444"), Brand::Mastercard);
}

#[test]
fn brand_mastercard_four_digit_range() {
    assert_eq!(detect_brand("2221000000000009"), Brand::Mastercard);
    assert_eq!(detect_brand("2720999999999999"), Brand::Mastercard);
}

#[test]
fn brand_jcb() {
    assert_eq!(detect_brand("3528000000000000"), Brand::Jcb);
    assert_eq!(detect_brand("3589999999999999"), Brand::Jcb);
}

#[test]
fn brand_diners_club() {
    assert_eq!(detect_brand("30000000000004"), Brand::DinersClub);
    assert_eq!(detect_brand("30569309025904"), Brand::DinersClub);
    assert_eq!(detect_brand("36700102000000"), Brand::DinersClub);
    assert_eq!(detect_brand("38000000000006"), Brand::DinersClub);
    assert_eq!(detect_brand("39000000000000"), Brand::DinersClub);
}

#[test]
fn brand_discover() {
    assert_eq!(detect_brand("6011111111111117"), Brand::Discover);
    assert_eq!(detect_brand("6500000000000000"), Brand::Discover);
    assert_eq!(detect_brand("6440000000000000"), Brand::Discover);
    assert_eq!(detect_brand("6221260000000000"), Brand::Discover);
    assert_eq!(detect_brand("6229259999999999"), Brand::Discover);
}

#[test]
fn brand_voyager() {
    assert_eq!(detect_brand("869912345678901"), Brand::Voyager);
}

#[test]
fn brand_hipercard() {
    assert_eq!(detect_brand("6062825624254001"), Brand::Hipercard);
}

#[test]
fn brand_aura() {
    assert_eq!(detect_brand("5078601870000127"), Brand::Aura);
}

#[test]
fn brand_elo() {
    assert_eq!(detect_brand("6277800000000000"), Brand::Elo);
    assert_eq!(detect_brand("6362970000000000"), Brand::Elo);
    assert_eq!(detect_brand("6363680000000000"), Brand::Elo);
}

#[test]
fn brand_unmatched_is_unknown() {
    assert_eq!(detect_brand("1234"), Brand::Unknown);
    assert_eq!(detect_brand("9999999999999999"), Brand::Unknown);
}

#[test]
fn brand_priority_visa_wins_over_elo() {
    // "401178" is an Elo prefix, but the Visa rule is listed first.
    assert_eq!(detect_brand("4011780000000000"), Brand::Visa);
    assert_eq!(detect_brand("4011790000000000"), Brand::Visa);
    assert_eq!(detect_brand("4576310000000000"), Brand::Visa);
}

#[test]
fn brand_priority_aura_wins_over_elo() {
    // "504175" is an Elo prefix, but the Aura rule ("50") is listed first.
    assert_eq!(detect_brand("5041750000000000"), Brand::Aura);
}

#[test]
fn brand_labels() {
    assert_eq!(Brand::Visa.label(), "Visa");
    assert_eq!(Brand::AmericanExpress.label(), "American Express");
    assert_eq!(Brand::Mastercard.label(), "Mastercard");
    assert_eq!(Brand::Jcb.label(), "JCB");
    assert_eq!(Brand::DinersClub.label(), "Diners Club");
    assert_eq!(Brand::Discover.label(), "Discover");
    assert_eq!(Brand::Voyager.label(), "Voyager");
    assert_eq!(Brand::Hipercard.label(), "Hipercard");
    assert_eq!(Brand::Aura.label(), "Aura");
    assert_eq!(Brand::Elo.label(), "Elo");
    assert_eq!(Brand::Unknown.label(), "Desconhecida");
}
