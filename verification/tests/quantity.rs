use manager::k8s::{parse_quantity, Error, MissingUnitType};
use uom::fmt::DisplayStyle::Abbreviation;
use uom::si::f64::{Information, Ratio};
use uom::si::information::byte;
use uom::si::ratio::part_per_billion;

fn read<T: std::str::FromStr>(quantity: &str, missing: &MissingUnitType) -> Result<T, Error> {
    let text = parse_quantity(quantity, missing)?;
    text.parse::<T>()
        .map_err(|_| Error::QuantityParsing(quantity.to_string()))
}

#[test]
fn test_ratio_cpu() -> Result<(), Error> {
    // The nano-CPU unit is a part per billion of a CPU.
    assert_eq!(
        format!(
            "{} nanocpu",
            read::<Ratio>("1024n", &MissingUnitType::Complete("ppb"))?.get::<part_per_billion>()
        ),
        "1023.9999999999999 nanocpu".to_owned()
    );

    Ok(())
}

#[test]
fn test_quantity_memory() -> Result<(), Error> {
    assert_eq!(
        format!(
            "{}",
            read::<Information>("1024", &MissingUnitType::Suffix("B"))?
                .into_format_args(byte, Abbreviation)
        ),
        "1024 B".to_owned()
    );

    Ok(())
}

#[test]
fn quantity_text_completes_the_unit() {
    assert_eq!(parse_quantity("1024n", &MissingUnitType::Complete("ppb")).unwrap(), "1024 ppb");
    assert_eq!(parse_quantity("2048Ki", &MissingUnitType::Suffix("B")).unwrap(), "2048 KiB");
    assert_eq!(parse_quantity("4", &MissingUnitType::Complete("")).unwrap(), "4 ");
    assert_eq!(parse_quantity("12_a9", &MissingUnitType::Suffix("B")).unwrap(), "12 _a9B");
}

#[test]
fn quantity_without_number_is_refused() {
    assert_eq!(
        parse_quantity("Ki", &MissingUnitType::Suffix("B")),
        Err(Error::QuantityParsing("Ki".to_string()))
    );
    assert_eq!(
        parse_quantity("", &MissingUnitType::Suffix("B")),
        Err(Error::QuantityParsing("".to_string()))
    );
}

#[test]
fn quantity_with_foreign_unit_characters_is_refused() {
    assert_eq!(
        parse_quantity("10 Ki", &MissingUnitType::Suffix("B")),
        Err(Error::QuantityParsing("10 Ki".to_string()))
    );
    assert_eq!(
        parse_quantity("1.5", &MissingUnitType::Complete("ppb")),
        Err(Error::QuantityParsing("1.5".to_string()))
    );
}

#[test]
fn unreadable_unit_is_a_parsing_error() {
    let res = read::<Information>("10Zz", &MissingUnitType::Suffix("B"));
    assert!(matches!(res, Err(Error::QuantityParsing(q)) if q == "10Zz"));
}

#[test]
fn quantity_units_follow_unicode_word_characters() {
    assert_eq!(parse_quantity("100µ", &MissingUnitType::Complete("ppb")).unwrap(), "100 ppb");
    assert_eq!(parse_quantity("5µs", &MissingUnitType::Suffix("")).unwrap(), "5 µs");
    assert_eq!(
        parse_quantity("7€", &MissingUnitType::Suffix("B")),
        Err(Error::QuantityParsing("7€".to_string()))
    );
}

#[test]
fn quantity_numbers_follow_unicode_decimal_digits() {
    // Arabic-Indic digits one and two, then the unit prefix.
    assert_eq!(
        parse_quantity("\u{661}\u{662}Ki", &MissingUnitType::Suffix("B")).unwrap(),
        "\u{661}\u{662} KiB"
    );
    // A superscript two is no decimal digit.
    assert_eq!(
        parse_quantity("\u{b2}Ki", &MissingUnitType::Suffix("B")),
        Err(Error::QuantityParsing("\u{b2}Ki".to_string()))
    );
}

#[test]
fn completed_unit_discards_the_received_prefix() {
    let complete = MissingUnitType::Complete("ppb");
    assert_eq!(parse_quantity("1024n", &complete).unwrap(), "1024 ppb");
    assert_eq!(parse_quantity("1024Ki", &complete).unwrap(), "1024 ppb");
    assert_eq!(parse_quantity("1024", &complete).unwrap(), "1024 ppb");
}
