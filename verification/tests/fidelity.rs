use gamestate::date::{parse_date, Date, Era};
use gamestate::decoders::{decode_text, parse_bool, parse_id};
use gamestate::number::parse_decimal;
use gamestate::writers::write_date;
use jomini::common::PdsDate;

fn as_float(mantissa: i64, scale: u8) -> f64 {
    mantissa as f64 / 10f64.powi(scale as i32)
}

#[test]
fn dates_agree_with_the_calendar_of_the_tokenizer() {
    for year in [-32768i32, -2500, -58, -1, 0, 1, 9, 10, 867, 1066, 1200, 1444, 9999, 10000, 32767] {
        for month in 0..15 {
            for day in 0..34 {
                let token = format!("{}.{}.{}", year, month, day);
                let ours = parse_date(token.as_bytes(), Era::Negative);
                let theirs = jomini::common::Date::parse(token.as_bytes()).ok();
                assert_eq!(ours.is_some(), theirs.is_some(), "{}", token);
                if let (Some(a), Some(b)) = (ours, theirs) {
                    assert_eq!(
                        (i32::from(a.year), a.month, a.day),
                        (i32::from(b.year()), b.month(), b.day()),
                        "{}",
                        token
                    );
                }
            }
        }
    }
}

#[test]
fn dates_are_written_as_the_tokenizer_writes_them() {
    for (year, month, day) in [(1200i16, 3u8, 1u8), (-58, 1, 1), (1, 12, 31), (9999, 10, 10), (0, 2, 28)] {
        let ours = write_date(&Date { year, month, day }, Era::Negative).unwrap();
        let theirs = jomini::common::Date::from_ymd(year, month, day).game_fmt().to_string();
        assert_eq!(String::from_utf8(ours).unwrap(), theirs);
    }
}

#[test]
fn a_date_of_two_digit_parts_is_read_as_the_tokenizer_reads_it() {
    for token in ["1200.03.01", "0867.01.09", "1444.11.11", "0001.01.01"] {
        let ours = parse_date(token.as_bytes(), Era::Negative).unwrap();
        let theirs = jomini::common::Date::parse(token.as_bytes()).unwrap();
        assert_eq!((ours.year, ours.month, ours.day), (theirs.year(), theirs.month(), theirs.day()));
    }
}

#[test]
fn a_number_alone_is_a_date_to_the_tokenizer_only() {
    assert!(jomini::common::Date::parse(b"43808760").is_ok());
    assert_eq!(parse_date(b"43808760", Era::Negative), None);
    assert_eq!(parse_date(b"43808760", Era::Offset), None);
}

#[test]
fn decimals_spell_the_floats_of_the_tokenizer() {
    for token in [
        "0", "1", "-1", "10000", "-10000", "20405029", "20405029553322", "0.504", "-0.504",
        "1.00125", "-1.50000", "10000.000", "20405029.125", "-20405029.125", "1.000", "-5.67821",
        "+3", "+3.25", "007", "0.000001", "123456789.123456789", "0.1", "0.2", "0.3",
    ] {
        let ours = parse_decimal(token.as_bytes()).unwrap();
        let theirs = jomini::Scalar::new(token.as_bytes()).to_f64().unwrap();
        let float = as_float(ours.mantissa, ours.scale);
        assert!((float - theirs).abs() <= theirs.abs() * 1e-15, "{}: {} {}", token, float, theirs);
    }
}

#[test]
fn what_is_no_number_to_the_tokenizer_is_no_decimal() {
    for token in ["", "a", "1a", "a1", "1.2.3", "1..2", "--1", "yes", "1,5", " 1", "1 ", "1e5", "0x10"] {
        assert!(jomini::Scalar::new(token.as_bytes()).to_f64().is_err(), "{}", token);
        assert_eq!(parse_decimal(token.as_bytes()), None, "{}", token);
    }
}

#[test]
fn truth_values_agree_with_the_tokenizer() {
    for token in ["yes", "no", "", "y", "n", "Yes", "true", "false", "1", "0", "yes ", "noo", "ye"] {
        assert_eq!(parse_bool(token.as_bytes()), jomini::Scalar::new(token.as_bytes()).to_bool().ok());
    }
}

#[test]
fn ids_of_digits_agree_with_the_tokenizer() {
    for token in [
        "0", "1", "7", "007", "10", "16777217", "4294967296", "18446744073709551615",
        "18446744073709551616", "99999999999999999999", "000000000000000000000000001",
    ] {
        assert_eq!(
            parse_id(token.as_bytes()),
            jomini::Scalar::new(token.as_bytes()).to_u64().ok(),
            "{}",
            token
        );
    }
}

#[test]
fn text_is_the_text_of_the_tokenizer() {
    for raw in [
        &b""[..],
        b"tired",
        b"Common Sense",
        b"new\n",
        b"\t",
        b"new \\\"Captain\\\" \n",
        b"J\xc3\xa5hk\xc3\xa5m\xc3\xa5hkke",
        b"Joe\xffcheeze",
        b"a\\\\b",
    ] {
        assert_eq!(decode_text(raw), jomini::Utf8Encoding::decode(raw).into_owned());
    }
}
