use hermes::decimal::Dec;
use hermes::domain::{side_from_code, Side, Timeframe};

#[test]
fn as_api_str_spot_check() {
    assert_eq!(Timeframe::M5.as_api_str(), "TIMEFRAME_M5");
    assert_eq!(Timeframe::H4.as_api_str(), "TIMEFRAME_H4");
    assert_eq!(Timeframe::D1.as_api_str(), "TIMEFRAME_D1");
    assert_eq!(Timeframe::Mn1.as_api_str(), "TIMEFRAME_MN1");
}

#[test]
fn from_str_known_variant() {
    let tf: Timeframe = "M15".parse().unwrap();
    assert_eq!(tf, Timeframe::M15);
}

#[test]
fn from_str_unknown_returns_err() {
    let result = "invalid".parse::<Timeframe>();
    assert!(result.is_err());
}

#[test]
fn unknown_timeframe_message_names_the_text() {
    let result = Timeframe::parse_name("X7");
    assert_eq!(result, Err("unknown timeframe: X7".to_string()));
}

#[test]
fn every_short_name_round_trips_to_its_api_name() {
    let names = [
        "M1", "M2", "M3", "M4", "M5", "M6", "M10", "M12", "M15", "M20", "M30", "H1", "H2", "H3", "H4", "H6", "H8",
        "H12", "D1", "W1", "MN1",
    ];
    for name in names {
        let tf = Timeframe::parse_name(name).unwrap();
        assert_eq!(tf.as_api_str(), format!("TIMEFRAME_{name}"));
    }
}

#[test]
fn timeframe_names_are_case_sensitive() {
    assert!(Timeframe::parse_name("m15").is_err());
    assert!(Timeframe::parse_name("").is_err());
}

#[test]
fn position_type_codes_map_to_sides() {
    assert_eq!(side_from_code(0), Some(Side::Long));
    assert_eq!(side_from_code(1), Some(Side::Short));
    assert_eq!(side_from_code(2), None);
}

fn dec(s: &str) -> Dec {
    let x: rust_decimal::Decimal = s.parse().unwrap();
    Dec::new(x.mantissa(), x.scale()).unwrap()
}

#[test]
fn decimal_order_compares_values() {
    assert!(dec("1.10").num_eq(&dec("1.1")));
    assert!(dec("1.09").lt(&dec("1.1")));
    assert!(dec("-2").lt(&dec("0.001")));
    assert!(dec("1.1").le(&dec("1.10")));
    assert!(!dec("1.2").le(&dec("1.1")));
}

#[test]
fn decimal_min_max_keep_the_first_or_second_on_ties() {
    let a = dec("1.0");
    let b = dec("1.00");
    assert_eq!(a.min(b).scale(), 1);
    assert_eq!(a.max(b).scale(), 2);
    assert!(dec("3").max(dec("2")).num_eq(&dec("3")));
    assert!(dec("3").min(dec("2")).num_eq(&dec("2")));
}

#[test]
fn decimal_abs_and_floor() {
    let a = dec("-3.141").abs();
    assert_eq!((a.mantissa(), a.scale()), (3141, 3));
    let f = dec("3.641").floor();
    assert_eq!((f.mantissa(), f.scale()), (3, 0));
    let g = dec("-3.641").floor();
    assert_eq!((g.mantissa(), g.scale()), (-4, 0));
    let h = dec("-3.000").floor();
    assert_eq!((h.mantissa(), h.scale()), (-3, 0));
}

#[test]
fn decimal_new_refuses_out_of_range_parts() {
    assert!(Dec::new(1, 29).is_none());
    assert!(Dec::new(1i128 << 96, 0).is_none());
    assert!(Dec::new(-((1i128 << 96) - 1), 28).is_some());
}

#[test]
fn distinct_timeframes_have_distinct_api_names() {
    let names = [
        "M1", "M2", "M3", "M4", "M5", "M6", "M10", "M12", "M15", "M20", "M30", "H1", "H2", "H3", "H4", "H6",
        "H8", "H12", "D1", "W1", "MN1",
    ];
    let tfs: Vec<Timeframe> = names.iter().map(|n| n.parse::<Timeframe>().unwrap()).collect();
    for (i, a) in tfs.iter().enumerate() {
        assert_eq!(a.as_api_str(), format!("TIMEFRAME_{}", names[i]));
        for b in tfs.iter().skip(i + 1) {
            assert_ne!(a, b);
            assert_ne!(a.as_api_str(), b.as_api_str());
        }
    }
}
