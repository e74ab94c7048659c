use bytes::Bytes;
use cedro::decimal::Decimal;
use cedro::protocol::enums::{
    AssetGroupPhase, AssetStatus, InstrumentStatus, OptionDirection, OptionStyle, Side,
    TradeCondition,
};
use cedro::protocol::frame::{FrameKind, FrameSplitter};
use cedro::protocol::parser::scanner::{parse_i64, parse_u16, parse_u32, parse_u64, Scanner};
use cedro::protocol::parser::sqt::{field_type, FieldType};
use cedro::protocol::parser::ParseError;
use cedro::protocol::types::CedroError;
use cedro::text::{hex, split_list};

const STREAM: &[u8] = b"GTC:20170308145946\nT:PETR4:101758!!\nB:X:E\nV:Y:R\npart";

fn frames_of(chunks: &[&[u8]]) -> (Vec<(FrameKind, Vec<u8>)>, usize) {
    let mut s = FrameSplitter::default();
    let mut out = Vec::new();
    for c in chunks {
        s.extend_from_slice(c);
        out.extend(s.drain().into_iter().map(|(k, f)| (k, f.to_vec())));
    }
    (out, s.pending())
}

#[test]
fn reads_may_be_cut_anywhere() {
    let whole = frames_of(&[STREAM]);
    assert_eq!(whole.0.len(), 6);
    assert_eq!(whole.1, 4);
    for i in 0..=STREAM.len() {
        assert_eq!(frames_of(&[&STREAM[..i], &STREAM[i..]]), whole);
    }
    let bytes: Vec<&[u8]> = STREAM.chunks(1).collect();
    assert_eq!(frames_of(&bytes), whole);
}

#[test]
fn frames_and_terminators_make_up_the_stream() {
    let (frames, pending) = frames_of(&[STREAM]);
    let mut back = Vec::new();
    for (k, f) in frames {
        assert!(!f.contains(&b'!') && !f.contains(&b'\n'));
        back.extend(f);
        back.push(if k == FrameKind::Bang { b'!' } else { b'\n' });
    }
    assert_eq!(back, STREAM[..STREAM.len() - pending]);
}

#[test]
fn a_banner_can_be_skipped() {
    let mut s = FrameSplitter::with_capacity(16);
    s.reserve(100);
    s.extend_from_slice(b"hello!T:X:1!");
    s.advance(6);
    let (k, f) = s.next_frame().unwrap();
    assert_eq!((k, f.as_ref()), (FrameKind::Bang, &b"T:X:1"[..]));
    assert!(s.next_frame().is_none());
}

#[test]
fn fields_make_up_the_frame() {
    for frame in [&b""[..], b":", b"a", b"a:", b":a", b"a::b", b"V:PETR4:A:1:"] {
        let mut s = Scanner::new(Bytes::copy_from_slice(frame));
        let mut fields: Vec<Vec<u8>> = Vec::new();
        while let Some(f) = s.next() {
            assert!(!f.contains(&b':'));
            fields.push(f.to_vec());
        }
        assert_eq!(s.fields_consumed(), fields.len());
        assert_eq!(fields.join(&b':'), frame);
    }
}

#[test]
fn rests_are_taken_once() {
    let mut s = Scanner::new(Bytes::from_static(b"O:A:x:y:z"));
    s.next();
    s.next();
    assert_eq!(s.clone().rest().as_ref(), b"x:y:z");
    assert_eq!(s.take_rest().as_ref(), b"x:y:z");
    assert_eq!(s.take_rest().as_ref(), b"");
    assert!(s.next().is_none());
    assert_eq!(s.fields_consumed(), 2);
    assert_eq!(
        s.required("more").unwrap_err(),
        ParseError::MissingField { position: 3, expected: "more" }
    );
}

#[test]
fn required_fields_are_typed() {
    let mut s = Scanner::new(Bytes::from_static(b"7:8:9.5:4294967296:x"));
    assert_eq!(s.required_u64("a"), Ok(7));
    assert_eq!(s.required_u32("b"), Ok(8));
    assert_eq!(s.required_decimal("c").unwrap().as_str(), "9.5");
    assert_eq!(s.required_u32("d"), Err(ParseError::BadInteger { field: "d" }));
    assert_eq!(s.required_u64("e"), Err(ParseError::BadInteger { field: "e" }));
    assert_eq!(
        s.required_u64("f"),
        Err(ParseError::MissingField { position: 6, expected: "f" })
    );
}

#[test]
fn integers_at_their_limits() {
    let bad = Err(ParseError::BadInteger { field: "n" });
    assert_eq!(parse_u64(b"18446744073709551615", "n"), Ok(u64::MAX));
    assert_eq!(parse_u64(b"18446744073709551616", "n"), Err(ParseError::BadInteger { field: "n" }));
    assert_eq!(parse_u32(b"4294967295", "n"), Ok(u32::MAX));
    assert_eq!(parse_u32(b"4294967296", "n"), Err(ParseError::BadInteger { field: "n" }));
    assert_eq!(parse_u16(b"65535", "n"), Ok(u16::MAX));
    assert_eq!(parse_u16(b"65536", "n"), Err(ParseError::BadInteger { field: "n" }));
    assert_eq!(parse_u16(b"+1", "n"), Err(ParseError::BadInteger { field: "n" }));
    assert_eq!(parse_i64(b"9223372036854775807", "n"), Ok(i64::MAX));
    assert_eq!(parse_i64(b"-9223372036854775807", "n"), Ok(-i64::MAX));
    assert_eq!(parse_i64(b"-9223372036854775808", "n"), bad);
    for b in [&b""[..], b"-", b"+1", b"--1", b"1-", b" 1"] {
        assert_eq!(parse_i64(b, "n"), Err(ParseError::BadInteger { field: "n" }));
    }
    assert_eq!(parse_i64(b"-0", "n"), Ok(0));
    assert_eq!(parse_u64(b"007", "n"), Ok(7));
}

#[test]
fn decimals_are_what_the_standard_library_reads() {
    for s in ["0", "59.95", "-1.5", "+3", ".5", "5.", ".", "", "-", "+", "1e5", "1E5", "1e+5",
        "1e-5", "1e", "1e+", "e5", ".e5", "1.e5", ".1e5", "1.2.3", "1,5", " 1", "1 ", "inf",
        "-Infinity", "NaN", "+nan", "infinit", "in", "0x10", "1_000", "--1", "+-1", "1e5.5",
        "00.10", "1e99999", "９"]
    {
        let ours = Decimal::new(Bytes::copy_from_slice(s.as_bytes()));
        assert_eq!(ours.is_some(), s.parse::<f64>().is_ok(), "{s:?}");
        if let Some(d) = ours {
            assert_eq!(d.as_str(), s);
            assert_eq!(d.clone().as_str(), s);
            assert_eq!(d.clone() == d, !s.parse::<f64>().unwrap().is_nan());
        }
    }
    assert!(Decimal::new(Bytes::from_static(b"1\xff")).is_none());
    assert_eq!(Decimal::zero().as_str(), "0");
}

fn decimal(s: &str) -> Decimal {
    Decimal::new(Bytes::copy_from_slice(s.as_bytes())).unwrap()
}

#[test]
fn decimals_are_equal_as_numbers() {
    let all = ["0", "-0", "0.000", "0e7", "1", "1.0", "1.00", "+01", "10e-1", ".1e1", "-1", "10",
        "1e1", "100", "1e2", "1.5", "15e-1", "59.95", "59.950", "0.05", "5e-2", "inf", "-inf",
        "+Infinity", "nan", "-NaN"];
    for a in all {
        for b in all {
            let expected = a.parse::<f64>().unwrap() == b.parse::<f64>().unwrap();
            assert_eq!(decimal(a) == decimal(b), expected, "{a} {b}");
        }
    }
}

#[test]
fn decimals_are_rounded_to_double_precision() {
    let groups: [&[&str]; 5] = [
        &["0.1", "0.10000000000000000000001", "0.1000000000000000055511151231257827",
            "0.10000000000000002", "0.10000000000000001"],
        &["9007199254740992", "9007199254740993", "9007199254740993.00000000000000000001",
            "9007199254740994", "9007199254740995", "9007199254740996"],
        &["1.7976931348623157e308", "1.7976931348623158e308", "1.7976931348623159e308",
            "1.797693134862315807e308", "1.797693134862315808e308", "1e309", "inf",
            "1e99999999999999999999", "1000e306"],
        &["0", "1e-99999999999999999999", "2e-324", "2.4703282292062327e-324",
            "2.4703282292062328e-324", "3e-324", "5e-324", "-5e-324", "7e-324", "8e-324"],
        &["2.2250738585072014e-308", "2.2250738585072013e-308", "2.2250738585072012e-308",
            "2.2250738585072011e-308", "2.225073858507201e-308"],
    ];
    for group in groups {
        for a in group {
            for b in group {
                let expected = a.parse::<f64>().unwrap() == b.parse::<f64>().unwrap();
                assert_eq!(decimal(a) == decimal(b), expected, "{a} {b}");
            }
        }
    }
    let zeros = format!("0.{}1e1200", "0".repeat(1199));
    assert!(decimal(&zeros) == decimal("1"));
    assert!(decimal(&format!("1{}e-1200", "0".repeat(1200))) == decimal("1"));
}

#[test]
fn codes_of_enumerations() {
    assert_eq!(InstrumentStatus::from_code(-1), InstrumentStatus::Empty);
    assert_eq!(InstrumentStatus::from_code(118), InstrumentStatus::Frozen);
    assert_eq!(InstrumentStatus::from_code(0), InstrumentStatus::Unknown(0));
    assert_eq!(AssetStatus::from_code(4), AssetStatus::Inhibited);
    assert_eq!(AssetStatus::from_code(5), AssetStatus::Unknown(5));
    assert_eq!(OptionStyle::from_byte(b'0'), OptionStyle::NotAnOption);
    assert_eq!(OptionStyle::from_byte(b'E'), OptionStyle::European);
    assert_eq!(OptionStyle::from_byte(b'e'), OptionStyle::Unknown(b'e'));
    assert_eq!(OptionDirection::from_byte(b'P'), OptionDirection::Put);
    assert_eq!(OptionDirection::from_byte(b'c'), OptionDirection::Unknown(b'c'));
    assert_eq!(TradeCondition::from_code(6), TradeCondition::PointInTimeAuction);
    assert_eq!(TradeCondition::from_code(7), TradeCondition::Unknown(7));
    assert_eq!(AssetGroupPhase::from_code(b"NO"), AssetGroupPhase::Closed);
    assert_eq!(AssetGroupPhase::from_code(b"NOX"), AssetGroupPhase::Unknown(*b"NO"));
    assert_eq!(AssetGroupPhase::from_code(b""), AssetGroupPhase::Unknown([0, 0]));
    assert_eq!(Side::from_byte(b'B'), None);
    assert_eq!(Side::Buy.as_str(), "buy");
    assert_eq!(Side::Sell.as_str(), "sell");
}

#[test]
fn types_of_quote_indices() {
    assert_eq!(field_type(0), FieldType::Time);
    assert_eq!(field_type(1), FieldType::Date);
    assert_eq!(field_type(2), FieldType::Float);
    assert_eq!(field_type(9), FieldType::Int);
    assert_eq!(field_type(47), FieldType::Str);
    assert_eq!(field_type(50), FieldType::DateTime);
    assert_eq!(field_type(72), FieldType::Char);
    assert_eq!(field_type(88), FieldType::Phase);
    assert_eq!(field_type(143), FieldType::TimeMs);
    assert_eq!(field_type(999), FieldType::Float);
}

#[test]
fn error_codes_fall_into_one_class() {
    for code in 0..100 {
        let e = CedroError { code, context: Vec::new() };
        let classes = [
            e.is_client_bug(),
            e.is_transient_server(),
            e.is_migration(),
            e.is_forced_disconnect(),
        ];
        let n = classes.iter().filter(|c| **c).count();
        let expected = matches!(code, 1 | 4..=15);
        assert_eq!(n, usize::from(expected), "code {code}");
    }
}

#[test]
fn hexadecimal_text_is_faithful() {
    let all: Vec<u8> = (0..=255).collect();
    let text = hex(&all);
    assert_eq!(text.len(), 512);
    for (i, b) in all.iter().enumerate() {
        assert_eq!(u8::from_str_radix(&text[2 * i..2 * i + 2], 16), Ok(*b));
    }
    assert_eq!(hex(&[]), "");
}

#[test]
fn lists_are_split_at_commas() {
    assert_eq!(split_list(""), Vec::<String>::new());
    assert_eq!(split_list(",,,"), Vec::<String>::new());
    assert_eq!(split_list("a"), ["a"]);
    assert_eq!(split_list("a,b, c d ,\u{e9},"), ["a", "b", "c d", "\u{e9}"]);
}
