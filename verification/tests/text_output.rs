use brotli_cli::numbers::{parse_i32, parse_u16, parse_u32, parse_usize};
use brotli_cli::{compress, writeln0, writeln_time, EncoderSettings, IntErrorKind};

fn chars(s: &str) -> Vec<char> {
    s.chars().collect()
}

#[test]
fn writeln0_appends_a_line() {
    let mut out = String::from("x");
    writeln0(&mut out, "hello");
    assert_eq!(out, "xhello\n");
    writeln0(&mut out, "");
    assert_eq!(out, "xhello\n\n");
}

#[test]
fn writeln_time_pads_the_fraction() {
    let mut out = String::new();
    writeln_time(&mut out, "decompress", 3, 12, 5);
    assert_eq!(out, "3 decompress 12.000000005\n");
    let mut out = String::new();
    writeln_time(&mut out, "run", 0, 0, 123456789);
    assert_eq!(out, "0 run 0.123456789\n");
    let mut out = String::new();
    writeln_time(&mut out, "big", u64::MAX, 1, 4000000000);
    assert_eq!(out, format!("{} big 1.4000000000\n", u64::MAX));
}

#[test]
fn compress_setup_without_log() {
    let settings = EncoderSettings::default();
    let setup = compress(1024, &settings);
    assert_eq!(setup.input_buffer.len(), 1024);
    assert_eq!(setup.output_buffer.len(), 1024);
    assert!(setup.input_buffer.slice().iter().all(|b| *b == 0));
    assert!(setup.log_header.is_none());
}

#[test]
fn compress_setup_with_log_header() {
    let mut settings = EncoderSettings::default();
    settings.log_meta_block = true;
    let setup = compress(16, &settings);
    assert_eq!(setup.log_header.as_deref(), Some("window 22 0 0 0\n"));
    settings.lgwin = -3;
    let setup = compress(0, &settings);
    assert_eq!(setup.log_header.as_deref(), Some("window -3 0 0 0\n"));
    assert_eq!(setup.output_buffer.len(), 0);
}

#[test]
fn parse_numbers_like_std() {
    assert_eq!(parse_i32(&chars("22")), Ok(22));
    assert_eq!(parse_i32(&chars("+7")), Ok(7));
    assert_eq!(parse_i32(&chars("-5")), Ok(-5));
    assert_eq!(parse_i32(&chars("007")), Ok(7));
    assert_eq!(parse_i32(&chars("-2147483648")), Ok(i32::MIN));
    assert_eq!(parse_i32(&chars("2147483647")), Ok(i32::MAX));
    assert_eq!(parse_i32(&chars("2147483648")), Err(IntErrorKind::PosOverflow));
    assert_eq!(parse_i32(&chars("-2147483649")), Err(IntErrorKind::NegOverflow));
    assert_eq!(parse_i32(&chars("")), Err(IntErrorKind::Empty));
    assert_eq!(parse_i32(&chars("+")), Err(IntErrorKind::InvalidDigit));
    assert_eq!(parse_i32(&chars("-")), Err(IntErrorKind::InvalidDigit));
    assert_eq!(parse_i32(&chars("12a")), Err(IntErrorKind::InvalidDigit));
    assert_eq!(parse_i32(&chars("99999999999x")), Err(IntErrorKind::PosOverflow));
    assert_eq!(parse_usize(&chars("-1")), Err(IntErrorKind::InvalidDigit));
    assert_eq!(parse_usize(&chars("65536")), Ok(65536));
    assert_eq!(parse_u16(&chars("65535")), Ok(65535));
    assert_eq!(parse_u16(&chars("65536")), Err(IntErrorKind::PosOverflow));
    assert_eq!(parse_u32(&chars("speed=3")), Err(IntErrorKind::InvalidDigit));
    assert_eq!(parse_u32(&chars("4294967295")), Ok(u32::MAX));
}

#[test]
fn parse_numbers_agrees_with_std_on_samples() {
    for s in ["0", "1", "-0", "+0", "00", "123", "-123", "+", "-", "", "1-2", "2147483647",
        "2147483648", "-2147483648", "-2147483649", "4294967296", " 1", "1 "] {
        let expected = s.parse::<i32>().map_err(|e| format!("{:?}", e.kind()));
        let got = parse_i32(&chars(s)).map_err(|k| format!("{:?}", k));
        assert_eq!(got, expected, "input {:?}", s);
        let expected = s.parse::<u32>().map_err(|e| format!("{:?}", e.kind()));
        let got = parse_u32(&chars(s)).map_err(|k| format!("{:?}", k));
        assert_eq!(got, expected, "input {:?}", s);
    }
}

#[test]
fn printed_numbers_read_back() {
    for v in [0u64, 7, 10, 99, 100, 65535, 4294967295, u64::MAX] {
        let mut out = String::new();
        writeln_time(&mut out, "t", v, 0, 0);
        let first: Vec<char> = out.split(' ').next().unwrap().chars().collect();
        assert_eq!(parse_usize(&first), Ok(v as usize));
    }
    for v in [0i32, 5, -5, i32::MAX, i32::MIN] {
        let mut settings = EncoderSettings::default();
        settings.log_meta_block = true;
        settings.lgwin = v;
        let line = compress(1, &settings).log_header.unwrap();
        let number: Vec<char> = line.split(' ').nth(1).unwrap().chars().collect();
        assert_eq!(parse_i32(&number), Ok(v));
    }
}
