use brotli_cli::args::{MAX_SPEED, DEFAULT_BUFFER_SIZE};
use brotli_cli::chars::{split_commas_exec, trim_each, trim_matches};
use brotli_cli::{
    apply_argument, parse_arguments, plan_run, ArgAction, ArgError, CommandLine, Endpoint,
    IntErrorKind, ParsedArguments, PlanError, PriorMode,
};

fn chars(s: &str) -> Vec<char> {
    s.chars().collect()
}

fn text(v: &[char]) -> String {
    v.iter().collect()
}

fn parse(args: &[&str]) -> ParsedArguments {
    let args: Vec<Vec<char>> = args.iter().map(|a| chars(a)).collect();
    parse_arguments(&args)
}

#[test]
fn no_arguments_decompress_stdin_to_stdout() {
    let p = parse(&[]);
    assert!(p.stop.is_none());
    let cl = &p.command_line;
    assert_eq!(cl.settings.quality, 11);
    assert_eq!(cl.settings.lgwin, 22);
    assert_eq!(cl.buffer_size, DEFAULT_BUFFER_SIZE);
    assert_eq!(cl.num_benchmarks, 1);
    assert!(!cl.do_compress);
    let plan = plan_run(cl).unwrap();
    assert!(matches!(plan.input, Endpoint::Standard));
    assert!(matches!(plan.output, Endpoint::Standard));
    assert_eq!(plan.runs, 1);
    assert!(!plan.compress);
}

#[test]
fn usage_example_compresses_between_files() {
    let p = parse(&["-c", "-q9.5", "-w22", "in.txt", "out.br"]);
    assert!(p.stop.is_none());
    let cl = &p.command_line;
    assert!(cl.do_compress);
    assert_eq!(cl.settings.quality, 10);
    assert!(cl.settings.q9_5);
    assert_eq!(cl.settings.lgwin, 22);
    assert_eq!(text(&cl.input_name), "in.txt");
    assert_eq!(text(&cl.output_name), "out.br");
    let plan = plan_run(cl).unwrap();
    match (&plan.input, &plan.output) {
        (Endpoint::File(i), Endpoint::File(o)) => {
            assert_eq!(text(i), "in.txt");
            assert_eq!(text(o), "out.br");
        }
        _ => panic!("expected two files"),
    }
    assert!(plan.compress);
}

#[test]
fn quality_options() {
    for (arg, q, nine) in [("-0", 0, false), ("-q1", 1, false), ("-9", 9, false),
        ("-q9.5x", 11, true), ("-q9.5y", 12, true), ("-10", 10, false), ("-q11", 11, false)] {
        let p = parse(&[arg]);
        assert_eq!(p.command_line.settings.quality, q, "{}", arg);
        assert_eq!(p.command_line.settings.q9_5, nine, "{}", arg);
    }
    // a later quality option overrides the quality but keeps the 9.5 flag
    let p = parse(&["-q9.5", "-q3"]);
    assert_eq!(p.command_line.settings.quality, 3);
    assert!(p.command_line.settings.q9_5);
}

#[test]
fn flag_options() {
    let p = parse(&["-catable", "-magicword", "-utf8", "-i", "-findprior", "-basicstride"]);
    let s = &p.command_line.settings;
    assert!(s.catable && s.appendable && s.magic_number && s.log_meta_block);
    assert!(s.prior_bitmask_detection);
    assert_eq!(s.mode, Some(PriorMode::ForceUtf8));
    assert_eq!(s.stride_detection_quality, Some(1));
    let p = parse(&["--appendable", "-lsb", "-advstride", "-findspeed"]);
    let s = &p.command_line.settings;
    assert!(!s.catable && s.appendable);
    assert_eq!(s.mode, Some(PriorMode::ForceLsb));
    assert_eq!(s.stride_detection_quality, Some(3));
    assert_eq!(s.cdf_adaptation_detection, Some(1));
    let p = parse(&["-msb", "-stride"]);
    assert_eq!(p.command_line.settings.mode, Some(PriorMode::ForceMsb));
    assert_eq!(p.command_line.settings.stride_detection_quality, Some(2));
    let p = parse(&["-signed"]);
    assert_eq!(p.command_line.settings.mode, Some(PriorMode::ForceSigned));
}

#[test]
fn numeric_options() {
    let p = parse(&["-l16", "-w-3", "-bs=4096", "-s1000", "-bytescore=540", "-b3"]);
    assert!(p.stop.is_none());
    let cl = &p.command_line;
    assert_eq!(cl.settings.lgblock, Some(16));
    assert_eq!(cl.settings.lgwin, -3);
    assert_eq!(cl.buffer_size, 4096);
    assert_eq!(cl.settings.size_hint, Some(1000));
    assert_eq!(cl.settings.literal_byte_score, Some(540));
    assert_eq!(cl.num_benchmarks, 3);
}

#[test]
fn bad_numbers_stop_the_reading() {
    let p = parse(&["-w", "file"]);
    assert!(matches!(p.stop, Some(Err(ArgError::InvalidNumber(IntErrorKind::Empty)))));
    assert!(p.command_line.input_name.is_empty());
    let p = parse(&["-lx"]);
    assert!(matches!(p.stop, Some(Err(ArgError::InvalidNumber(IntErrorKind::InvalidDigit)))));
    // the size hint of "-speed" is read from "peed"
    let p = parse(&["-speed"]);
    assert!(matches!(p.stop, Some(Err(ArgError::InvalidNumber(IntErrorKind::InvalidDigit)))));
    // "-findspeed=" is trimmed of "-findrandom=", which leaves "speed=..."
    let p = parse(&["-findspeed=3"]);
    assert!(matches!(p.stop, Some(Err(ArgError::InvalidNumber(IntErrorKind::InvalidDigit)))));
    let p = parse(&["-b99999999999999999999999"]);
    assert!(matches!(p.stop, Some(Err(ArgError::InvalidNumber(IntErrorKind::PosOverflow)))));
}

#[test]
fn speed_lists() {
    let p = parse(&["-speed=10,20"]);
    assert!(p.stop.is_none());
    assert_eq!(p.command_line.settings.literal_adaptation,
        [Some(10), Some(20), Some(10), Some(20), Some(10), Some(20), Some(10), Some(20)]);
    let p = parse(&["-speed=1,2,3,4,5,6,7,8"]);
    assert_eq!(p.command_line.settings.literal_adaptation,
        [Some(1), Some(2), Some(3), Some(4), Some(5), Some(6), Some(7), Some(8)]);
    let p = parse(&["-speed=1,20000,3"]);
    assert!(p.stop.is_none());
    assert_eq!(p.warnings, vec![20000u16]);
    assert!(20000 > MAX_SPEED);
    let p = parse(&["-speed=1,2,3,4,5,6,7,8,17000"]);
    assert!(matches!(p.stop, Some(Err(ArgError::SpeedSlotOutOfRange(8)))));
    assert_eq!(p.warnings, vec![17000u16]);
    let p = parse(&["-speed=1,,3"]);
    assert!(matches!(p.stop, Some(Err(ArgError::InvalidNumber(IntErrorKind::Empty)))));
    let p = parse(&["-speed="]);
    assert!(matches!(p.stop, Some(Err(ArgError::InvalidNumber(IntErrorKind::Empty)))));
}

#[test]
fn double_dash_ends_the_options() {
    let p = parse(&["--", "-c", "-q1"]);
    assert!(p.stop.is_none());
    let cl = &p.command_line;
    assert!(!cl.do_compress);
    assert_eq!(cl.settings.quality, 11);
    assert_eq!(text(&cl.input_name), "-c");
    assert_eq!(text(&cl.output_name), "-q1");
    let p = parse(&["--", "-h"]);
    assert!(matches!(p.stop, Some(Ok(ArgAction::ShowHelp))));
    let p = parse(&["--", "--help"]);
    assert!(p.stop.is_none());
    assert_eq!(text(&p.command_line.input_name), "--help");
}

#[test]
fn help_and_dump_stop_the_reading() {
    let p = parse(&["-c", "--help", "-q1"]);
    assert!(matches!(p.stop, Some(Ok(ArgAction::ShowHelp))));
    assert_eq!(p.command_line.settings.quality, 11);
    let p = parse(&["-help"]);
    assert!(matches!(p.stop, Some(Ok(ArgAction::ShowHelp))));
    let p = parse(&["--dump-dictionary", "x"]);
    assert!(matches!(p.stop, Some(Ok(ArgAction::DumpDictionary))));
    assert!(p.command_line.input_name.is_empty());
}

#[test]
fn file_names_and_unknown_arguments() {
    let p = parse(&["a", "b", "c"]);
    assert!(matches!(p.stop, Some(Err(ArgError::UnknownArgument))));
    // the distance-prefix option does not end its own reading
    let p = parse(&["-avoiddistanceprefixsearch"]);
    assert!(p.command_line.settings.avoid_distance_prefix_search);
    assert_eq!(text(&p.command_line.input_name), "-avoiddistanceprefixsearch");
    // an empty argument leaves the first name empty
    let p = parse(&["", "x"]);
    assert_eq!(text(&p.command_line.input_name), "x");
    assert!(p.command_line.output_name.is_empty());
}

#[test]
fn custom_dictionaries_are_listed_in_order() {
    let p = parse(&["-customdictionary=one", "-c", "-customdictionary=two"]);
    assert!(p.stop.is_none());
    let names: Vec<String> = p.dictionaries.iter().map(|d| text(d)).collect();
    assert_eq!(names, vec!["one".to_string(), "two".to_string()]);
    assert!(p.command_line.do_compress);
}

#[test]
fn apply_argument_reports_each_step() {
    let mut cl = CommandLine::new();
    let mut warnings = Vec::new();
    let r = apply_argument(&mut cl, &chars("-customdictionary=a=b"), &mut warnings);
    match r {
        Ok(ArgAction::LoadDictionary(name)) => assert_eq!(text(&name), "a=b"),
        _ => panic!("expected a dictionary"),
    }
    let r = apply_argument(&mut cl, &chars("-q5"), &mut warnings);
    assert!(matches!(r, Ok(ArgAction::Continue)));
    assert_eq!(cl.settings.quality, 5);
    let r = apply_argument(&mut cl, &chars("-bs=x"), &mut warnings);
    assert!(matches!(r, Err(ArgError::InvalidNumber(IntErrorKind::InvalidDigit))));
    assert_eq!(cl.buffer_size, DEFAULT_BUFFER_SIZE);
    assert!(warnings.is_empty());
}

#[test]
fn plans() {
    let p = parse(&["-b3", "in"]);
    assert_eq!(plan_run(&p.command_line).err(), Some(PlanError::RunsNeedOutputFile));
    let p = parse(&["-b3"]);
    assert_eq!(plan_run(&p.command_line).err(), Some(PlanError::RunsNeedOutputFile));
    let p = parse(&["-b0", "in", "out"]);
    let plan = plan_run(&p.command_line).unwrap();
    assert_eq!(plan.runs, 0);
    let p = parse(&["in"]);
    let plan = plan_run(&p.command_line).unwrap();
    assert!(matches!(plan.input, Endpoint::File(_)));
    assert!(matches!(plan.output, Endpoint::Standard));
}

#[test]
fn trimming_and_splitting() {
    assert_eq!(text(&trim_matches(&chars("--x--"), '-')), "x");
    assert_eq!(text(&trim_matches(&chars("----"), '-')), "");
    assert_eq!(text(&trim_each(&chars("-bytescore=540"), "-bytescore=")), "540");
    assert_eq!(text(&trim_each(&chars("-speed=1,2e"), "-speed=")), "1,2");
    assert_eq!(text(&trim_each(&chars("-findspeed=7"), "-findrandom=")), "speed=7");
    let pieces: Vec<String> = split_commas_exec(&chars("1,,2")).iter().map(|p| text(p)).collect();
    assert_eq!(pieces, vec!["1", "", "2"]);
    let pieces = split_commas_exec(&chars(""));
    assert_eq!(pieces.len(), 1);
    assert!(pieces[0].is_empty());
}
