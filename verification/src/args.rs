use vstd::prelude::*;

use crate::chars::{
    copy_range, eq_lit, split_commas, split_commas_exec, starts_with_lit, trim_each,
    trimmed_each,
};
use crate::text::decimal;
use crate::numbers::{
    parse_i32, parse_u16, parse_u32, parse_usize, spec_parse_i32, spec_parse_u16, spec_parse_u32,
    spec_parse_usize, IntErrorKind,
};

verus! {

/// The quality the tool compresses with unless told otherwise.
pub const DEFAULT_QUALITY: i32 = 11;

/// The encoder's default window size, as a base-2 logarithm.
pub const DEFAULT_WINDOW: i32 = 22;

/// The size of the tool's input and output buffers unless told otherwise.
pub const DEFAULT_BUFFER_SIZE: usize = 65536;

/// The largest adaptation speed that is accepted without a warning.
pub const MAX_SPEED: u16 = 16384;

/// The prior that the encoder is told to assume when it models literals.
#[derive(PartialEq, Eq, Structural, Debug, Clone, Copy)]
pub enum PriorMode {
    ForceUtf8,
    ForceMsb,
    ForceLsb,
    ForceSigned,
}

/// The encoder parameters that the command line sets. A field that is
/// `None` leaves that parameter at the encoder's own default.
#[derive(Debug, Clone, Copy)]
pub struct EncoderSettings {
    pub quality: i32,
    pub q9_5: bool,
    pub lgwin: i32,
    pub lgblock: Option<i32>,
    pub mode: Option<PriorMode>,
    pub catable: bool,
    pub appendable: bool,
    pub magic_number: bool,
    pub log_meta_block: bool,
    pub literal_byte_score: Option<i32>,
    pub size_hint: Option<usize>,
    pub prior_bitmask_detection: bool,
    pub cdf_adaptation_detection: Option<u8>,
    pub stride_detection_quality: Option<u8>,
    /// The literal adaptation speeds: slot `2 * k` is the first and slot
    /// `2 * k + 1` the second member of the encoder's `k`-th pair.
    pub literal_adaptation: [Option<u16>; 8],
    pub avoid_distance_prefix_search: bool,
}

impl EncoderSettings {
    /// The settings before any argument is read.
    pub open spec fn spec_default() -> EncoderSettings {
        EncoderSettings {
            quality: DEFAULT_QUALITY,
            q9_5: false,
            lgwin: DEFAULT_WINDOW,
            lgblock: None,
            mode: None,
            catable: false,
            appendable: false,
            magic_number: false,
            log_meta_block: false,
            literal_byte_score: None,
            size_hint: None,
            prior_bitmask_detection: false,
            cdf_adaptation_detection: None,
            stride_detection_quality: None,
            literal_adaptation: vstd::array::spec_array_fill_for_copy_type::<Option<u16>, 8>(None),
            avoid_distance_prefix_search: false,
        }
    }
}

impl Default for EncoderSettings {
    fn default() -> (s: Self)
        ensures
            s == EncoderSettings::spec_default(),
    {
        let s = EncoderSettings {
            quality: DEFAULT_QUALITY,
            q9_5: false,
            lgwin: DEFAULT_WINDOW,
            lgblock: None,
            mode: None,
            catable: false,
            appendable: false,
            magic_number: false,
            log_meta_block: false,
            literal_byte_score: None,
            size_hint: None,
            prior_bitmask_detection: false,
            cdf_adaptation_detection: None,
            stride_detection_quality: None,
            literal_adaptation: vstd::array::array_fill_for_copy_types::<Option<u16>, 8>(None),
            avoid_distance_prefix_search: false,
        };
        assert(s.literal_adaptation =~= EncoderSettings::spec_default().literal_adaptation);
        s
    }
}

/// What the command line has said so far.
pub struct CommandLine {
    pub settings: EncoderSettings,
    pub buffer_size: usize,
    pub num_benchmarks: usize,
    pub do_compress: bool,
    /// A `--` has been seen: later arguments are not options.
    pub double_dash: bool,
    /// The first file name; empty when none was given.
    pub input_name: Vec<char>,
    /// The second file name; empty when none was given.
    pub output_name: Vec<char>,
}

/// The model of a `CommandLine`.
#[verifier::ext_equal]
pub struct CommandLineView {
    pub settings: EncoderSettings,
    pub buffer_size: usize,
    pub num_benchmarks: usize,
    pub do_compress: bool,
    pub double_dash: bool,
    pub input_name: Seq<char>,
    pub output_name: Seq<char>,
}

impl View for CommandLine {
    type V = CommandLineView;

    open spec fn view(&self) -> CommandLineView {
        CommandLineView {
            settings: self.settings,
            buffer_size: self.buffer_size,
            num_benchmarks: self.num_benchmarks,
            do_compress: self.do_compress,
            double_dash: self.double_dash,
            input_name: self.input_name@,
            output_name: self.output_name@,
        }
    }
}

impl CommandLineView {
    /// The command line before any argument is read.
    pub open spec fn initial() -> CommandLineView {
        CommandLineView {
            settings: EncoderSettings::spec_default(),
            buffer_size: DEFAULT_BUFFER_SIZE,
            num_benchmarks: 1,
            do_compress: false,
            double_dash: false,
            input_name: Seq::empty(),
            output_name: Seq::empty(),
        }
    }
}

impl CommandLine {
    /// The command line before any argument is read.
    pub fn new() -> (cl: CommandLine)
        ensures
            cl@ == CommandLineView::initial(),
    {
        CommandLine {
            settings: EncoderSettings::default(),
            buffer_size: DEFAULT_BUFFER_SIZE,
            num_benchmarks: 1,
            do_compress: false,
            double_dash: false,
            input_name: Vec::new(),
            output_name: Vec::new(),
        }
    }
}

/// What the tool has to do after reading one argument.
pub enum ArgAction {
    /// Go on with the next argument.
    Continue,
    /// Read the named file as the custom dictionary, then go on.
    LoadDictionary(Vec<char>),
    /// Print the dictionary and stop.
    DumpDictionary,
    /// Print the usage text and stop.
    ShowHelp,
}

/// The model of an `ArgAction`.
pub enum ActionView {
    Continue,
    LoadDictionary(Seq<char>),
    DumpDictionary,
    ShowHelp,
}

impl View for ArgAction {
    type V = ActionView;

    open spec fn view(&self) -> ActionView {
        match self {
            ArgAction::Continue => ActionView::Continue,
            ArgAction::LoadDictionary(name) => ActionView::LoadDictionary(name@),
            ArgAction::DumpDictionary => ActionView::DumpDictionary,
            ArgAction::ShowHelp => ActionView::ShowHelp,
        }
    }
}

/// Why an argument stops the tool.
#[derive(PartialEq, Eq, Structural, Debug, Clone, Copy)]
pub enum ArgError {
    /// The number in the argument could not be read.
    InvalidNumber(IntErrorKind),
    /// A `-speed=` list has a value at this position, past the last slot.
    SpeedSlotOutOfRange(usize),
    /// Both file names are taken and the argument is no option.
    UnknownArgument,
}

/// The effect of one argument: the new command line, the speeds to warn
/// about (in order), and what to do next.
pub struct ArgStep {
    pub after: CommandLineView,
    pub warnings: Seq<u16>,
    pub outcome: Result<ActionView, ArgError>,
}

pub open spec fn proceed(m: CommandLineView) -> ArgStep {
    ArgStep { after: m, warnings: Seq::empty(), outcome: Ok(ActionView::Continue) }
}

pub open spec fn refuse(m: CommandLineView, e: ArgError) -> ArgStep {
    ArgStep { after: m, warnings: Seq::empty(), outcome: Err(e) }
}

pub open spec fn stop_with(m: CommandLineView, a: ActionView) -> ArgStep {
    ArgStep { after: m, warnings: Seq::empty(), outcome: Ok(a) }
}

pub open spec fn with_settings(m: CommandLineView, s: EncoderSettings) -> CommandLineView {
    CommandLineView { settings: s, ..m }
}

/// The quality that a quality option selects, and whether it selects the
/// 9.5 variants.
pub open spec fn quality_flag(arg: Seq<char>) -> Option<(i32, bool)> {
    if arg == "-0"@ || arg == "-q0"@ {
        Some((0, false))
    } else if arg == "-1"@ || arg == "-q1"@ {
        Some((1, false))
    } else if arg == "-2"@ || arg == "-q2"@ {
        Some((2, false))
    } else if arg == "-3"@ || arg == "-q3"@ {
        Some((3, false))
    } else if arg == "-4"@ || arg == "-q4"@ {
        Some((4, false))
    } else if arg == "-5"@ || arg == "-q5"@ {
        Some((5, false))
    } else if arg == "-6"@ || arg == "-q6"@ {
        Some((6, false))
    } else if arg == "-7"@ || arg == "-q7"@ {
        Some((7, false))
    } else if arg == "-8"@ || arg == "-q8"@ {
        Some((8, false))
    } else if arg == "-9"@ || arg == "-q9"@ {
        Some((9, false))
    } else if arg == "-9.5"@ || arg == "-q9.5"@ {
        Some((10, true))
    } else if arg == "-9.5x"@ || arg == "-q9.5x"@ {
        Some((11, true))
    } else if arg == "-10"@ || arg == "-q10"@ {
        Some((10, false))
    } else if arg == "-11"@ || arg == "-q11"@ {
        Some((11, false))
    } else if arg == "-q9.5y"@ {
        Some((12, true))
    } else {
        None
    }
}

/// The speed slots after the value `v` at position `index` of a `-speed=`
/// list: position 0 sets every first member, position 1 every second
/// member, and a later position its own slot; `None` when there is no
/// such slot.
pub open spec fn set_speed(slots: [Option<u16>; 8], index: nat, v: u16) -> Option<[Option<u16>; 8]> {
    let s = Some(v);
    if index == 0 {
        Some(
            vstd::array::spec_array_update(
                vstd::array::spec_array_update(
                    vstd::array::spec_array_update(vstd::array::spec_array_update(slots, 0, s), 2, s),
                    4,
                    s,
                ),
                6,
                s,
            ),
        )
    } else if index == 1 {
        Some(
            vstd::array::spec_array_update(
                vstd::array::spec_array_update(
                    vstd::array::spec_array_update(vstd::array::spec_array_update(slots, 1, s), 3, s),
                    5,
                    s,
                ),
                7,
                s,
            ),
        )
    } else if index < 8 {
        Some(vstd::array::spec_array_update(slots, index as int, s))
    } else {
        None
    }
}

/// The state of reading a `-speed=` list.
pub struct SpeedScan {
    pub slots: [Option<u16>; 8],
    pub warnings: Seq<u16>,
    pub error: Option<ArgError>,
}

/// The first `n` values of a `-speed=` list applied to `slots`, stopping at
/// the first one that fails; each value above `MAX_SPEED` is warned about.
pub open spec fn speed_scan(pieces: Seq<Seq<char>>, n: nat, slots: [Option<u16>; 8]) -> SpeedScan
    decreases n,
{
    if n == 0 {
        SpeedScan { slots: slots, warnings: Seq::empty(), error: None }
    } else {
        let prev = speed_scan(pieces, (n - 1) as nat, slots);
        if prev.error is Some {
            prev
        } else {
            match spec_parse_u16(pieces[n - 1]) {
                Err(k) => SpeedScan { error: Some(ArgError::InvalidNumber(k)), ..prev },
                Ok(v) => {
                    let warnings = if v > MAX_SPEED {
                        prev.warnings.push(v)
                    } else {
                        prev.warnings
                    };
                    match set_speed(prev.slots, (n - 1) as nat, v) {
                        Some(next) => SpeedScan { slots: next, warnings: warnings, error: None },
                        None => SpeedScan {
                            slots: prev.slots,
                            warnings: warnings,
                            error: Some(ArgError::SpeedSlotOutOfRange((n - 1) as usize)),
                        },
                    }
                },
            }
        }
    }
}

/// The effect of a `-speed=` argument.
pub open spec fn speed_step(m: CommandLineView, arg: Seq<char>) -> ArgStep {
    let pieces = split_commas(trimmed_each(arg, "-speed="@));
    let scan = speed_scan(pieces, pieces.len(), m.settings.literal_adaptation);
    match scan.error {
        None => ArgStep {
            after: with_settings(m, EncoderSettings { literal_adaptation: scan.slots, ..m.settings }),
            warnings: scan.warnings,
            outcome: Ok(ActionView::Continue),
        },
        Some(e) => ArgStep { after: m, warnings: scan.warnings, outcome: Err(e) },
    }
}

/// An argument that is no option: the usage request, or a file name.
pub open spec fn positional_step(m: CommandLineView, arg: Seq<char>) -> ArgStep {
    if arg == "-h"@ || arg == "-help"@ || (arg == "--help"@ && !m.double_dash) {
        stop_with(m, ActionView::ShowHelp)
    } else if m.input_name.len() == 0 {
        proceed(CommandLineView { input_name: arg, ..m })
    } else if m.output_name.len() == 0 {
        proceed(CommandLineView { output_name: arg, ..m })
    } else {
        refuse(m, ArgError::UnknownArgument)
    }
}

/// The options that the tool looks at last.
pub open spec fn tail_step(m: CommandLineView, arg: Seq<char>) -> ArgStep {
    let m2 = if arg == "-avoiddistanceprefixsearch"@ {
        with_settings(m, EncoderSettings { avoid_distance_prefix_search: true, ..m.settings })
    } else {
        m
    };
    if "-b"@.is_prefix_of(arg) {
        match spec_parse_usize(trimmed_each(arg, "-b"@)) {
            Ok(v) => proceed(CommandLineView { num_benchmarks: v, ..m2 }),
            Err(k) => refuse(m2, ArgError::InvalidNumber(k)),
        }
    } else if arg == "-c"@ {
        proceed(CommandLineView { do_compress: true, ..m2 })
    } else {
        positional_step(m2, arg)
    }
}

/// The options that set a number.
pub open spec fn numeric_step(m: CommandLineView, arg: Seq<char>) -> ArgStep {
    let s = m.settings;
    if "-l"@.is_prefix_of(arg) {
        match spec_parse_i32(trimmed_each(arg, "-l"@)) {
            Ok(v) => proceed(with_settings(m, EncoderSettings { lgblock: Some(v), ..s })),
            Err(k) => refuse(m, ArgError::InvalidNumber(k)),
        }
    } else if "-bytescore="@.is_prefix_of(arg) {
        match spec_parse_i32(trimmed_each(arg, "-bytescore="@)) {
            Ok(v) => proceed(with_settings(m, EncoderSettings { literal_byte_score: Some(v), ..s })),
            Err(k) => refuse(m, ArgError::InvalidNumber(k)),
        }
    } else if "-w"@.is_prefix_of(arg) {
        match spec_parse_i32(trimmed_each(arg, "-w"@)) {
            Ok(v) => proceed(with_settings(m, EncoderSettings { lgwin: v, ..s })),
            Err(k) => refuse(m, ArgError::InvalidNumber(k)),
        }
    } else if "-bs"@.is_prefix_of(arg) {
        match spec_parse_usize(trimmed_each(arg, "-bs="@)) {
            Ok(v) => proceed(CommandLineView { buffer_size: v, ..m }),
            Err(k) => refuse(m, ArgError::InvalidNumber(k)),
        }
    } else {
        analysis_step(m, arg)
    }
}

/// The options that steer the encoder's analysis of its input.
pub open spec fn analysis_step(m: CommandLineView, arg: Seq<char>) -> ArgStep {
    let s = m.settings;
    if "-findprior"@.is_prefix_of(arg) {
        proceed(with_settings(m, EncoderSettings { prior_bitmask_detection: true, ..s }))
    } else if "-findspeed="@.is_prefix_of(arg) {
        match spec_parse_u32(trimmed_each(arg, "-findrandom="@)) {
            Ok(v) => proceed(
                with_settings(
                    m,
                    EncoderSettings { cdf_adaptation_detection: Some((v % 256) as u8), ..s },
                ),
            ),
            Err(k) => refuse(m, ArgError::InvalidNumber(k)),
        }
    } else if arg == "-findspeed"@ {
        proceed(with_settings(m, EncoderSettings { cdf_adaptation_detection: Some(1), ..s }))
    } else {
        stride_step(m, arg)
    }
}

/// The stride options and the size hint.
pub open spec fn stride_step(m: CommandLineView, arg: Seq<char>) -> ArgStep {
    let s = m.settings;
    if arg == "-basicstride"@ {
        proceed(with_settings(m, EncoderSettings { stride_detection_quality: Some(1), ..s }))
    } else if arg == "-advstride"@ {
        proceed(with_settings(m, EncoderSettings { stride_detection_quality: Some(3), ..s }))
    } else if arg == "-stride"@ {
        proceed(with_settings(m, EncoderSettings { stride_detection_quality: Some(2), ..s }))
    } else if "-s"@.is_prefix_of(arg) && !"-speed="@.is_prefix_of(arg) {
        match spec_parse_usize(trimmed_each(arg, "-s"@)) {
            Ok(v) => proceed(with_settings(m, EncoderSettings { size_hint: Some(v), ..s })),
            Err(k) => refuse(m, ArgError::InvalidNumber(k)),
        }
    } else {
        speed_or_tail_step(m, arg)
    }
}

/// A `-speed=` list, or one of the options that the tool looks at last.
pub open spec fn speed_or_tail_step(m: CommandLineView, arg: Seq<char>) -> ArgStep {
    if "-speed="@.is_prefix_of(arg) {
        speed_step(m, arg)
    } else {
        tail_step(m, arg)
    }
}

/// The options that set a flag, the prior or the quality.
pub open spec fn flag_step(m: CommandLineView, arg: Seq<char>) -> ArgStep {
    let s = m.settings;
    if arg == "-catable"@ || arg == "--catable"@ {
        proceed(with_settings(m, EncoderSettings { catable: true, appendable: true, ..s }))
    } else if arg == "-appendable"@ || arg == "--appendable"@ {
        proceed(with_settings(m, EncoderSettings { appendable: true, ..s }))
    } else if "-magic"@.is_prefix_of(arg) || "--magic"@.is_prefix_of(arg) {
        proceed(with_settings(m, EncoderSettings { magic_number: true, ..s }))
    } else if "-customdictionary="@.is_prefix_of(arg) {
        stop_with(
            m,
            ActionView::LoadDictionary(arg.skip("-customdictionary="@.len() as int)),
        )
    } else if arg == "--dump-dictionary"@ {
        stop_with(m, ActionView::DumpDictionary)
    } else if arg == "-utf8"@ {
        proceed(with_settings(m, EncoderSettings { mode: Some(PriorMode::ForceUtf8), ..s }))
    } else if arg == "-msb"@ {
        proceed(with_settings(m, EncoderSettings { mode: Some(PriorMode::ForceMsb), ..s }))
    } else if arg == "-lsb"@ {
        proceed(with_settings(m, EncoderSettings { mode: Some(PriorMode::ForceLsb), ..s }))
    } else if arg == "-signed"@ {
        proceed(with_settings(m, EncoderSettings { mode: Some(PriorMode::ForceSigned), ..s }))
    } else if arg == "-i"@ {
        proceed(with_settings(m, EncoderSettings { log_meta_block: true, ..s }))
    } else if quality_flag(arg) is Some {
        let (q, nine_and_a_half) = quality_flag(arg).unwrap();
        proceed(with_settings(m, EncoderSettings { quality: q, q9_5: s.q9_5 || nine_and_a_half, ..s }))
    } else {
        numeric_step(m, arg)
    }
}

/// The effect of reading the argument `arg` when the command line so far
/// is `m`.
#[verifier::opaque]
pub open spec fn arg_step(m: CommandLineView, arg: Seq<char>) -> ArgStep {
    if arg == "--"@ {
        proceed(CommandLineView { double_dash: true, ..m })
    } else if m.double_dash {
        positional_step(m, arg)
    } else {
        flag_step(m, arg)
    }
}

/// The model of what an argument's handler returned.
pub open spec fn outcome_view(r: Result<ArgAction, ArgError>) -> Result<ActionView, ArgError> {
    match r {
        Ok(a) => Ok(a@),
        Err(e) => Err(e),
    }
}

/// A handler that took the command line from `before` to `after`, turned
/// the warnings from `warned_before` into `warned_after` and returned `r`
/// did what `step` says.
pub open spec fn follows(
    after: CommandLineView,
    warned_before: Seq<u16>,
    warned_after: Seq<u16>,
    r: Result<ArgAction, ArgError>,
    step: ArgStep,
) -> bool {
    &&& after == step.after
    &&& warned_after == warned_before + step.warnings
    &&& outcome_view(r) == step.outcome
}

/// The quality that a quality option selects.
fn quality_flag_exec(arg: &[char]) -> (r: Option<(i32, bool)>)
    ensures
        r == quality_flag(arg@),
{
    if eq_lit(arg, "-0") || eq_lit(arg, "-q0") {
        Some((0, false))
    } else if eq_lit(arg, "-1") || eq_lit(arg, "-q1") {
        Some((1, false))
    } else if eq_lit(arg, "-2") || eq_lit(arg, "-q2") {
        Some((2, false))
    } else if eq_lit(arg, "-3") || eq_lit(arg, "-q3") {
        Some((3, false))
    } else if eq_lit(arg, "-4") || eq_lit(arg, "-q4") {
        Some((4, false))
    } else if eq_lit(arg, "-5") || eq_lit(arg, "-q5") {
        Some((5, false))
    } else if eq_lit(arg, "-6") || eq_lit(arg, "-q6") {
        Some((6, false))
    } else if eq_lit(arg, "-7") || eq_lit(arg, "-q7") {
        Some((7, false))
    } else if eq_lit(arg, "-8") || eq_lit(arg, "-q8") {
        Some((8, false))
    } else if eq_lit(arg, "-9") || eq_lit(arg, "-q9") {
        Some((9, false))
    } else if eq_lit(arg, "-9.5") || eq_lit(arg, "-q9.5") {
        Some((10, true))
    } else if eq_lit(arg, "-9.5x") || eq_lit(arg, "-q9.5x") {
        Some((11, true))
    } else if eq_lit(arg, "-10") || eq_lit(arg, "-q10") {
        Some((10, false))
    } else if eq_lit(arg, "-11") || eq_lit(arg, "-q11") {
        Some((11, false))
    } else if eq_lit(arg, "-q9.5y") {
        Some((12, true))
    } else {
        None
    }
}

proof fn lemma_speed_scan_error_persists(
    pieces: Seq<Seq<char>>,
    k: nat,
    n: nat,
    slots: [Option<u16>; 8],
)
    requires
        k <= n,
        speed_scan(pieces, k, slots).error is Some,
    ensures
        speed_scan(pieces, n, slots) == speed_scan(pieces, k, slots),
    decreases n - k,
{
    if k < n {
        lemma_speed_scan_error_persists(pieces, k, (n - 1) as nat, slots);
    }
}

/// Applies the list of a `-speed=` argument to `slots`.
fn apply_speed(slots: [Option<u16>; 8], arg: &[char], warnings: &mut Vec<u16>) -> (r: Result<
    [Option<u16>; 8],
    ArgError,
>)
    ensures
        ({
            let pieces = split_commas(trimmed_each(arg@, "-speed="@));
            let scan = speed_scan(pieces, pieces.len(), slots);
            &&& final(warnings)@ == old(warnings)@ + scan.warnings
            &&& match r {
                Ok(a) => scan.error is None && a == scan.slots,
                Err(e) => scan.error == Some(e),
            }
        }),
{
    let list = trim_each(arg, "-speed=");
    let pieces = split_commas_exec(list.as_slice());
    let ghost segs = split_commas(trimmed_each(arg@, "-speed="@));
    let mut cur = slots;
    let mut i: usize = 0;
    while i < pieces.len()
        invariant
            i <= pieces@.len(),
            segs == split_commas(trimmed_each(arg@, "-speed="@)),
            pieces@.len() == segs.len(),
            forall|k: int| 0 <= k < pieces@.len() ==> #[trigger] pieces@[k]@ == segs[k],
            speed_scan(segs, i as nat, slots).error is None,
            speed_scan(segs, i as nat, slots).slots == cur,
            warnings@ == old(warnings)@ + speed_scan(segs, i as nat, slots).warnings,
        decreases pieces@.len() - i,
    {
        let ghost prev = speed_scan(segs, i as nat, slots);
        assert(pieces@[i as int]@ == segs[i as int]);
        match parse_u16(pieces[i].as_slice()) {
            Err(k) => {
                proof {
                    let next = speed_scan(segs, (i + 1) as nat, slots);
                    assert(next.error == Some(ArgError::InvalidNumber(k)));
                    assert(next.warnings == prev.warnings);
                    lemma_speed_scan_error_persists(segs, (i + 1) as nat, segs.len(), slots);
                }
                return Err(ArgError::InvalidNumber(k));
            },
            Ok(v) => {
                if v > MAX_SPEED {
                    warnings.push(v);
                }
                if i == 0 {
                    cur[0] = Some(v);
                    cur[2] = Some(v);
                    cur[4] = Some(v);
                    cur[6] = Some(v);
                } else if i == 1 {
                    cur[1] = Some(v);
                    cur[3] = Some(v);
                    cur[5] = Some(v);
                    cur[7] = Some(v);
                } else if i < 8 {
                    cur[i] = Some(v);
                } else {
                    proof {
                        let next = speed_scan(segs, (i + 1) as nat, slots);
                        assert(next.error == Some(ArgError::SpeedSlotOutOfRange(i)));
                        assert(warnings@ == old(warnings)@ + next.warnings);
                        lemma_speed_scan_error_persists(segs, (i + 1) as nat, segs.len(), slots);
                    }
                    return Err(ArgError::SpeedSlotOutOfRange(i));
                }
                assert(cur =~= set_speed(prev.slots, i as nat, v).unwrap());
            },
        }
        i = i + 1;
    }
    Ok(cur)
}

/// Reads an argument that is no option.
fn apply_positional(cl: &mut CommandLine, arg: &[char]) -> (r: Result<ArgAction, ArgError>)
    ensures
        follows(final(cl)@, Seq::empty(), Seq::empty(), r, positional_step(old(cl)@, arg@)),
{
    if eq_lit(arg, "-h") || eq_lit(arg, "-help") || (eq_lit(arg, "--help") && !cl.double_dash) {
        return Ok(ArgAction::ShowHelp);
    }
    if cl.input_name.len() == 0 {
        cl.input_name = copy_range(arg, 0, arg.len());
        assert(arg@.subrange(0, arg@.len() as int) =~= arg@);
        return Ok(ArgAction::Continue);
    }
    if cl.output_name.len() == 0 {
        cl.output_name = copy_range(arg, 0, arg.len());
        assert(arg@.subrange(0, arg@.len() as int) =~= arg@);
        return Ok(ArgAction::Continue);
    }
    Err(ArgError::UnknownArgument)
}

/// Reads the options that the tool looks at last.
fn apply_tail(cl: &mut CommandLine, arg: &[char]) -> (r: Result<ArgAction, ArgError>)
    ensures
        follows(final(cl)@, Seq::empty(), Seq::empty(), r, tail_step(old(cl)@, arg@)),
{
    if eq_lit(arg, "-avoiddistanceprefixsearch") {
        cl.settings.avoid_distance_prefix_search = true;
    }
    if starts_with_lit(arg, "-b") {
        let digits = trim_each(arg, "-b");
        return match parse_usize(digits.as_slice()) {
            Ok(v) => {
                cl.num_benchmarks = v;
                Ok(ArgAction::Continue)
            },
            Err(k) => Err(ArgError::InvalidNumber(k)),
        };
    }
    if eq_lit(arg, "-c") {
        cl.do_compress = true;
        return Ok(ArgAction::Continue);
    }
    apply_positional(cl, arg)
}

/// Reads the options that set a number.
fn apply_numeric(cl: &mut CommandLine, arg: &[char], warnings: &mut Vec<u16>) -> (r: Result<
    ArgAction,
    ArgError,
>)
    ensures
        follows(final(cl)@, old(warnings)@, final(warnings)@, r, numeric_step(old(cl)@, arg@)),
{
    if starts_with_lit(arg, "-l") {
        let digits = trim_each(arg, "-l");
        return match parse_i32(digits.as_slice()) {
            Ok(v) => {
                cl.settings.lgblock = Some(v);
                Ok(ArgAction::Continue)
            },
            Err(k) => Err(ArgError::InvalidNumber(k)),
        };
    }
    if starts_with_lit(arg, "-bytescore=") {
        let digits = trim_each(arg, "-bytescore=");
        return match parse_i32(digits.as_slice()) {
            Ok(v) => {
                cl.settings.literal_byte_score = Some(v);
                Ok(ArgAction::Continue)
            },
            Err(k) => Err(ArgError::InvalidNumber(k)),
        };
    }
    if starts_with_lit(arg, "-w") {
        let digits = trim_each(arg, "-w");
        return match parse_i32(digits.as_slice()) {
            Ok(v) => {
                cl.settings.lgwin = v;
                Ok(ArgAction::Continue)
            },
            Err(k) => Err(ArgError::InvalidNumber(k)),
        };
    }
    if starts_with_lit(arg, "-bs") {
        let digits = trim_each(arg, "-bs=");
        return match parse_usize(digits.as_slice()) {
            Ok(v) => {
                cl.buffer_size = v;
                Ok(ArgAction::Continue)
            },
            Err(k) => Err(ArgError::InvalidNumber(k)),
        };
    }
    apply_analysis(cl, arg, warnings)
}

/// Reads the options that steer the encoder's analysis of its input.
fn apply_analysis(cl: &mut CommandLine, arg: &[char], warnings: &mut Vec<u16>) -> (r: Result<
    ArgAction,
    ArgError,
>)
    ensures
        follows(final(cl)@, old(warnings)@, final(warnings)@, r, analysis_step(old(cl)@, arg@)),
{
    if starts_with_lit(arg, "-findprior") {
        cl.settings.prior_bitmask_detection = true;
        return Ok(ArgAction::Continue);
    }
    if starts_with_lit(arg, "-findspeed=") {
        let digits = trim_each(arg, "-findrandom=");
        return match parse_u32(digits.as_slice()) {
            Ok(v) => {
                cl.settings.cdf_adaptation_detection = Some((v % 256) as u8);
                Ok(ArgAction::Continue)
            },
            Err(k) => Err(ArgError::InvalidNumber(k)),
        };
    }
    if eq_lit(arg, "-findspeed") {
        cl.settings.cdf_adaptation_detection = Some(1);
        return Ok(ArgAction::Continue);
    }
    apply_stride(cl, arg, warnings)
}

/// Reads the stride options and the size hint.
fn apply_stride(cl: &mut CommandLine, arg: &[char], warnings: &mut Vec<u16>) -> (r: Result<
    ArgAction,
    ArgError,
>)
    ensures
        follows(final(cl)@, old(warnings)@, final(warnings)@, r, stride_step(old(cl)@, arg@)),
{
    if eq_lit(arg, "-basicstride") {
        cl.settings.stride_detection_quality = Some(1);
        return Ok(ArgAction::Continue);
    }
    if eq_lit(arg, "-advstride") {
        cl.settings.stride_detection_quality = Some(3);
        return Ok(ArgAction::Continue);
    }
    if eq_lit(arg, "-stride") {
        cl.settings.stride_detection_quality = Some(2);
        return Ok(ArgAction::Continue);
    }
    if starts_with_lit(arg, "-s") && !starts_with_lit(arg, "-speed=") {
        let digits = trim_each(arg, "-s");
        return match parse_usize(digits.as_slice()) {
            Ok(v) => {
                cl.settings.size_hint = Some(v);
                Ok(ArgAction::Continue)
            },
            Err(k) => Err(ArgError::InvalidNumber(k)),
        };
    }
    apply_speed_or_tail(cl, arg, warnings)
}

/// Reads a `-speed=` list, or one of the options that the tool looks at last.
fn apply_speed_or_tail(cl: &mut CommandLine, arg: &[char], warnings: &mut Vec<u16>) -> (r: Result<
    ArgAction,
    ArgError,
>)
    ensures
        follows(final(cl)@, old(warnings)@, final(warnings)@, r, speed_or_tail_step(old(cl)@, arg@)),
{
    if starts_with_lit(arg, "-speed=") {
        return match apply_speed(cl.settings.literal_adaptation, arg, warnings) {
            Ok(slots) => {
                cl.settings.literal_adaptation = slots;
                Ok(ArgAction::Continue)
            },
            Err(e) => Err(e),
        };
    }
    apply_tail(cl, arg)
}

/// Reads the options that set a flag, the prior or the quality.
fn apply_flags(cl: &mut CommandLine, arg: &[char], warnings: &mut Vec<u16>) -> (r: Result<
    ArgAction,
    ArgError,
>)
    ensures
        follows(final(cl)@, old(warnings)@, final(warnings)@, r, flag_step(old(cl)@, arg@)),
{
    if eq_lit(arg, "-catable") || eq_lit(arg, "--catable") {
        cl.settings.catable = true;
        cl.settings.appendable = true;
        return Ok(ArgAction::Continue);
    }
    if eq_lit(arg, "-appendable") || eq_lit(arg, "--appendable") {
        cl.settings.appendable = true;
        return Ok(ArgAction::Continue);
    }
    if starts_with_lit(arg, "-magic") || starts_with_lit(arg, "--magic") {
        cl.settings.magic_number = true;
        return Ok(ArgAction::Continue);
    }
    if starts_with_lit(arg, "-customdictionary=") {
        let prefix_len: usize = "-customdictionary=".unicode_len();
        let name = copy_range(arg, prefix_len, arg.len());
        assert(arg@.subrange(prefix_len as int, arg@.len() as int) =~= arg@.skip(
            "-customdictionary="@.len() as int,
        ));
        return Ok(ArgAction::LoadDictionary(name));
    }
    if eq_lit(arg, "--dump-dictionary") {
        return Ok(ArgAction::DumpDictionary);
    }
    if eq_lit(arg, "-utf8") {
        cl.settings.mode = Some(PriorMode::ForceUtf8);
        return Ok(ArgAction::Continue);
    }
    if eq_lit(arg, "-msb") {
        cl.settings.mode = Some(PriorMode::ForceMsb);
        return Ok(ArgAction::Continue);
    }
    if eq_lit(arg, "-lsb") {
        cl.settings.mode = Some(PriorMode::ForceLsb);
        return Ok(ArgAction::Continue);
    }
    if eq_lit(arg, "-signed") {
        cl.settings.mode = Some(PriorMode::ForceSigned);
        return Ok(ArgAction::Continue);
    }
    if eq_lit(arg, "-i") {
        cl.settings.log_meta_block = true;
        return Ok(ArgAction::Continue);
    }
    match quality_flag_exec(arg) {
        Some((q, nine_and_a_half)) => {
            cl.settings.quality = q;
            cl.settings.q9_5 = cl.settings.q9_5 || nine_and_a_half;
            Ok(ArgAction::Continue)
        },
        None => apply_numeric(cl, arg, warnings),
    }
}

/// Reads one command-line argument: updates the command line, appends to
/// `warnings` each `-speed=` value above `MAX_SPEED`, and says what the tool
/// does next. Where the argument is refused, the command line is left as it
/// was, except that `-avoiddistanceprefixsearch`, which is also taken as a
/// file name, keeps its flag set when that name is refused.
pub fn apply_argument(cl: &mut CommandLine, arg: &[char], warnings: &mut Vec<u16>) -> (r: Result<
    ArgAction,
    ArgError,
>)
    ensures
        follows(final(cl)@, old(warnings)@, final(warnings)@, r, arg_step(old(cl)@, arg@)),
{
    reveal(arg_step);
    if eq_lit(arg, "--") {
        cl.double_dash = true;
        return Ok(ArgAction::Continue);
    }
    if cl.double_dash {
        return apply_positional(cl, arg);
    }
    apply_flags(cl, arg, warnings)
}

/// The state after reading some of the arguments: the command line, the
/// custom dictionaries asked for (in order), the speeds warned about, and
/// what stopped the reading, if anything did.
pub struct ParseState {
    pub command_line: CommandLineView,
    pub dictionaries: Seq<Seq<char>>,
    pub warnings: Seq<u16>,
    pub stop: Option<Result<ActionView, ArgError>>,
}

/// The first `n` of `args` read in order, from the initial command line;
/// the usage request, the dictionary dump and any refused argument stop the
/// reading.
pub open spec fn parse_prefix(args: Seq<Seq<char>>, n: nat) -> ParseState
    decreases n,
{
    if n == 0 {
        ParseState {
            command_line: CommandLineView::initial(),
            dictionaries: Seq::empty(),
            warnings: Seq::empty(),
            stop: None,
        }
    } else {
        let prev = parse_prefix(args, (n - 1) as nat);
        if prev.stop is Some {
            prev
        } else {
            let step = arg_step(prev.command_line, args[n - 1]);
            let warnings = prev.warnings + step.warnings;
            match step.outcome {
                Ok(ActionView::Continue) => ParseState {
                    command_line: step.after,
                    warnings: warnings,
                    ..prev
                },
                Ok(ActionView::LoadDictionary(name)) => ParseState {
                    command_line: step.after,
                    dictionaries: prev.dictionaries.push(name),
                    warnings: warnings,
                    stop: None,
                },
                _ => ParseState {
                    command_line: step.after,
                    warnings: warnings,
                    stop: Some(step.outcome),
                    ..prev
                },
            }
        }
    }
}

/// The contents of each of `names`.
pub open spec fn names_view(names: Seq<Vec<char>>) -> Seq<Seq<char>> {
    names.map_values(|name: Vec<char>| name@)
}

/// All of `args`, read as the tool reads its command line.
pub open spec fn parse_all(args: Seq<Seq<char>>) -> ParseState {
    parse_prefix(args, args.len())
}

/// The result of reading a whole command line.
pub struct ParsedArguments {
    pub command_line: CommandLine,
    /// The custom dictionaries asked for, in order; the last one is used.
    pub dictionaries: Vec<Vec<char>>,
    /// The `-speed=` values above `MAX_SPEED`, in order.
    pub warnings: Vec<u16>,
    /// What stopped the reading: `None` when every argument was read.
    pub stop: Option<Result<ArgAction, ArgError>>,
}

impl ParsedArguments {
    /// This result is the state `state`.
    pub open spec fn is(&self, state: ParseState) -> bool {
        &&& self.command_line@ == state.command_line
        &&& names_view(self.dictionaries@) == state.dictionaries
        &&& self.warnings@ == state.warnings
        &&& match self.stop {
            None => state.stop is None,
            Some(r) => state.stop == Some(outcome_view(r)),
        }
    }
}

/// Once something stops the reading, no later argument has any effect.
pub proof fn law_reading_stops(args: Seq<Seq<char>>, k: nat, n: nat)
    requires
        k <= n,
        parse_prefix(args, k).stop is Some,
    ensures
        parse_prefix(args, n) == parse_prefix(args, k),
    decreases n - k,
{
    if k < n {
        law_reading_stops(args, k, (n - 1) as nat);
    }
}

/// Reads the command-line arguments `args` (the program name left out) in
/// order, as the tool does.
pub fn parse_arguments(args: &Vec<Vec<char>>) -> (r: ParsedArguments)
    ensures
        r.is(parse_all(names_view(args@))),
{
    let ghost all = names_view(args@);
    let mut cl = CommandLine::new();
    let mut dictionaries: Vec<Vec<char>> = Vec::new();
    let mut warnings: Vec<u16> = Vec::new();
    let mut i: usize = 0;
    while i < args.len()
        invariant
            i <= args@.len(),
            all == names_view(args@),
            parse_prefix(all, i as nat).stop is None,
            parse_prefix(all, i as nat).command_line == cl@,
            parse_prefix(all, i as nat).dictionaries == names_view(dictionaries@),
            parse_prefix(all, i as nat).warnings == warnings@,
        decreases args@.len() - i,
    {
        let ghost prev_dictionaries = names_view(dictionaries@);
        assert(all[i as int] == args@[i as int]@);
        let step = apply_argument(&mut cl, args[i].as_slice(), &mut warnings);
        i = i + 1;
        match step {
            Ok(ArgAction::Continue) => {},
            Ok(ArgAction::LoadDictionary(name)) => {
                dictionaries.push(name);
                assert(names_view(dictionaries@) =~= prev_dictionaries.push(
                    parse_prefix(all, i as nat).dictionaries.last(),
                ));
            },
            other => {
                proof {
                    law_reading_stops(all, i as nat, all.len());
                }
                return ParsedArguments {
                    command_line: cl,
                    dictionaries: dictionaries,
                    warnings: warnings,
                    stop: Some(other),
                };
            },
        }
    }
    ParsedArguments { command_line: cl, dictionaries: dictionaries, warnings: warnings, stop: None }
}

/// After `--`, no argument is taken as an option: the encoder settings,
/// the buffer size, the number of runs and the choice to compress stay as
/// they were, no speed is warned about, and the argument is taken as the
/// usage request (`-h`, `-help`), as a file name, or refused.
pub proof fn law_options_end_at_double_dash(m: CommandLineView, arg: Seq<char>)
    requires
        m.double_dash,
    ensures
        ({
            let step = arg_step(m, arg);
            &&& step.after.settings == m.settings
            &&& step.after.buffer_size == m.buffer_size
            &&& step.after.num_benchmarks == m.num_benchmarks
            &&& step.after.do_compress == m.do_compress
            &&& step.after.double_dash
            &&& step.warnings.len() == 0
            &&& step.outcome == Ok::<ActionView, ArgError>(ActionView::Continue)
                || step.outcome == Ok::<ActionView, ArgError>(ActionView::ShowHelp)
                || step.outcome == Err::<ActionView, ArgError>(ArgError::UnknownArgument)
        }),
{
    reveal(arg_step);
}

/// Two argument texts that differ in their second character are different,
/// and neither begins with the other.
proof fn lemma_second_char_differs(x: Seq<char>, lit: Seq<char>)
    requires
        x.len() >= 2,
        lit.len() >= 2,
        x[1] != lit[1],
    ensures
        x != lit,
        !lit.is_prefix_of(x),
{
    if lit.is_prefix_of(x) {
        assert(x.subrange(0, lit.len() as int)[1] == x[1]);
    }
}

/// Every quality option is `-` followed by a digit or by `q`.
proof fn lemma_quality_option_shape(arg: Seq<char>)
    requires
        quality_flag(arg) is Some,
    ensures
        arg.len() >= 2,
        arg[1] == 'q' || ('0' <= arg[1] && arg[1] <= '9'),
{
    reveal_strlit("-0");
    reveal_strlit("-1");
    reveal_strlit("-2");
    reveal_strlit("-3");
    reveal_strlit("-4");
    reveal_strlit("-5");
    reveal_strlit("-6");
    reveal_strlit("-7");
    reveal_strlit("-8");
    reveal_strlit("-9");
    reveal_strlit("-q0");
    reveal_strlit("-q1");
    reveal_strlit("-q2");
    reveal_strlit("-q3");
    reveal_strlit("-q4");
    reveal_strlit("-q5");
    reveal_strlit("-q6");
    reveal_strlit("-q7");
    reveal_strlit("-q8");
    reveal_strlit("-q9");
    reveal_strlit("-9.5");
    reveal_strlit("-q9.5");
    reveal_strlit("-9.5x");
    reveal_strlit("-q9.5x");
    reveal_strlit("-10");
    reveal_strlit("-q10");
    reveal_strlit("-11");
    reveal_strlit("-q11");
    reveal_strlit("-q9.5y");
}

/// A quality option sets the quality it names, whatever the command line
/// said before (up to a `--`), and selects the 9.5 variants when it names
/// one of them; it never unselects them.
pub proof fn law_quality_option_sets_quality(m: CommandLineView, arg: Seq<char>)
    requires
        !m.double_dash,
        quality_flag(arg) is Some,
    ensures
        ({
            let (q, nine_and_a_half) = quality_flag(arg).unwrap();
            let step = arg_step(m, arg);
            &&& step.after.settings.quality == q
            &&& step.after.settings.q9_5 == (m.settings.q9_5 || nine_and_a_half)
            &&& step.outcome == Ok::<ActionView, ArgError>(ActionView::Continue)
        }),
{
    reveal(arg_step);
    lemma_quality_option_shape(arg);
    reveal_strlit("--");
    reveal_strlit("-catable");
    reveal_strlit("--catable");
    reveal_strlit("-appendable");
    reveal_strlit("--appendable");
    reveal_strlit("-magic");
    reveal_strlit("--magic");
    reveal_strlit("-customdictionary=");
    reveal_strlit("--dump-dictionary");
    reveal_strlit("-utf8");
    reveal_strlit("-msb");
    reveal_strlit("-lsb");
    reveal_strlit("-signed");
    lemma_second_char_differs(arg, "--"@);
    lemma_second_char_differs(arg, "-catable"@);
    lemma_second_char_differs(arg, "--catable"@);
    lemma_second_char_differs(arg, "-appendable"@);
    lemma_second_char_differs(arg, "--appendable"@);
    lemma_second_char_differs(arg, "-magic"@);
    lemma_second_char_differs(arg, "--magic"@);
    lemma_second_char_differs(arg, "-customdictionary="@);
    lemma_second_char_differs(arg, "--dump-dictionary"@);
    lemma_second_char_differs(arg, "-utf8"@);
    lemma_second_char_differs(arg, "-msb"@);
    lemma_second_char_differs(arg, "-lsb"@);
    lemma_second_char_differs(arg, "-signed"@);
    reveal_strlit("-i");
    if arg == "-i"@ {
        assert(arg.len() == 2 && arg[1] == 'i');
    }
}

/// The quality option that names `d`: `-d`, or `-qd` when `with_q`.
pub open spec fn quality_option(d: nat, with_q: bool) -> Seq<char> {
    if with_q {
        seq!['-', 'q'] + decimal(d)
    } else {
        seq!['-'] + decimal(d)
    }
}

proof fn lemma_quality_option_flag(d: nat, with_q: bool)
    requires
        d <= 11,
    ensures
        quality_flag(quality_option(d, with_q)) == Some((d as i32, false)),
{
    let arg = quality_option(d, with_q);
    reveal_strlit("-0");
    reveal_strlit("-1");
    reveal_strlit("-2");
    reveal_strlit("-3");
    reveal_strlit("-4");
    reveal_strlit("-5");
    reveal_strlit("-6");
    reveal_strlit("-7");
    reveal_strlit("-8");
    reveal_strlit("-9");
    reveal_strlit("-q0");
    reveal_strlit("-q1");
    reveal_strlit("-q2");
    reveal_strlit("-q3");
    reveal_strlit("-q4");
    reveal_strlit("-q5");
    reveal_strlit("-q6");
    reveal_strlit("-q7");
    reveal_strlit("-q8");
    reveal_strlit("-q9");
    reveal_strlit("-9.5");
    reveal_strlit("-q9.5");
    reveal_strlit("-9.5x");
    reveal_strlit("-q9.5x");
    reveal_strlit("-10");
    reveal_strlit("-q10");
    reveal_strlit("-11");
    reveal_strlit("-q11");
    reveal_strlit("-q9.5y");
    if d < 10 {
        assert(decimal(d) == seq![crate::text::digit_char(d)]);
    } else {
        assert(decimal(d) == decimal(d / 10).push(crate::text::digit_char(d % 10)));
        assert(decimal(1) == seq!['1']);
    }
    if with_q {
        assert(arg[0] == '-' && arg[1] == 'q');
        if d < 10 {
            assert(arg.len() == 3 && arg[2] == crate::text::digit_char(d));
        } else {
            assert(arg.len() == 4 && arg[2] == '1' && arg[3] == crate::text::digit_char(
                (d % 10) as nat,
            ));
        }
    } else {
        assert(arg[0] == '-');
        if d < 10 {
            assert(arg.len() == 2 && arg[1] == crate::text::digit_char(d));
        } else {
            assert(arg.len() == 3 && arg[1] == '1' && arg[2] == crate::text::digit_char(
                (d % 10) as nat,
            ));
        }
    }
    let lits = seq![
        "-0"@, "-q0"@, "-1"@, "-q1"@, "-2"@, "-q2"@, "-3"@, "-q3"@, "-4"@, "-q4"@,
        "-5"@, "-q5"@, "-6"@, "-q6"@, "-7"@, "-q7"@, "-8"@, "-q8"@, "-9"@, "-q9"@,
        "-9.5"@, "-q9.5"@, "-9.5x"@, "-q9.5x"@, "-10"@, "-q10"@, "-11"@, "-q11"@, "-q9.5y"@
    ];
    assert forall|k: int| 0 <= k < lits.len() implies (arg == lits[k] <==> arg =~= lits[k]) by {}
}

/// The options `-d` and `-qd`, for each `d` from 0 to 11, set the quality
/// to `d`, whatever the command line said before (up to a `--`), and leave
/// the 9.5 flag as it was.
pub proof fn law_quality_option_names_the_quality(m: CommandLineView, d: nat, with_q: bool)
    requires
        !m.double_dash,
        d <= 11,
    ensures
        ({
            let step = arg_step(m, quality_option(d, with_q));
            &&& step.after.settings.quality == d
            &&& step.after.settings.q9_5 == m.settings.q9_5
            &&& step.outcome == Ok::<ActionView, ArgError>(ActionView::Continue)
        }),
{
    lemma_quality_option_flag(d, with_q);
    law_quality_option_sets_quality(m, quality_option(d, with_q));
}

/// The options that turn each flag on.
pub open spec fn sets_catable(arg: Seq<char>) -> bool {
    arg == "-catable"@ || arg == "--catable"@
}

pub open spec fn sets_appendable(arg: Seq<char>) -> bool {
    sets_catable(arg) || arg == "-appendable"@ || arg == "--appendable"@
}

pub open spec fn sets_magic_number(arg: Seq<char>) -> bool {
    "-magic"@.is_prefix_of(arg) || "--magic"@.is_prefix_of(arg)
}

pub open spec fn sets_log_meta_block(arg: Seq<char>) -> bool {
    arg == "-i"@
}

pub open spec fn sets_prior_bitmask_detection(arg: Seq<char>) -> bool {
    "-findprior"@.is_prefix_of(arg)
}

pub open spec fn sets_avoid_distance_prefix_search(arg: Seq<char>) -> bool {
    arg == "-avoiddistanceprefixsearch"@
}

pub open spec fn sets_q9_5(arg: Seq<char>) -> bool {
    quality_flag(arg) matches Some((_, nine_and_a_half)) && nine_and_a_half
}

pub open spec fn sets_compress(arg: Seq<char>) -> bool {
    arg == "-c"@
}

/// One argument turns a flag on only when it is that flag's option.
proof fn lemma_step_flags(m: CommandLineView, arg: Seq<char>)
    ensures
        ({
            let a = arg_step(m, arg).after;
            &&& a.settings.catable ==> m.settings.catable || sets_catable(arg)
            &&& a.settings.appendable ==> m.settings.appendable || sets_appendable(arg)
            &&& a.settings.magic_number ==> m.settings.magic_number || sets_magic_number(arg)
            &&& a.settings.log_meta_block ==> m.settings.log_meta_block || sets_log_meta_block(arg)
            &&& a.settings.prior_bitmask_detection ==> m.settings.prior_bitmask_detection
                || sets_prior_bitmask_detection(arg)
            &&& a.settings.avoid_distance_prefix_search ==> m.settings.avoid_distance_prefix_search
                || sets_avoid_distance_prefix_search(arg)
            &&& a.settings.q9_5 ==> m.settings.q9_5 || sets_q9_5(arg)
            &&& a.do_compress ==> m.do_compress || sets_compress(arg)
        }),
{
    reveal(arg_step);
}

proof fn lemma_prefix_flags(args: Seq<Seq<char>>, n: nat)
    requires
        n <= args.len(),
    ensures
        ({
            let c = parse_prefix(args, n).command_line;
            &&& c.settings.catable ==> exists|k: int| 0 <= k < n && #[trigger] sets_catable(args[k])
            &&& c.settings.appendable ==> exists|k: int|
                0 <= k < n && #[trigger] sets_appendable(args[k])
            &&& c.settings.magic_number ==> exists|k: int|
                0 <= k < n && #[trigger] sets_magic_number(args[k])
            &&& c.settings.log_meta_block ==> exists|k: int|
                0 <= k < n && #[trigger] sets_log_meta_block(args[k])
            &&& c.settings.prior_bitmask_detection ==> exists|k: int|
                0 <= k < n && #[trigger] sets_prior_bitmask_detection(args[k])
            &&& c.settings.avoid_distance_prefix_search ==> exists|k: int|
                0 <= k < n && #[trigger] sets_avoid_distance_prefix_search(args[k])
            &&& c.settings.q9_5 ==> exists|k: int| 0 <= k < n && #[trigger] sets_q9_5(args[k])
            &&& c.do_compress ==> exists|k: int| 0 <= k < n && #[trigger] sets_compress(args[k])
        }),
    decreases n,
{
    if n > 0 {
        lemma_prefix_flags(args, (n - 1) as nat);
        let prev = parse_prefix(args, (n - 1) as nat);
        if prev.stop is None {
            let arg = args[n - 1];
            lemma_step_flags(prev.command_line, arg);
            assert(parse_prefix(args, n).command_line == arg_step(prev.command_line, arg).after);
        }
    }
}

/// Every flag starts off, and only its own option turns it on: when no
/// argument is that option, the flag is off after the whole command line
/// is read.
pub proof fn law_flags_need_their_options(args: Seq<Seq<char>>)
    ensures
        ({
            let c = parse_all(args).command_line;
            &&& (forall|k: int| 0 <= k < args.len() ==> !sets_catable(#[trigger] args[k]))
                ==> !c.settings.catable
            &&& (forall|k: int| 0 <= k < args.len() ==> !sets_appendable(#[trigger] args[k]))
                ==> !c.settings.appendable
            &&& (forall|k: int| 0 <= k < args.len() ==> !sets_magic_number(#[trigger] args[k]))
                ==> !c.settings.magic_number
            &&& (forall|k: int| 0 <= k < args.len() ==> !sets_log_meta_block(#[trigger] args[k]))
                ==> !c.settings.log_meta_block
            &&& (forall|k: int|
                0 <= k < args.len() ==> !sets_prior_bitmask_detection(#[trigger] args[k]))
                ==> !c.settings.prior_bitmask_detection
            &&& (forall|k: int|
                0 <= k < args.len() ==> !sets_avoid_distance_prefix_search(#[trigger] args[k]))
                ==> !c.settings.avoid_distance_prefix_search
            &&& (forall|k: int| 0 <= k < args.len() ==> !sets_q9_5(#[trigger] args[k]))
                ==> !c.settings.q9_5
            &&& (forall|k: int| 0 <= k < args.len() ==> !sets_compress(#[trigger] args[k]))
                ==> !c.do_compress
        }),
{
    lemma_prefix_flags(args, args.len());
}

} // verus!
