use vstd::prelude::*;

use crate::args::{CommandLine, CommandLineView};
use crate::chars::copy_range;

verus! {

/// Where a run reads from or writes to.
pub enum Endpoint {
    /// Standard input or standard output.
    Standard,
    /// The named file.
    File(Vec<char>),
}

/// The model of an `Endpoint`.
pub enum EndpointView {
    Standard,
    File(Seq<char>),
}

impl View for Endpoint {
    type V = EndpointView;

    open spec fn view(&self) -> EndpointView {
        match self {
            Endpoint::Standard => EndpointView::Standard,
            Endpoint::File(name) => EndpointView::File(name@),
        }
    }
}

/// What the tool does once its arguments are read: compress or decompress
/// `runs` times from `input` to `output`, starting both over before each
/// run after the first.
pub struct RunPlan {
    pub input: Endpoint,
    pub output: Endpoint,
    pub runs: usize,
    pub compress: bool,
}

/// The model of a `RunPlan`.
pub struct RunPlanView {
    pub input: EndpointView,
    pub output: EndpointView,
    pub runs: usize,
    pub compress: bool,
}

impl View for RunPlan {
    type V = RunPlanView;

    open spec fn view(&self) -> RunPlanView {
        RunPlanView {
            input: self.input@,
            output: self.output@,
            runs: self.runs,
            compress: self.compress,
        }
    }
}

/// Why the arguments give no run.
#[derive(PartialEq, Eq, Structural, Debug, Clone, Copy)]
pub enum PlanError {
    /// A number of runs other than one was asked for without an output file.
    RunsNeedOutputFile,
}

/// The run that the command line `m` asks for: from the input file when one
/// is named, else from standard input; to the output file when both are
/// named, else to standard output. Only a run between two files may be
/// repeated (or not made at all); otherwise the number of runs must be one.
pub open spec fn spec_plan(m: CommandLineView) -> Result<RunPlanView, PlanError> {
    if m.input_name.len() > 0 {
        if m.output_name.len() > 0 {
            Ok(
                RunPlanView {
                    input: EndpointView::File(m.input_name),
                    output: EndpointView::File(m.output_name),
                    runs: m.num_benchmarks,
                    compress: m.do_compress,
                },
            )
        } else if m.num_benchmarks == 1 {
            Ok(
                RunPlanView {
                    input: EndpointView::File(m.input_name),
                    output: EndpointView::Standard,
                    runs: 1,
                    compress: m.do_compress,
                },
            )
        } else {
            Err(PlanError::RunsNeedOutputFile)
        }
    } else if m.num_benchmarks == 1 {
        Ok(
            RunPlanView {
                input: EndpointView::Standard,
                output: EndpointView::Standard,
                runs: 1,
                compress: m.do_compress,
            },
        )
    } else {
        Err(PlanError::RunsNeedOutputFile)
    }
}

/// The model of what `plan_run` returned.
pub open spec fn plan_view(r: Result<RunPlan, PlanError>) -> Result<RunPlanView, PlanError> {
    match r {
        Ok(p) => Ok(p@),
        Err(e) => Err(e),
    }
}

/// The run that the command line `cl` asks for.
pub fn plan_run(cl: &CommandLine) -> (r: Result<RunPlan, PlanError>)
    ensures
        plan_view(r) == spec_plan(cl@),
{
    let whole_input = copy_range(cl.input_name.as_slice(), 0, cl.input_name.len());
    let whole_output = copy_range(cl.output_name.as_slice(), 0, cl.output_name.len());
    assert(cl.input_name@.subrange(0, cl.input_name@.len() as int) =~= cl.input_name@);
    assert(cl.output_name@.subrange(0, cl.output_name@.len() as int) =~= cl.output_name@);
    if cl.input_name.len() > 0 {
        if cl.output_name.len() > 0 {
            Ok(
                RunPlan {
                    input: Endpoint::File(whole_input),
                    output: Endpoint::File(whole_output),
                    runs: cl.num_benchmarks,
                    compress: cl.do_compress,
                },
            )
        } else if cl.num_benchmarks == 1 {
            Ok(
                RunPlan {
                    input: Endpoint::File(whole_input),
                    output: Endpoint::Standard,
                    runs: 1,
                    compress: cl.do_compress,
                },
            )
        } else {
            Err(PlanError::RunsNeedOutputFile)
        }
    } else if cl.num_benchmarks == 1 {
        Ok(
            RunPlan {
                input: Endpoint::Standard,
                output: Endpoint::Standard,
                runs: 1,
                compress: cl.do_compress,
            },
        )
    } else {
        Err(PlanError::RunsNeedOutputFile)
    }
}

/// Output goes to a file only when both file names are given; a run is
/// repeated, or left out, only then; and without an input file name the
/// tool reads standard input and writes standard output.
pub proof fn law_repeated_runs_write_a_file(m: CommandLineView)
    ensures
        spec_plan(m) matches Ok(p) ==> {
            &&& (p.output is File <==> m.input_name.len() > 0 && m.output_name.len() > 0)
            &&& (p.runs != 1 ==> p.output is File)
            &&& (m.input_name.len() == 0 ==> p.input is Standard && p.output is Standard)
        },
        spec_plan(m) is Err <==> m.num_benchmarks != 1 && (m.input_name.len() == 0
            || m.output_name.len() == 0),
{
}

/// A run compresses exactly when the command line asked for compression
/// (`-c`), and it reads and writes the named files themselves.
pub proof fn law_plan_follows_the_command_line(m: CommandLineView)
    ensures
        spec_plan(m) matches Ok(p) ==> {
            &&& p.compress == m.do_compress
            &&& (m.input_name.len() > 0 ==> p.input == EndpointView::File(m.input_name))
            &&& (p.output is File ==> p.output == EndpointView::File(m.output_name))
            &&& (m.input_name.len() > 0 && m.output_name.len() > 0 ==> p.runs == m.num_benchmarks)
        },
{
}

} // verus!
