use vstd::prelude::*;

use crate::errors::GprError;
use crate::steps::{
    all_tokens_valid, default_processing_profile, default_profile_spec, parse_step_list,
    step_tokens, token_valid, validate_steps,
};

verus! {

/// A command-line request, reduced to plain values: paths are strings,
/// the merge threshold is an unparsed duration string, and the two
/// quantities the physics needs are fixed-point integers (medium
/// velocity in micrometres per nanosecond, antenna frequency override
/// in kilohertz).
#[derive(Debug)]
pub struct Args {
    /// File path of the input header file, or a glob pattern of many.
    pub filepath: Option<String>,
    /// Velocity of the medium, in micrometres per nanosecond.
    pub velocity_um_per_ns: u64,
    /// Only report metadata for the files.
    pub info: bool,
    /// Separate geolocation file to load, if any.
    pub cor: Option<String>,
    /// Elevation model to correct elevation values with, if any.
    pub dem: Option<String>,
    /// Coordinate reference system to project coordinates into, if any.
    pub crs: Option<String>,
    /// Location-track export: absent, or requested with an optional path.
    pub track: Option<Option<String>>,
    /// Process with the default profile.
    pub default: bool,
    /// Process with the default profile plus topographic correction.
    pub default_with_topo: bool,
    /// Show the default profile and exit.
    pub show_default: bool,
    /// Show the available steps and exit.
    pub show_all_steps: bool,
    /// Explicit step list: comma-separated tokens, or the contents of a
    /// newline-separated step file.
    pub steps: Option<String>,
    /// Output file name or directory, if any.
    pub output: Option<String>,
    /// Suppress progress messages.
    pub quiet: bool,
    /// Profile rendering: absent, or requested with an optional path.
    pub render: Option<Option<String>>,
    /// Do not export the processed profile.
    pub no_export: bool,
    /// Merge threshold for batch mode, as an unparsed duration string.
    pub merge: Option<String>,
    /// Override of the antenna center frequency, in kilohertz.
    pub override_antenna_khz: Option<u64>,
}

/// The resolved parameters of one processing run, immutable once built.
#[derive(Debug)]
pub struct RunParams {
    /// The concrete input files, one loaded profile each.
    pub filepaths: Vec<String>,
    /// Output file name or directory, if any.
    pub output_path: Option<String>,
    /// Only report metadata; run no step and export nothing.
    pub only_info: bool,
    /// Elevation model to correct elevation values with, if any.
    pub dem_path: Option<String>,
    /// Separate geolocation file to load, if any.
    pub cor_path: Option<String>,
    /// Velocity of the medium, in micrometres per nanosecond.
    pub medium_velocity_um_per_ns: u64,
    /// Coordinate reference system to project coordinates into, if any.
    pub crs: Option<String>,
    /// Suppress progress messages.
    pub quiet: bool,
    /// Location-track export: absent, or requested with an optional path.
    pub track_path: Option<Option<String>>,
    /// The validated step tokens, in execution order.
    pub steps: Vec<String>,
    /// Do not export the processed profile.
    pub no_export: bool,
    /// Profile rendering: absent, or requested with an optional path.
    pub render_path: Option<Option<String>>,
    /// Merge threshold between neighbouring profiles, in milliseconds.
    pub merge_millis: Option<u128>,
    /// Override of the antenna center frequency, in kilohertz.
    pub override_antenna_khz: Option<u64>,
}

/// What an invocation asks for once its arguments are resolved.
pub enum CliAction {
    /// Run the processing pipeline with these parameters.
    Run(RunParams),
    /// Refuse the invocation with this error.
    Error(GprError),
    /// The invocation is fully answered by a listing; nothing runs.
    Done,
}

/// What `parse_duration::parse` yields for a duration string, in whole
/// milliseconds: a value when the string is a well-formed duration,
/// nothing when the parser rejects it.  The result depends on the
/// characters alone.
pub uninterp spec fn parsed_duration_millis(s: Seq<char>) -> Option<u128>;

/// Relies on `parse_duration::parse` to read a human-given duration
/// string such as "10 min"; a parsed duration is reduced to whole
/// milliseconds, a rejected string to the parser's message.
#[verifier::external_body]
fn parse_merge_duration(s: &str) -> (r: Result<u128, String>)
    ensures
        r matches Ok(ms) ==> parsed_duration_millis(s@) == Some(ms),
        r is Err ==> parsed_duration_millis(s@) is None,
{
    match parse_duration::parse(s) {
        Ok(d) => Ok(d.as_millis()),
        Err(e) => Err(format!("Error parsing --merge string: {:?}", e)),
    }
}

/// Clones an optional string, keeping its value.
fn clone_opt_string(o: &Option<String>) -> (r: Option<String>)
    ensures
        r == *o,
{
    match o {
        Some(s) => Some(s.clone()),
        None => None,
    }
}

/// Clones an optional optional string, keeping its value.
fn clone_opt_opt_string(o: &Option<Option<String>>) -> (r: Option<Option<String>>)
    ensures
        r == *o,
{
    match o {
        Some(inner) => Some(clone_opt_string(inner)),
        None => None,
    }
}

/// The step tokens an invocation resolves to, before validation: none in
/// info-only mode, one of the canned profiles when asked for, else the
/// tokens of the explicit step list, else none.
pub open spec fn resolved_step_tokens(args: Args) -> Seq<Seq<char>> {
    if args.info {
        Seq::empty()
    } else if args.default_with_topo {
        default_profile_spec().push("correct_topography"@)
    } else if args.default {
        default_profile_spec()
    } else {
        match args.steps {
            Some(s) => step_tokens(s@),
            None => Seq::empty(),
        }
    }
}

/// Whether the merge option, if present, parses as a duration.
pub open spec fn merge_parses(args: Args) -> bool {
    match args.merge {
        Some(s) => parsed_duration_millis(s@) is Some,
        None => true,
    }
}

/// The merge threshold an invocation resolves to.
pub open spec fn merge_millis_of(args: Args) -> Option<u128> {
    match args.merge {
        Some(s) => parsed_duration_millis(s@),
        None => None,
    }
}

/// Resolves a command-line request into the action to take.  Listings
/// win over everything; then the merge threshold must parse, an input
/// path must be present, and every resolved step token must validate
/// against the registry; only then does the invocation run, with the
/// resolved parameters copied from the request.  The caller supplies the
/// expansion of the file pattern, since matching it against the file
/// system is no business of this crate.
pub fn args_to_action(args: &Args, filepaths: Vec<String>) -> (r: CliAction)
    ensures
        args.show_all_steps ==> r is Done,
        (!args.show_all_steps && args.show_default) ==> r is Done,
        (!args.show_all_steps && !args.show_default && !merge_parses(*args)) ==> (r matches
            CliAction::Error(e) && e matches GprError::MergeParse { .. }),
        (!args.show_all_steps && !args.show_default && merge_parses(*args) && args.filepath
            is None) ==> (r matches CliAction::Error(e) && e is NoFilepath),
        (!args.show_all_steps && !args.show_default && merge_parses(*args) && args.filepath
            is Some && !all_tokens_valid(resolved_step_tokens(*args))) ==> (r matches
            CliAction::Error(e) && e matches GprError::UnrecognizedStep { token }
            && !token_valid(token@) && (exists|i: int|
            0 <= i < resolved_step_tokens(*args).len() && #[trigger] resolved_step_tokens(
                *args,
            )[i] == token@)),
        (!args.show_all_steps && !args.show_default && merge_parses(*args) && args.filepath
            is Some && all_tokens_valid(resolved_step_tokens(*args))) ==> (r matches
            CliAction::Run(p) && p.filepaths == filepaths && p.output_path == args.output
            && p.only_info == args.info && p.dem_path == args.dem && p.cor_path == args.cor
            && p.medium_velocity_um_per_ns == args.velocity_um_per_ns && p.crs == args.crs
            && p.quiet == args.quiet && p.track_path == args.track && p.steps.deep_view()
            == resolved_step_tokens(*args) && p.no_export == args.no_export && p.render_path
            == args.render && p.merge_millis == merge_millis_of(*args)
            && p.override_antenna_khz == args.override_antenna_khz),
{
    if args.show_all_steps {
        return CliAction::Done;
    }
    if args.show_default {
        return CliAction::Done;
    }
    let merge_millis: Option<u128> = match &args.merge {
        Some(s) => match parse_merge_duration(s.as_str()) {
            Ok(ms) => Some(ms),
            Err(m) => {
                return CliAction::Error(GprError::MergeParse { message: m });
            },
        },
        None => None,
    };
    if args.filepath.is_none() {
        return CliAction::Error(GprError::NoFilepath);
    }
    let steps: Vec<String> = if args.info {
        let v: Vec<String> = Vec::new();
        proof {
            assert(v.deep_view() =~= resolved_step_tokens(*args));
        }
        v
    } else if args.default_with_topo {
        let mut p = default_processing_profile();
        let ghost before = p@;
        p.push("correct_topography".to_owned());
        proof {
            assert forall|i: int| 0 <= i < p.deep_view().len() implies p.deep_view()[i]
                == resolved_step_tokens(*args)[i] by {
                if i < before.len() {
                    assert(p@[i] == before[i]);
                }
            }
            assert(p.deep_view() =~= resolved_step_tokens(*args));
        }
        p
    } else if args.default {
        default_processing_profile()
    } else {
        match &args.steps {
            Some(s) => parse_step_list(s.as_str()),
            None => {
                let v: Vec<String> = Vec::new();
                proof {
                    assert(v.deep_view() =~= resolved_step_tokens(*args));
                }
                v
            },
        }
    };
    assert(steps.deep_view() == resolved_step_tokens(*args));
    match validate_steps(&steps) {
        Ok(_) => {
            proof {
                assert forall|i: int|
                    0 <= i < resolved_step_tokens(*args).len() implies #[trigger] token_valid(
                    resolved_step_tokens(*args)[i],
                ) by {
                    assert(resolved_step_tokens(*args)[i] == steps@[i]@);
                    assert(token_valid(steps@[i]@));
                }
            }
        },
        Err(e) => {
            proof {
                let i = choose|i: int|
                    0 <= i < steps@.len() && !(#[trigger] token_valid(steps@[i]@)) && (e matches
                    GprError::UnrecognizedStep { token } && token@ == steps@[i]@) && (forall|k: int|
                        0 <= k < i ==> #[trigger] token_valid(steps@[k]@));
                assert(resolved_step_tokens(*args)[i] == steps@[i]@);
                assert(!all_tokens_valid(resolved_step_tokens(*args)));
            }
            return CliAction::Error(e);
        },
    }
    CliAction::Run(
        RunParams {
            filepaths,
            output_path: clone_opt_string(&args.output),
            only_info: args.info,
            dem_path: clone_opt_string(&args.dem),
            cor_path: clone_opt_string(&args.cor),
            medium_velocity_um_per_ns: args.velocity_um_per_ns,
            crs: clone_opt_string(&args.crs),
            quiet: args.quiet,
            track_path: clone_opt_opt_string(&args.track),
            steps,
            no_export: args.no_export,
            render_path: clone_opt_opt_string(&args.render),
            merge_millis,
            override_antenna_khz: args.override_antenna_khz,
        },
    )
}

} // verus!
