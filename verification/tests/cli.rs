use radal::cli::{args_to_action, Args, CliAction};
use radal::engine::merge_groups;
use radal::errors::GprError;

fn base_args() -> Args {
    Args {
        filepath: Some("survey.rd3".to_string()),
        velocity_um_per_ns: 168_000,
        info: false,
        cor: None,
        dem: None,
        crs: None,
        track: None,
        default: false,
        default_with_topo: false,
        show_default: false,
        show_all_steps: false,
        steps: None,
        output: None,
        quiet: false,
        render: None,
        no_export: false,
        merge: None,
        override_antenna_khz: None,
    }
}

#[test]
fn test_show_all_steps_is_done() {
    let mut args = base_args();
    args.show_all_steps = true;
    assert!(matches!(args_to_action(&args, Vec::new()), CliAction::Done));
}

#[test]
fn test_show_default_is_done() {
    let mut args = base_args();
    args.show_default = true;
    assert!(matches!(args_to_action(&args, Vec::new()), CliAction::Done));
}

#[test]
fn test_no_filepath_is_error() {
    let mut args = base_args();
    args.filepath = None;
    match args_to_action(&args, Vec::new()) {
        CliAction::Error(e) => assert_eq!(e, GprError::NoFilepath),
        _ => panic!("expected an error"),
    }
}

#[test]
fn test_merge_threshold_parses() {
    let mut args = base_args();
    args.merge = Some("10 min".to_string());
    match args_to_action(&args, vec!["survey.rd3".to_string()]) {
        CliAction::Run(params) => {
            assert_eq!(params.merge_millis, Some(600_000));
        }
        _ => panic!("expected a run"),
    }
}

#[test]
fn test_merge_threshold_rejected() {
    let mut args = base_args();
    args.merge = Some("???".to_string());
    match args_to_action(&args, vec!["survey.rd3".to_string()]) {
        CliAction::Error(GprError::MergeParse { message }) => {
            assert!(!message.is_empty());
        }
        _ => panic!("expected a merge parse error"),
    }
}

#[test]
fn test_info_runs_no_steps() {
    let mut args = base_args();
    args.info = true;
    // Even an explicit step list is ignored in info-only mode.
    args.steps = Some("abslog".to_string());
    match args_to_action(&args, vec!["survey.rd3".to_string()]) {
        CliAction::Run(params) => {
            assert!(params.only_info);
            assert!(params.steps.is_empty());
        }
        _ => panic!("expected a run"),
    }
}

#[test]
fn test_default_profile_run() {
    let mut args = base_args();
    args.default = true;
    match args_to_action(&args, vec!["survey.rd3".to_string()]) {
        CliAction::Run(params) => {
            assert_eq!(
                params.steps,
                vec!["abslog".to_string(), "average_traces:2".to_string()]
            );
        }
        _ => panic!("expected a run"),
    }
}

#[test]
fn test_default_with_topo_run() {
    let mut args = base_args();
    args.default_with_topo = true;
    match args_to_action(&args, vec!["survey.rd3".to_string()]) {
        CliAction::Run(params) => {
            assert_eq!(
                params.steps,
                vec![
                    "abslog".to_string(),
                    "average_traces:2".to_string(),
                    "correct_topography".to_string()
                ]
            );
        }
        _ => panic!("expected a run"),
    }
}

#[test]
fn test_explicit_steps_run() {
    let mut args = base_args();
    args.steps = Some("abslog,average_traces:4".to_string());
    match args_to_action(&args, vec!["survey.rd3".to_string()]) {
        CliAction::Run(params) => {
            assert_eq!(
                params.steps,
                vec!["abslog".to_string(), "average_traces:4".to_string()]
            );
        }
        _ => panic!("expected a run"),
    }
}

#[test]
fn test_unrecognized_step_is_error() {
    let mut args = base_args();
    args.steps = Some("abslog,bogus_step".to_string());
    match args_to_action(&args, vec!["survey.rd3".to_string()]) {
        CliAction::Error(GprError::UnrecognizedStep { token }) => {
            assert_eq!(token, "bogus_step");
        }
        _ => panic!("expected an unrecognized step error"),
    }
}

#[test]
fn test_run_copies_parameters() {
    let mut args = base_args();
    args.output = Some("out.nc".to_string());
    args.dem = Some("dem.tif".to_string());
    args.crs = Some("EPSG:32633".to_string());
    args.quiet = true;
    args.no_export = true;
    args.override_antenna_khz = Some(500_000);
    let files = vec!["a.rd3".to_string(), "b.rd3".to_string()];
    match args_to_action(&args, files.clone()) {
        CliAction::Run(params) => {
            assert_eq!(params.filepaths, files);
            assert_eq!(params.output_path, Some("out.nc".to_string()));
            assert_eq!(params.dem_path, Some("dem.tif".to_string()));
            assert_eq!(params.crs, Some("EPSG:32633".to_string()));
            assert!(params.quiet);
            assert!(params.no_export);
            assert_eq!(params.medium_velocity_um_per_ns, 168_000);
            assert_eq!(params.override_antenna_khz, Some(500_000));
        }
        _ => panic!("expected a run"),
    }
}

#[test]
fn test_merge_groups_thresholds() {
    // Profiles 0 and 1 lie within a second of one another; 2 and 3 as
    // well; the gap between 1 and 2 is wider than the threshold.
    let times = vec![0u64, 800, 5_000, 5_900];
    assert_eq!(merge_groups(&times, 1_000), vec![0, 0, 1, 1]);
    // A zero threshold groups only identical timestamps.
    let times = vec![0u64, 0, 1];
    assert_eq!(merge_groups(&times, 0), vec![0, 0, 1]);
    // No timestamps, no groups.
    assert_eq!(merge_groups(&Vec::new(), 10), Vec::<usize>::new());
}
