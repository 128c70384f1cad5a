use acs::display::{LineBreakMode, PortDisplayMode};
use acs::pipeline::{
    ClassifyModuleConfig, FilterModuleConfig, PipelineDefinition, PipelineSpec,
    RouterModuleConfig, TransformChainConfig, TransformModuleConfig,
};
use acs::route::parse_route_args;
use acs::route_pipeline::{normalize_pipeline_spec, resolve_pipeline_spec};
use acs::session::{SessionInputSpec, SessionOutputSpec};

#[test]
fn parse_route_args_accepts_positional_template() {
    let options = parse_route_args(vec![
        String::from("merge"),
        String::from("-i"),
        String::from("in_a=/dev/ttyUSB0"),
        String::from("-o"),
        String::from("out_main=/dev/ttyUSB1"),
    ])
    .unwrap();

    assert_eq!(options.template.as_deref(), Some("merge"));
    assert_eq!(options.inputs.len(), 1);
    assert_eq!(options.outputs.len(), 1);
}

#[test]
fn parse_route_args_accepts_config_and_no_log() {
    let options = parse_route_args(vec![
        String::from("--config"),
        String::from(
            "TEMPLATE=one-to-one,DISPLAY=input:default=utf8+packet,LOG_DIR=tmp/route-logs",
        ),
        String::from("-i"),
        String::from("in_a=/dev/ttyUSB0@921600"),
        String::from("-o"),
        String::from("out_a=/dev/ttyUSB1@115200"),
        String::from("--no-log"),
    ])
    .unwrap();

    assert_eq!(options.template.as_deref(), Some("one-to-one"));
    assert_eq!(options.inputs.len(), 1);
    assert_eq!(options.outputs.len(), 1);
    assert_eq!(
        options.log_dir,
        Some(String::from("tmp/route-logs"))
    );
    assert!(options.no_log);
}

#[test]
fn normalize_pipeline_spec_fills_missing_inputs_and_outputs() {
    let spec = PipelineSpec {
        pipelines: vec![PipelineDefinition {
            id: String::from("merge"),
            inputs: Vec::new(),
            filter: FilterModuleConfig::AllowAll,
            transform: TransformChainConfig {
                modules: vec![TransformModuleConfig::Identity],
            },
            classify: ClassifyModuleConfig::Unclassified,
            router: RouterModuleConfig::Broadcast {
                outputs: Vec::new(),
            },
        }],
    };

    let normalized = normalize_pipeline_spec(
        spec,
        &vec![
            SessionInputSpec {
                id: String::from("in_a"),
                port: String::from("/dev/ttyUSB0"),
                baud_rate: 115200,
                display_mode: PortDisplayMode::HexUtf8,
                line_break_mode: LineBreakMode::Line,
            },
            SessionInputSpec {
                id: String::from("in_b"),
                port: String::from("/dev/ttyUSB1"),
                baud_rate: 115200,
                display_mode: PortDisplayMode::HexUtf8,
                line_break_mode: LineBreakMode::Line,
            },
        ],
        &vec![SessionOutputSpec {
            id: String::from("out_main"),
            port: String::from("/dev/ttyUSB2"),
            baud_rate: 115200,
            format_name: String::from("bytes"),
            display_mode: PortDisplayMode::HexUtf8,
        }],
    )
    .unwrap();

    assert_eq!(normalized.pipelines[0].inputs, vec!["in_a", "in_b"]);
    match &normalized.pipelines[0].router {
        RouterModuleConfig::Broadcast { outputs } => {
            assert_eq!(outputs, &vec![String::from("out_main")]);
        }
        other => panic!("unexpected router: {other:?}"),
    }
}

#[test]
fn builtin_one_to_one_pairs_inputs_and_outputs_in_order() {
    let resolved = resolve_pipeline_spec(
        Some("one-to-one"),
        &vec![
            SessionInputSpec {
                id: String::from("in_a"),
                port: String::from("/dev/ttyUSB0"),
                baud_rate: 115200,
                display_mode: PortDisplayMode::HexUtf8,
                line_break_mode: LineBreakMode::Line,
            },
            SessionInputSpec {
                id: String::from("in_b"),
                port: String::from("/dev/ttyUSB1"),
                baud_rate: 115200,
                display_mode: PortDisplayMode::HexUtf8,
                line_break_mode: LineBreakMode::Line,
            },
            SessionInputSpec {
                id: String::from("in_c"),
                port: String::from("/dev/ttyUSB2"),
                baud_rate: 115200,
                display_mode: PortDisplayMode::HexUtf8,
                line_break_mode: LineBreakMode::Line,
            },
        ],
        &vec![
            SessionOutputSpec {
                id: String::from("out_a"),
                port: String::from("/dev/ttyUSB3"),
                baud_rate: 115200,
                format_name: String::from("bytes"),
                display_mode: PortDisplayMode::HexUtf8,
            },
            SessionOutputSpec {
                id: String::from("out_b"),
                port: String::from("/dev/ttyUSB4"),
                baud_rate: 115200,
                format_name: String::from("bytes"),
                display_mode: PortDisplayMode::HexUtf8,
            },
        ],
    )
    .unwrap();

    match &resolved.pipelines[0].router {
        RouterModuleConfig::SourceMap {
            routes,
            default_outputs,
        } => {
            assert_eq!(routes.get("in_a"), Some(&vec![String::from("out_a")]));
            assert_eq!(routes.get("in_b"), Some(&vec![String::from("out_b")]));
            assert!(!routes.contains_key("in_c"));
            assert!(default_outputs.is_empty());
        }
        other => panic!("unexpected router: {other:?}"),
    }
}
