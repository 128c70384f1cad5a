use acs::config::{SendMonitorConfig, XbeeTestPortConfig};
use acs::config_file::{load_config, ConfigFile, ConfigSource};
use acs::args::PortSpec;
use acs::display::{LineBreakMode, PortDisplayMode};
use acs::format::OutputFormat;
use acs::json::JsonParser;
use acs::pipeline::TransformModuleConfig;

fn file_at(path: &str, base_dir: &str, text: &str) -> ConfigFile {
    ConfigFile {
        path: String::from(path),
        base_dir: String::from(base_dir),
        contents: Ok(String::from(text)),
    }
}

fn settings_file(text: &str) -> ConfigSource {
    ConfigSource::File(file_at("/etc/acs/config.json", "/etc/acs", text))
}

#[test]
fn parses_config_shape_used_by_example_file() {
    let config = r#"
    {
      "log_dir": "logs",
      "control": {
        "port": "/dev/ttyUSB0",
        "baud": 115200,
        "controller": "0",
        "format": "packetacv6",
        "raw": false,
        "display": {
          "default": "hex+utf8",
          "input": {
            "default": "utf8",
            "/dev/ttyUSB0": "utf8"
          },
          "output": {
            "default": "hex",
            "/dev/ttyUSB0": "hex"
          }
        },
        "monitor_ports": ["/dev/ttyUSB1"]
      },
      "send": {
        "port": "/dev/ttyUSB2",
        "baud": 115200,
        "format": "packetjfv1",
        "monitor_ports": ["/dev/ttyUSB3"],
        "display": {
          "output": {
            "default": "hex"
          }
        }
      },
      "monitor": {
        "ports": ["/dev/ttyUSB0", "/dev/ttyUSB1"],
        "baud": 115200,
        "raw": true,
        "display": {
          "default": "hex+utf8",
          "input": {
            "default": "hex",
            "/dev/ttyUSB1": "hex+ascii"
          }
        }
      },
      "route": {
        "baud": 115200,
        "raw": true,
        "inputs": [
          { "id": "in_a", "port": "/dev/ttyUSB0" },
          { "id": "in_b", "port": "/dev/ttyUSB1" }
        ],
        "outputs": [
          { "id": "out_main", "port": "/dev/ttyUSB2" }
        ],
        "pipelines": [
          {
            "id": "default",
            "inputs": ["in_a", "in_b"],
            "filter": { "module": "allow_all" },
            "transform": { "module": "identity" },
            "classify": { "module": "by_source" },
            "route": {
              "module": "broadcast",
              "outputs": ["out_main"]
            }
          }
        ]
      }
    }
    "#;

    assert!(JsonParser::new(config).parse().is_ok());
}

#[test]
fn load_config_accepts_port_objects_with_baud_and_display() {
    let text = r#"
        {
          "control": {
            "port": { "path": "/dev/ttyUSB0", "baud": 921600, "display": "hex" },
            "monitor_ports": [
              { "port": "/dev/ttyUSB1", "baud": 115200, "display": "utf8" }
            ]
          },
          "monitor": {
            "ports": [
              { "path": "/dev/ttyUSB2", "baud": 460800, "display": "hex+ascii" }
            ]
          },
          "route": {
            "inputs": [
              { "id": "in_a", "port": "/dev/ttyUSB3", "baud": 230400, "display": "utf8" }
            ],
            "outputs": [
              { "id": "out_main", "port": "/dev/ttyUSB4", "baud": 460800, "display": "hex" }
            ]
          }
        }
        "#;

    let config = load_config(settings_file(text)).unwrap();

    assert_eq!(
        config.control.port,
        Some(PortSpec {
            port: String::from("/dev/ttyUSB0"),
            baud: Some(921_600),
            display_mode: Some(PortDisplayMode::Hex),
            line_break_mode: None,
        })
    );
    assert_eq!(
        config.control.monitor_ports,
        vec![PortSpec {
            port: String::from("/dev/ttyUSB1"),
            baud: Some(115_200),
            display_mode: Some(PortDisplayMode::Utf8),
            line_break_mode: None,
        }]
    );
    assert_eq!(
        config.monitor.ports,
        vec![PortSpec {
            port: String::from("/dev/ttyUSB2"),
            baud: Some(460_800),
            display_mode: Some(PortDisplayMode::HexAscii),
            line_break_mode: None,
        }]
    );
    assert_eq!(config.route.inputs[0].baud, Some(230_400));
    assert_eq!(
        config.route.inputs[0].display_mode,
        Some(PortDisplayMode::Utf8)
    );
    assert_eq!(config.route.outputs[0].baud, Some(460_800));
    assert_eq!(
        config.route.outputs[0].display_mode,
        Some(PortDisplayMode::Hex)
    );

}

#[test]
fn load_config_accepts_send_outputs_with_per_output_settings() {
    let text = r#"
        {
          "send": {
            "outputs": [
              {
                "id": "main",
                "port": "/dev/ttyUSB0",
                "baud": 921600,
                "format": "packetacv6",
                "display": "hex+packet"
              },
              {
                "id": "sub",
                "port": "/dev/ttyUSB1",
                "baud": 115200,
                "format": "packetjfv1",
                "display": "utf8+line"
              }
            ]
          }
        }
        "#;

    let config = load_config(settings_file(text)).unwrap();

    assert_eq!(config.send.outputs.len(), 2);
    assert_eq!(config.send.outputs[0].id, "main");
    assert_eq!(config.send.outputs[0].format.as_deref(), Some("packetacv6"));
    assert_eq!(
        config.send.outputs[0].display_mode,
        Some(PortDisplayMode::Hex)
    );
    assert_eq!(
        config.send.outputs[0].line_break_mode,
        Some(LineBreakMode::Packet)
    );
    assert_eq!(config.send.outputs[1].id, "sub");
    assert_eq!(config.send.outputs[1].format.as_deref(), Some("packetjfv1"));
    assert_eq!(
        config.send.outputs[1].display_mode,
        Some(PortDisplayMode::Utf8)
    );
    assert_eq!(
        config.send.outputs[1].line_break_mode,
        Some(LineBreakMode::Line)
    );

}

#[test]
fn load_config_accepts_send_monitor_formats() {
    let text = r#"
        {
          "send": {
            "monitor_ports": [
              "/dev/ttyUSB9@115200,utf8+line,packetjfv1",
              { "port": "/dev/ttyUSB8", "baud": 921600, "display": "hex+packet", "format": "packetacv6" }
            ]
          }
        }
        "#;

    let config = load_config(settings_file(text)).unwrap();

    assert_eq!(config.send.monitor_ports.len(), 2);
    assert_eq!(config.send.monitor_ports[0].port, "/dev/ttyUSB9");
    assert_eq!(
        config.send.monitor_ports[0].format.as_deref(),
        Some("packetjfv1")
    );
    assert_eq!(
        config.send.monitor_ports[0].display_mode,
        Some(PortDisplayMode::Utf8)
    );
    assert_eq!(
        config.send.monitor_ports[0].line_break_mode,
        Some(LineBreakMode::Line)
    );
    assert_eq!(config.send.monitor_ports[1].port, "/dev/ttyUSB8");
    assert_eq!(
        config.send.monitor_ports[1].format.as_deref(),
        Some("packetacv6")
    );
    assert_eq!(
        config.send.monitor_ports[1].display_mode,
        Some(PortDisplayMode::Hex)
    );
    assert_eq!(
        config.send.monitor_ports[1].line_break_mode,
        Some(LineBreakMode::Packet)
    );

}

#[test]
fn load_config_accepts_xbee_test_ports_and_rates() {
    let text = r#"
        {
          "xbee_test": {
            "ports": [
              "base=/dev/ttyUSB0@921600",
              { "id": "rover", "port": "/dev/ttyUSB1", "baud": 115200 }
            ],
            "mode": "ping-pong",
            "ac_rate": 100,
            "jf_rate": 80
          }
        }
        "#;

    let config = load_config(settings_file(text)).unwrap();

    assert_eq!(
        config.xbee_test.ports,
        vec![
            XbeeTestPortConfig {
                id: String::from("base"),
                port: String::from("/dev/ttyUSB0"),
                baud: Some(921_600),
            },
            XbeeTestPortConfig {
                id: String::from("rover"),
                port: String::from("/dev/ttyUSB1"),
                baud: Some(115_200),
            }
        ]
    );
    assert_eq!(config.xbee_test.mode.as_deref(), Some("ping-pong"));
    assert_eq!(config.xbee_test.ac_rate_hz, Some(100));
    assert_eq!(config.xbee_test.jf_rate_hz, Some(80));

}

#[test]
fn load_config_maps_legacy_raw_to_packet_line_break() {
    let text = r#"
        {
          "monitor": {
            "raw": true
          },
          "control": {
            "raw": false
          }
        }
        "#;

    let config = load_config(settings_file(text)).unwrap();

    assert_eq!(
        config
            .monitor
            .display
            .resolve_line_break_input("/dev/ttyUSB0"),
        LineBreakMode::Packet
    );
    assert_eq!(
        config
            .control
            .display
            .resolve_line_break_input("/dev/ttyUSB0"),
        LineBreakMode::Line
    );

}

#[test]
fn load_config_rejects_legacy_arm9_transform_module_name() {
    let text = r#"
        {
          "route": {
            "inputs": [
              { "id": "in_a", "port": "/dev/ttyUSB0" }
            ],
            "outputs": [
              { "id": "out_main", "port": "/dev/ttyUSB1" }
            ],
            "pipelines": [
              {
                "id": "legacy_transform",
                "inputs": ["in_a"],
                "transform": {
                  "module": "arm9_encode"
                },
                "route": {
                  "module": "broadcast",
                  "outputs": ["out_main"]
                }
              }
            ]
          }
        }
        "#;

    let error = load_config(settings_file(text)).expect_err("legacy transform should fail");
    assert!(error.contains("unsupported transform module: arm9_encode"));

}

#[test]
fn load_config_accepts_generic_output_encode_transform_module() {
    let text = r#"
        {
          "route": {
            "inputs": [
              { "id": "in_a", "port": "/dev/ttyUSB0" }
            ],
            "outputs": [
              { "id": "out_main", "port": "/dev/ttyUSB1" }
            ],
            "pipelines": [
              {
                "id": "encode_packet",
                "inputs": ["in_a"],
                "transform": {
                  "module": "output_encode",
                  "format": "packetacv6"
                },
                "route": {
                  "module": "broadcast",
                  "outputs": ["out_main"]
                }
              }
            ]
          }
        }
        "#;

    let config = load_config(settings_file(text)).expect("generic output encode should parse");
    match &config.route.pipelines.pipelines[0].transform.modules[0] {
        TransformModuleConfig::OutputEncode { format } => {
            assert_eq!(*format, OutputFormat::PacketAcV6);
        }
        other => panic!("unexpected transform module: {other:?}"),
    }

}

#[test]
fn load_config_merges_json_files_from_directory() {
    let file_1 = file_at("/etc/acs/00-common.json", "/etc/acs", r#"
        {
          "log_dir": "logs",
          "send": {
            "format": "packetjfv1",
            "monitor_ports": ["/dev/ttyUSB2"]
          },
          "monitor": {
            "ports": ["/dev/ttyUSB0"]
          }
        }
        "#);
    let file_2 = file_at("/etc/acs/10-route.json", "/etc/acs", r#"
        {
          "route": {
            "baud": 115200,
            "inputs": [
              { "id": "in_a", "port": "/dev/ttyUSB0" }
            ],
            "outputs": [
              { "id": "out_main", "port": "/dev/ttyUSB1" }
            ]
          }
        }
        "#);
    let file_3 = file_at("/etc/acs/route/20-route-template.json", "/etc/acs/route", r#"
        {
          "route": {
            "inputs": [
              { "id": "in_a", "port": "/dev/ttyUSB9" },
              { "id": "in_b", "port": "/dev/ttyUSB2" }
            ],
            "templates": {
              "merge_pair": {
                "description": "merge bytes to main output",
                "pipelines": [
                  {
                    "id": "merge_pair",
                    "transform": {
                      "module": "identity"
                    },
                    "route": {
                      "module": "broadcast"
                    }
                  }
                ]
              }
            }
          }
        }
        "#);

    let config = load_config(ConfigSource::Directory(Ok(vec![file_3, file_1, file_2]))).unwrap();

    assert_eq!(config.log_dir, Some(String::from("/etc/acs/logs")));
    assert_eq!(config.send.format, Some(String::from("packetjfv1")));
    assert!(config.xbee_test.ports.is_empty());
    assert_eq!(
        config.send.monitor_ports,
        vec![SendMonitorConfig {
            port: String::from("/dev/ttyUSB2"),
            baud: None,
            format: None,
            display_mode: None,
            line_break_mode: None,
        }]
    );
    assert_eq!(
        config.monitor.ports,
        vec![PortSpec {
            port: String::from("/dev/ttyUSB0"),
            baud: None,
            display_mode: None,
            line_break_mode: None,
        }]
    );
    assert_eq!(config.route.baud, Some(115200));
    assert_eq!(config.route.inputs.len(), 2);
    assert_eq!(config.route.inputs[0].port, "/dev/ttyUSB9");
    assert_eq!(config.route.inputs[1].id, "in_b");
    assert_eq!(config.route.outputs.len(), 1);
    assert_eq!(
        config
            .route
            .templates
            .get("merge_pair")
            .and_then(|template| template.description.as_deref()),
        Some("merge bytes to main output")
    );

}
