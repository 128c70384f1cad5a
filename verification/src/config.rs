//! Settings of the commands, and how later settings go over earlier ones.
use crate::args::{PortSpec, PortSpecModel};
use crate::display::{LineBreakMode, PortDisplayConfig, PortDisplayMode, PortDisplayModel};
use crate::merge::{all_placed, later, merge_keyed, merge_option, Keyed};
use crate::pipeline::{PipelineDefinition, PipelineModel, PipelineSpec};
use crate::table::{inserted, Table};
use vstd::prelude::*;

verus! {

// ---------------------------------------------------------------------------
// Ports and templates
// ---------------------------------------------------------------------------

impl Keyed for PortSpec {
    open spec fn key_of(m: PortSpecModel) -> Seq<char> {
        m.port
    }

    fn key(&self) -> (key: &str) {
        self.port.as_str()
    }
}

/// Takes ports over; one that is there already is replaced.
pub fn merge_port_specs(target: &mut Vec<PortSpec>, specs: Vec<PortSpec>)
    ensures
        final(target).deep_view() == all_placed::<PortSpec>(
            old(target).deep_view(),
            specs.deep_view(),
        ),
{
    merge_keyed(target, specs);
}

/// An output to send to.
#[derive(Debug)]
pub struct SendOutputConfig {
    pub id: String,
    pub port: String,
    pub baud: Option<u32>,
    pub format: Option<String>,
    pub display_mode: Option<PortDisplayMode>,
    pub line_break_mode: Option<LineBreakMode>,
}

#[verifier::ext_equal]
pub struct SendOutputModel {
    pub id: Seq<char>,
    pub port: Seq<char>,
    pub baud: Option<u32>,
    pub format: Option<Seq<char>>,
    pub display_mode: Option<PortDisplayMode>,
    pub line_break_mode: Option<LineBreakMode>,
}

impl DeepView for SendOutputConfig {
    type V = SendOutputModel;

    open spec fn deep_view(&self) -> SendOutputModel {
        SendOutputModel {
            id: self.id@,
            port: self.port@,
            baud: self.baud,
            format: self.format.deep_view(),
            display_mode: self.display_mode,
            line_break_mode: self.line_break_mode,
        }
    }
}

impl Keyed for SendOutputConfig {
    open spec fn key_of(m: SendOutputModel) -> Seq<char> {
        m.id
    }

    fn key(&self) -> (key: &str) {
        self.id.as_str()
    }
}

/// Takes outputs over; one with the id of another replaces it.
pub fn merge_send_outputs(target: &mut Vec<SendOutputConfig>, outputs: Vec<SendOutputConfig>)
    ensures
        final(target).deep_view() == all_placed::<SendOutputConfig>(
            old(target).deep_view(),
            outputs.deep_view(),
        ),
{
    merge_keyed(target, outputs);
}

/// A port to watch while sending.
#[derive(Debug, PartialEq, Eq)]
pub struct SendMonitorConfig {
    pub port: String,
    pub baud: Option<u32>,
    pub format: Option<String>,
    pub display_mode: Option<PortDisplayMode>,
    pub line_break_mode: Option<LineBreakMode>,
}

#[verifier::ext_equal]
pub struct SendMonitorModel {
    pub port: Seq<char>,
    pub baud: Option<u32>,
    pub format: Option<Seq<char>>,
    pub display_mode: Option<PortDisplayMode>,
    pub line_break_mode: Option<LineBreakMode>,
}

impl DeepView for SendMonitorConfig {
    type V = SendMonitorModel;

    open spec fn deep_view(&self) -> SendMonitorModel {
        SendMonitorModel {
            port: self.port@,
            baud: self.baud,
            format: self.format.deep_view(),
            display_mode: self.display_mode,
            line_break_mode: self.line_break_mode,
        }
    }
}

impl Keyed for SendMonitorConfig {
    open spec fn key_of(m: SendMonitorModel) -> Seq<char> {
        m.port
    }

    fn key(&self) -> (key: &str) {
        self.port.as_str()
    }
}

/// Takes monitors over; one with the port of another replaces it.
pub fn merge_send_monitors(target: &mut Vec<SendMonitorConfig>, monitors: Vec<SendMonitorConfig>)
    ensures
        final(target).deep_view() == all_placed::<SendMonitorConfig>(
            old(target).deep_view(),
            monitors.deep_view(),
        ),
{
    merge_keyed(target, monitors);
}

/// A side of an XBee test.
#[derive(Debug, PartialEq, Eq)]
pub struct XbeeTestPortConfig {
    pub id: String,
    pub port: String,
    pub baud: Option<u32>,
}

#[verifier::ext_equal]
pub struct XbeeTestPortModel {
    pub id: Seq<char>,
    pub port: Seq<char>,
    pub baud: Option<u32>,
}

impl DeepView for XbeeTestPortConfig {
    type V = XbeeTestPortModel;

    open spec fn deep_view(&self) -> XbeeTestPortModel {
        XbeeTestPortModel {
            id: self.id@,
            port: self.port@,
            baud: self.baud,
        }
    }
}

impl Keyed for XbeeTestPortConfig {
    open spec fn key_of(m: XbeeTestPortModel) -> Seq<char> {
        m.id
    }

    fn key(&self) -> (key: &str) {
        self.id.as_str()
    }
}

/// Takes ports over; one with the id of another replaces it.
pub fn merge_xbee_test_ports(target: &mut Vec<XbeeTestPortConfig>, ports: Vec<XbeeTestPortConfig>)
    ensures
        final(target).deep_view() == all_placed::<XbeeTestPortConfig>(
            old(target).deep_view(),
            ports.deep_view(),
        ),
{
    merge_keyed(target, ports);
}

/// An input to route from.
#[derive(Debug)]
pub struct RouteInputConfig {
    pub id: String,
    pub port: String,
    pub baud: Option<u32>,
    pub display_mode: Option<PortDisplayMode>,
    pub line_break_mode: Option<LineBreakMode>,
}

#[verifier::ext_equal]
pub struct RouteInputModel {
    pub id: Seq<char>,
    pub port: Seq<char>,
    pub baud: Option<u32>,
    pub display_mode: Option<PortDisplayMode>,
    pub line_break_mode: Option<LineBreakMode>,
}

impl DeepView for RouteInputConfig {
    type V = RouteInputModel;

    open spec fn deep_view(&self) -> RouteInputModel {
        RouteInputModel {
            id: self.id@,
            port: self.port@,
            baud: self.baud,
            display_mode: self.display_mode,
            line_break_mode: self.line_break_mode,
        }
    }
}

impl Keyed for RouteInputConfig {
    open spec fn key_of(m: RouteInputModel) -> Seq<char> {
        m.id
    }

    fn key(&self) -> (key: &str) {
        self.id.as_str()
    }
}

/// Takes inputs over; one with the id of another replaces it.
pub fn merge_route_inputs(target: &mut Vec<RouteInputConfig>, inputs: Vec<RouteInputConfig>)
    ensures
        final(target).deep_view() == all_placed::<RouteInputConfig>(
            old(target).deep_view(),
            inputs.deep_view(),
        ),
{
    merge_keyed(target, inputs);
}

/// An output to route to.
#[derive(Debug)]
pub struct RouteOutputConfig {
    pub id: String,
    pub port: String,
    pub baud: Option<u32>,
    pub display_mode: Option<PortDisplayMode>,
}

#[verifier::ext_equal]
pub struct RouteOutputModel {
    pub id: Seq<char>,
    pub port: Seq<char>,
    pub baud: Option<u32>,
    pub display_mode: Option<PortDisplayMode>,
}

impl DeepView for RouteOutputConfig {
    type V = RouteOutputModel;

    open spec fn deep_view(&self) -> RouteOutputModel {
        RouteOutputModel {
            id: self.id@,
            port: self.port@,
            baud: self.baud,
            display_mode: self.display_mode,
        }
    }
}

impl Keyed for RouteOutputConfig {
    open spec fn key_of(m: RouteOutputModel) -> Seq<char> {
        m.id
    }

    fn key(&self) -> (key: &str) {
        self.id.as_str()
    }
}

/// Takes outputs over; one with the id of another replaces it.
pub fn merge_route_outputs(target: &mut Vec<RouteOutputConfig>, outputs: Vec<RouteOutputConfig>)
    ensures
        final(target).deep_view() == all_placed::<RouteOutputConfig>(
            old(target).deep_view(),
            outputs.deep_view(),
        ),
{
    merge_keyed(target, outputs);
}

/// Pipelines under a name.
#[derive(Debug)]
pub struct RouteTemplateConfig {
    pub id: String,
    pub description: Option<String>,
    pub pipelines: PipelineSpec,
}

#[verifier::ext_equal]
pub struct RouteTemplateModel {
    pub id: Seq<char>,
    pub description: Option<Seq<char>>,
    pub pipelines: Seq<PipelineModel>,
}

impl DeepView for RouteTemplateConfig {
    type V = RouteTemplateModel;

    open spec fn deep_view(&self) -> RouteTemplateModel {
        RouteTemplateModel {
            id: self.id@,
            description: self.description.deep_view(),
            pipelines: self.pipelines.deep_view(),
        }
    }
}

/// Templates under their names.
pub type TemplateTable = Seq<(Seq<char>, RouteTemplateModel)>;

/// The templates with others put under the names that these carry.
pub open spec fn templates_merged(t: TemplateTable, other: TemplateTable) -> TemplateTable
    decreases other.len(),
{
    if other.len() == 0 {
        t
    } else {
        let template = other.last().1;
        inserted(templates_merged(t, other.drop_last()), template.id, template)
    }
}

fn merge_templates(
    target: &mut Table<RouteTemplateConfig>,
    other: Table<RouteTemplateConfig>,
)
    ensures
        final(target).deep_view() == templates_merged(
            old(target).deep_view(),
            other.deep_view(),
        ),
{
    let mut rest = other;
    let ghost start = target.deep_view();
    let ghost all = rest.deep_view();
    let ghost mut done: int = 0;
    assert(all.skip(0) == all);
    assert(all.take(0) == Seq::<(Seq<char>, RouteTemplateModel)>::empty());
    while rest.len() > 0
        invariant
            0 <= done <= all.len(),
            rest.deep_view() == all.skip(done),
            target.deep_view() == templates_merged(start, all.take(done)),
        decreases rest.deep_view().len(),
    {
        let ghost before = rest.deep_view();
        if let Some((_, template)) = rest.pop_first() {
            proof {
                assert(before[0] == all[done]);
                assert(all.take(done + 1).drop_last() == all.take(done));
                assert(all.take(done + 1).last() == all[done]);
                assert(all.skip(done).skip(1) == all.skip(done + 1));
            }
            target.insert(template.id.clone(), template);
            proof {
                done = done + 1;
            }
        }
    }
    assert(all.take(done) == all);
}

// ---------------------------------------------------------------------------
// Commands
// ---------------------------------------------------------------------------

/// Settings of `control`.
#[derive(Debug)]
pub struct ControlConfig {
    pub port: Option<PortSpec>,
    pub baud: Option<u32>,
    pub controller: Option<String>,
    pub format: Option<String>,
    pub display: PortDisplayConfig,
    pub monitor_ports: Vec<PortSpec>,
    pub log_dir: Option<String>,
}

#[verifier::ext_equal]
pub struct ControlModel {
    pub port: Option<PortSpecModel>,
    pub baud: Option<u32>,
    pub controller: Option<Seq<char>>,
    pub format: Option<Seq<char>>,
    pub display: PortDisplayModel,
    pub monitor_ports: Seq<PortSpecModel>,
    pub log_dir: Option<Seq<char>>,
}

impl DeepView for ControlConfig {
    type V = ControlModel;

    open spec fn deep_view(&self) -> ControlModel {
        ControlModel {
            port: self.port.deep_view(),
            baud: self.baud,
            controller: self.controller.deep_view(),
            format: self.format.deep_view(),
            display: self.display.deep_view(),
            monitor_ports: self.monitor_ports.deep_view(),
            log_dir: self.log_dir.deep_view(),
        }
    }
}

impl ControlModel {
    /// Nothing set.
    pub open spec fn empty() -> ControlModel {
        ControlModel {
            port: None,
            baud: None,
            controller: None,
            format: None,
            display: PortDisplayModel::empty(),
            monitor_ports: Seq::empty(),
            log_dir: None,
        }
    }

    /// The settings with others put over them.
    pub open spec fn merged(self, other: ControlModel) -> ControlModel {
        ControlModel {
            port: later(self.port, other.port),
            baud: later(self.baud, other.baud),
            controller: later(self.controller, other.controller),
            format: later(self.format, other.format),
            display: self.display.merged(other.display),
            monitor_ports: all_placed::<PortSpec>(self.monitor_ports, other.monitor_ports),
            log_dir: later(self.log_dir, other.log_dir),
        }
    }
}

impl Default for ControlConfig {
    fn default() -> (config: ControlConfig)
        ensures
            config.deep_view() == ControlModel::empty(),
    {
        let config = ControlConfig {
            port: None,
            baud: None,
            controller: None,
            format: None,
            display: PortDisplayConfig::default(),
            monitor_ports: Vec::new(),
            log_dir: None,
        };
        assert(config.deep_view() =~= ControlModel::empty());
        config
    }
}

impl ControlConfig {
    /// Puts other settings over these.
    pub fn merge_from(&mut self, other: ControlConfig)
        ensures
            final(self).deep_view() == old(self).deep_view().merged(other.deep_view()),
    {
        let ghost before = self.deep_view();
        let ghost over = other.deep_view();
        merge_option(&mut self.port, other.port);
        merge_option(&mut self.baud, other.baud);
        merge_option(&mut self.controller, other.controller);
        merge_option(&mut self.format, other.format);
        self.display.merge_from(other.display);
        merge_port_specs(&mut self.monitor_ports, other.monitor_ports);
        merge_option(&mut self.log_dir, other.log_dir);
        assert(self.deep_view() =~= before.merged(over));
    }
}

/// Settings of `monitor`.
#[derive(Debug)]
pub struct MonitorConfig {
    pub ports: Vec<PortSpec>,
    pub baud: Option<u32>,
    pub display: PortDisplayConfig,
    pub log_dir: Option<String>,
}

#[verifier::ext_equal]
pub struct MonitorModel {
    pub ports: Seq<PortSpecModel>,
    pub baud: Option<u32>,
    pub display: PortDisplayModel,
    pub log_dir: Option<Seq<char>>,
}

impl DeepView for MonitorConfig {
    type V = MonitorModel;

    open spec fn deep_view(&self) -> MonitorModel {
        MonitorModel {
            ports: self.ports.deep_view(),
            baud: self.baud,
            display: self.display.deep_view(),
            log_dir: self.log_dir.deep_view(),
        }
    }
}

impl MonitorModel {
    /// Nothing set.
    pub open spec fn empty() -> MonitorModel {
        MonitorModel {
            ports: Seq::empty(),
            baud: None,
            display: PortDisplayModel::empty(),
            log_dir: None,
        }
    }

    /// The settings with others put over them.
    pub open spec fn merged(self, other: MonitorModel) -> MonitorModel {
        MonitorModel {
            ports: all_placed::<PortSpec>(self.ports, other.ports),
            baud: later(self.baud, other.baud),
            display: self.display.merged(other.display),
            log_dir: later(self.log_dir, other.log_dir),
        }
    }
}

impl Default for MonitorConfig {
    fn default() -> (config: MonitorConfig)
        ensures
            config.deep_view() == MonitorModel::empty(),
    {
        let config = MonitorConfig {
            ports: Vec::new(),
            baud: None,
            display: PortDisplayConfig::default(),
            log_dir: None,
        };
        assert(config.deep_view() =~= MonitorModel::empty());
        config
    }
}

impl MonitorConfig {
    /// Puts other settings over these.
    pub fn merge_from(&mut self, other: MonitorConfig)
        ensures
            final(self).deep_view() == old(self).deep_view().merged(other.deep_view()),
    {
        let ghost before = self.deep_view();
        let ghost over = other.deep_view();
        merge_port_specs(&mut self.ports, other.ports);
        merge_option(&mut self.baud, other.baud);
        self.display.merge_from(other.display);
        merge_option(&mut self.log_dir, other.log_dir);
        assert(self.deep_view() =~= before.merged(over));
    }
}

/// Settings of `send`.
#[derive(Debug)]
pub struct SendConfig {
    pub port: Option<PortSpec>,
    pub outputs: Vec<SendOutputConfig>,
    pub baud: Option<u32>,
    pub format: Option<String>,
    pub display: PortDisplayConfig,
    pub monitor_ports: Vec<SendMonitorConfig>,
    pub log_dir: Option<String>,
}

#[verifier::ext_equal]
pub struct SendModel {
    pub port: Option<PortSpecModel>,
    pub outputs: Seq<SendOutputModel>,
    pub baud: Option<u32>,
    pub format: Option<Seq<char>>,
    pub display: PortDisplayModel,
    pub monitor_ports: Seq<SendMonitorModel>,
    pub log_dir: Option<Seq<char>>,
}

impl DeepView for SendConfig {
    type V = SendModel;

    open spec fn deep_view(&self) -> SendModel {
        SendModel {
            port: self.port.deep_view(),
            outputs: self.outputs.deep_view(),
            baud: self.baud,
            format: self.format.deep_view(),
            display: self.display.deep_view(),
            monitor_ports: self.monitor_ports.deep_view(),
            log_dir: self.log_dir.deep_view(),
        }
    }
}

impl SendModel {
    /// Nothing set.
    pub open spec fn empty() -> SendModel {
        SendModel {
            port: None,
            outputs: Seq::empty(),
            baud: None,
            format: None,
            display: PortDisplayModel::empty(),
            monitor_ports: Seq::empty(),
            log_dir: None,
        }
    }

    /// The settings with others put over them.
    pub open spec fn merged(self, other: SendModel) -> SendModel {
        SendModel {
            port: later(self.port, other.port),
            outputs: all_placed::<SendOutputConfig>(self.outputs, other.outputs),
            baud: later(self.baud, other.baud),
            format: later(self.format, other.format),
            display: self.display.merged(other.display),
            monitor_ports: all_placed::<SendMonitorConfig>(self.monitor_ports, other.monitor_ports),
            log_dir: later(self.log_dir, other.log_dir),
        }
    }
}

impl Default for SendConfig {
    fn default() -> (config: SendConfig)
        ensures
            config.deep_view() == SendModel::empty(),
    {
        let config = SendConfig {
            port: None,
            outputs: Vec::new(),
            baud: None,
            format: None,
            display: PortDisplayConfig::default(),
            monitor_ports: Vec::new(),
            log_dir: None,
        };
        assert(config.deep_view() =~= SendModel::empty());
        config
    }
}

impl SendConfig {
    /// Puts other settings over these.
    pub fn merge_from(&mut self, other: SendConfig)
        ensures
            final(self).deep_view() == old(self).deep_view().merged(other.deep_view()),
    {
        let ghost before = self.deep_view();
        let ghost over = other.deep_view();
        merge_option(&mut self.port, other.port);
        merge_send_outputs(&mut self.outputs, other.outputs);
        merge_option(&mut self.baud, other.baud);
        merge_option(&mut self.format, other.format);
        self.display.merge_from(other.display);
        merge_send_monitors(&mut self.monitor_ports, other.monitor_ports);
        merge_option(&mut self.log_dir, other.log_dir);
        assert(self.deep_view() =~= before.merged(over));
    }
}

/// Settings of `xbee_test`.
#[derive(Debug)]
pub struct XbeeTestConfig {
    pub ports: Vec<XbeeTestPortConfig>,
    pub mode: Option<String>,
    pub ac_rate_hz: Option<u32>,
    pub jf_rate_hz: Option<u32>,
    pub log_dir: Option<String>,
}

#[verifier::ext_equal]
pub struct XbeeTestModel {
    pub ports: Seq<XbeeTestPortModel>,
    pub mode: Option<Seq<char>>,
    pub ac_rate_hz: Option<u32>,
    pub jf_rate_hz: Option<u32>,
    pub log_dir: Option<Seq<char>>,
}

impl DeepView for XbeeTestConfig {
    type V = XbeeTestModel;

    open spec fn deep_view(&self) -> XbeeTestModel {
        XbeeTestModel {
            ports: self.ports.deep_view(),
            mode: self.mode.deep_view(),
            ac_rate_hz: self.ac_rate_hz,
            jf_rate_hz: self.jf_rate_hz,
            log_dir: self.log_dir.deep_view(),
        }
    }
}

impl XbeeTestModel {
    /// Nothing set.
    pub open spec fn empty() -> XbeeTestModel {
        XbeeTestModel {
            ports: Seq::empty(),
            mode: None,
            ac_rate_hz: None,
            jf_rate_hz: None,
            log_dir: None,
        }
    }

    /// The settings with others put over them.
    pub open spec fn merged(self, other: XbeeTestModel) -> XbeeTestModel {
        XbeeTestModel {
            ports: all_placed::<XbeeTestPortConfig>(self.ports, other.ports),
            mode: later(self.mode, other.mode),
            ac_rate_hz: later(self.ac_rate_hz, other.ac_rate_hz),
            jf_rate_hz: later(self.jf_rate_hz, other.jf_rate_hz),
            log_dir: later(self.log_dir, other.log_dir),
        }
    }
}

impl Default for XbeeTestConfig {
    fn default() -> (config: XbeeTestConfig)
        ensures
            config.deep_view() == XbeeTestModel::empty(),
    {
        let config = XbeeTestConfig {
            ports: Vec::new(),
            mode: None,
            ac_rate_hz: None,
            jf_rate_hz: None,
            log_dir: None,
        };
        assert(config.deep_view() =~= XbeeTestModel::empty());
        config
    }
}

impl XbeeTestConfig {
    /// Puts other settings over these.
    pub fn merge_from(&mut self, other: XbeeTestConfig)
        ensures
            final(self).deep_view() == old(self).deep_view().merged(other.deep_view()),
    {
        let ghost before = self.deep_view();
        let ghost over = other.deep_view();
        merge_xbee_test_ports(&mut self.ports, other.ports);
        merge_option(&mut self.mode, other.mode);
        merge_option(&mut self.ac_rate_hz, other.ac_rate_hz);
        merge_option(&mut self.jf_rate_hz, other.jf_rate_hz);
        merge_option(&mut self.log_dir, other.log_dir);
        assert(self.deep_view() =~= before.merged(over));
    }
}

/// Settings of `route`.
#[derive(Debug)]
pub struct RouteConfig {
    pub inputs: Vec<RouteInputConfig>,
    pub outputs: Vec<RouteOutputConfig>,
    pub pipelines: PipelineSpec,
    pub template: Option<String>,
    pub templates: Table<RouteTemplateConfig>,
    pub baud: Option<u32>,
    pub display: PortDisplayConfig,
    pub log_dir: Option<String>,
}

#[verifier::ext_equal]
pub struct RouteModel {
    pub inputs: Seq<RouteInputModel>,
    pub outputs: Seq<RouteOutputModel>,
    pub pipelines: Seq<PipelineModel>,
    pub template: Option<Seq<char>>,
    pub templates: TemplateTable,
    pub baud: Option<u32>,
    pub display: PortDisplayModel,
    pub log_dir: Option<Seq<char>>,
}

impl DeepView for RouteConfig {
    type V = RouteModel;

    open spec fn deep_view(&self) -> RouteModel {
        RouteModel {
            inputs: self.inputs.deep_view(),
            outputs: self.outputs.deep_view(),
            pipelines: self.pipelines.deep_view(),
            template: self.template.deep_view(),
            templates: self.templates.deep_view(),
            baud: self.baud,
            display: self.display.deep_view(),
            log_dir: self.log_dir.deep_view(),
        }
    }
}

impl RouteModel {
    /// Nothing set.
    pub open spec fn empty() -> RouteModel {
        RouteModel {
            inputs: Seq::empty(),
            outputs: Seq::empty(),
            pipelines: Seq::empty(),
            template: None,
            templates: Seq::empty(),
            baud: None,
            display: PortDisplayModel::empty(),
            log_dir: None,
        }
    }

    /// The settings with others put over them.
    pub open spec fn merged(self, other: RouteModel) -> RouteModel {
        RouteModel {
            inputs: all_placed::<RouteInputConfig>(self.inputs, other.inputs),
            outputs: all_placed::<RouteOutputConfig>(self.outputs, other.outputs),
            pipelines: all_placed::<PipelineDefinition>(self.pipelines, other.pipelines),
            template: later(self.template, other.template),
            templates: templates_merged(self.templates, other.templates),
            baud: later(self.baud, other.baud),
            display: self.display.merged(other.display),
            log_dir: later(self.log_dir, other.log_dir),
        }
    }
}

impl Default for RouteConfig {
    fn default() -> (config: RouteConfig)
        ensures
            config.deep_view() == RouteModel::empty(),
    {
        let config = RouteConfig {
            inputs: Vec::new(),
            outputs: Vec::new(),
            pipelines: PipelineSpec::default(),
            template: None,
            templates: Table::new(),
            baud: None,
            display: PortDisplayConfig::default(),
            log_dir: None,
        };
        assert(config.deep_view() =~= RouteModel::empty());
        config
    }
}

impl RouteConfig {
    /// Puts other settings over these.
    pub fn merge_from(&mut self, other: RouteConfig)
        ensures
            final(self).deep_view() == old(self).deep_view().merged(other.deep_view()),
    {
        let ghost before = self.deep_view();
        let ghost over = other.deep_view();
        merge_route_inputs(&mut self.inputs, other.inputs);
        merge_route_outputs(&mut self.outputs, other.outputs);
        self.pipelines.merge_from(other.pipelines);
        merge_option(&mut self.template, other.template);
        merge_templates(&mut self.templates, other.templates);
        merge_option(&mut self.baud, other.baud);
        self.display.merge_from(other.display);
        merge_option(&mut self.log_dir, other.log_dir);
        assert(self.deep_view() =~= before.merged(over));
    }
}

/// Settings of all commands.
#[derive(Debug)]
pub struct AppConfig {
    pub log_dir: Option<String>,
    pub control: ControlConfig,
    pub send: SendConfig,
    pub xbee_test: XbeeTestConfig,
    pub monitor: MonitorConfig,
    pub route: RouteConfig,
}

#[verifier::ext_equal]
pub struct AppModel {
    pub log_dir: Option<Seq<char>>,
    pub control: ControlModel,
    pub send: SendModel,
    pub xbee_test: XbeeTestModel,
    pub monitor: MonitorModel,
    pub route: RouteModel,
}

impl DeepView for AppConfig {
    type V = AppModel;

    open spec fn deep_view(&self) -> AppModel {
        AppModel {
            log_dir: self.log_dir.deep_view(),
            control: self.control.deep_view(),
            send: self.send.deep_view(),
            xbee_test: self.xbee_test.deep_view(),
            monitor: self.monitor.deep_view(),
            route: self.route.deep_view(),
        }
    }
}

impl AppModel {
    /// Nothing set.
    pub open spec fn empty() -> AppModel {
        AppModel {
            log_dir: None,
            control: ControlModel::empty(),
            send: SendModel::empty(),
            xbee_test: XbeeTestModel::empty(),
            monitor: MonitorModel::empty(),
            route: RouteModel::empty(),
        }
    }

    /// The settings with others put over them.
    pub open spec fn merged(self, other: AppModel) -> AppModel {
        AppModel {
            log_dir: later(self.log_dir, other.log_dir),
            control: self.control.merged(other.control),
            send: self.send.merged(other.send),
            xbee_test: self.xbee_test.merged(other.xbee_test),
            monitor: self.monitor.merged(other.monitor),
            route: self.route.merged(other.route),
        }
    }
}

impl Default for AppConfig {
    fn default() -> (config: AppConfig)
        ensures
            config.deep_view() == AppModel::empty(),
    {
        let config = AppConfig {
            log_dir: None,
            control: ControlConfig::default(),
            send: SendConfig::default(),
            xbee_test: XbeeTestConfig::default(),
            monitor: MonitorConfig::default(),
            route: RouteConfig::default(),
        };
        assert(config.deep_view() =~= AppModel::empty());
        config
    }
}

impl AppConfig {
    /// Puts other settings over these.
    pub fn merge_from(&mut self, other: AppConfig)
        ensures
            final(self).deep_view() == old(self).deep_view().merged(other.deep_view()),
    {
        let ghost before = self.deep_view();
        let ghost over = other.deep_view();
        merge_option(&mut self.log_dir, other.log_dir);
        self.control.merge_from(other.control);
        self.send.merge_from(other.send);
        self.xbee_test.merge_from(other.xbee_test);
        self.monitor.merge_from(other.monitor);
        self.route.merge_from(other.route);
        assert(self.deep_view() =~= before.merged(over));
    }
}

proof fn lemma_display_merges_nothing(display: PortDisplayModel)
    ensures
        display.merged(PortDisplayModel::empty()) == display,
{
    assert(display.modes.union_prefer_right(Map::empty()) =~= display.modes);
    assert(display.line_breaks.union_prefer_right(Map::empty()) =~= display.line_breaks);
}

/// Settings that say nothing leave the settings before them as they are.
pub proof fn law_merging_nothing_changes_nothing(config: AppModel)
    ensures
        config.merged(AppModel::empty()) == config,
{
    lemma_display_merges_nothing(config.control.display);
    lemma_display_merges_nothing(config.send.display);
    lemma_display_merges_nothing(config.monitor.display);
    lemma_display_merges_nothing(config.route.display);
    assert(config.merged(AppModel::empty()) =~= config);
}

} // verus!
