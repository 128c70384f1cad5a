//! Laws of `--config`: what each key sets, in capital letters or small ones, and that it sets
//! nothing else.
use crate::control::{control_setting, ControlCliModel};
use crate::display::{display_assignment, DisplayTarget, DisplayValue};
use crate::io::{io_setting, BindingArgModel, IoOptionsModel};
use crate::monitor::{monitor_setting, MonitorOptionsModel};
use crate::route::{route_setting, RouteOptionsModel};
use crate::rtt::{rtt_setting, RttOptionsModel};
use crate::send::{send_setting, SendOptionsModel};
use crate::text::{decimal, lemma_number_of_decimal, upper};
use crate::xbee_mock::{mock_setting, MockOptionsModel};
use crate::xbee_talk::{talk_setting, TalkOptionsModel};
use vstd::prelude::*;

verus! {

/// What tells the keys apart.
proof fn lemma_keys()
    ensures
        "CONTROLLER"@.len() == 10 && "CONTROLLER"@[0] == 'C' && "CONTROLLER"@[1] == 'O',
        "FORMAT"@.len() == 6 && "FORMAT"@[0] == 'F' && "FORMAT"@[1] == 'O',
        "RATE"@.len() == 4 && "RATE"@[0] == 'R' && "RATE"@[1] == 'A',
        "DISPLAY"@.len() == 7 && "DISPLAY"@[0] == 'D' && "DISPLAY"@[1] == 'I',
        "LOG_DIR"@.len() == 7 && "LOG_DIR"@[0] == 'L' && "LOG_DIR"@[1] == 'O',
        "TEMPLATE"@.len() == 8 && "TEMPLATE"@[0] == 'T' && "TEMPLATE"@[1] == 'E',
        "ROLE"@.len() == 4 && "ROLE"@[0] == 'R' && "ROLE"@[1] == 'O',
        "PAIR"@.len() == 4 && "PAIR"@[0] == 'P' && "PAIR"@[1] == 'A',
        "TX_FORMAT"@.len() == 9 && "TX_FORMAT"@[0] == 'T' && "TX_FORMAT"@[1] == 'X',
        "RX_FORMAT"@.len() == 9 && "RX_FORMAT"@[0] == 'R' && "RX_FORMAT"@[1] == 'X',
        "TRAFFIC_PATTERN"@.len() == 15 && "TRAFFIC_PATTERN"@[0] == 'T'
            && "TRAFFIC_PATTERN"@[1] == 'R',
        "BAUD"@.len() == 4 && "BAUD"@[0] == 'B' && "BAUD"@[1] == 'A',
        "PAYLOAD_SIZE"@.len() == 12 && "PAYLOAD_SIZE"@[0] == 'P' && "PAYLOAD_SIZE"@[1] == 'A',
        "COUNT"@.len() == 5 && "COUNT"@[0] == 'C' && "COUNT"@[1] == 'O',
        "INTERVAL_MS"@.len() == 11 && "INTERVAL_MS"@[0] == 'I' && "INTERVAL_MS"@[1] == 'N',
        "CONNECT_TIMEOUT_MS"@.len() == 18 && "CONNECT_TIMEOUT_MS"@[0] == 'C'
            && "CONNECT_TIMEOUT_MS"@[1] == 'O',
        "PROBE_TIMEOUT_MS"@.len() == 16 && "PROBE_TIMEOUT_MS"@[0] == 'P'
            && "PROBE_TIMEOUT_MS"@[1] == 'R',
{
    reveal_strlit("CONTROLLER");
    assert("CONTROLLER"@.len() == 10);
    reveal_strlit("FORMAT");
    assert("FORMAT"@.len() == 6);
    reveal_strlit("RATE");
    assert("RATE"@.len() == 4);
    reveal_strlit("DISPLAY");
    assert("DISPLAY"@.len() == 7);
    reveal_strlit("LOG_DIR");
    assert("LOG_DIR"@.len() == 7);
    reveal_strlit("TEMPLATE");
    assert("TEMPLATE"@.len() == 8);
    reveal_strlit("ROLE");
    assert("ROLE"@.len() == 4);
    reveal_strlit("PAIR");
    assert("PAIR"@.len() == 4);
    reveal_strlit("TX_FORMAT");
    assert("TX_FORMAT"@.len() == 9);
    reveal_strlit("RX_FORMAT");
    assert("RX_FORMAT"@.len() == 9);
    reveal_strlit("TRAFFIC_PATTERN");
    assert("TRAFFIC_PATTERN"@.len() == 15);
    reveal_strlit("BAUD");
    assert("BAUD"@.len() == 4);
    reveal_strlit("PAYLOAD_SIZE");
    assert("PAYLOAD_SIZE"@.len() == 12);
    reveal_strlit("COUNT");
    assert("COUNT"@.len() == 5);
    reveal_strlit("INTERVAL_MS");
    assert("INTERVAL_MS"@.len() == 11);
    reveal_strlit("CONNECT_TIMEOUT_MS");
    assert("CONNECT_TIMEOUT_MS"@.len() == 18);
    reveal_strlit("PROBE_TIMEOUT_MS");
    assert("PROBE_TIMEOUT_MS"@.len() == 16);
}

/// The keys of `control`.
pub proof fn law_control_keys(
    o: ControlCliModel,
    key: Seq<char>,
    value: Seq<char>,
    n: u32,
    a: (DisplayTarget, DisplayValue),
)
    ensures
        upper(key) == "CONTROLLER"@ ==> control_setting(o, (key, value))
            == Ok::<ControlCliModel, Seq<char>>(
            ControlCliModel { controller: Some(value), ..o },
        ),
        upper(key) == "FORMAT"@ ==> control_setting(o, (key, value))
            == Ok::<ControlCliModel, Seq<char>>(
            ControlCliModel { format: Some(BindingArgModel::Provided(value)), ..o },
        ),
        upper(key) == "RATE"@ ==> control_setting(o, (key, decimal(n as nat))) == Ok::<
            ControlCliModel,
            Seq<char>,
        >(ControlCliModel { rate_hz: Some(n), ..o }),
        upper(key) == "DISPLAY"@ && display_assignment(value) == Ok::<
            (DisplayTarget, DisplayValue),
            Seq<char>,
        >(a) ==> control_setting(o, (key, value)) == Ok::<ControlCliModel, Seq<char>>(
            ControlCliModel { display: o.display.assigned(a), ..o },
        ),
        upper(key) == "LOG_DIR"@ ==> control_setting(o, (key, value))
            == Ok::<ControlCliModel, Seq<char>>(
            ControlCliModel { log_dir: Some(value), ..o },
        ),
        upper(key) != "CONTROLLER"@ && upper(key) != "FORMAT"@ && upper(key) != "RATE"@
            && upper(key) != "DISPLAY"@ && upper(key) != "LOG_DIR"@
            ==> control_setting(o, (key, value)) is Err,
{
    lemma_keys();
    lemma_number_of_decimal(n as nat);
}

/// The keys of `io`.
pub proof fn law_io_keys(
    o: IoOptionsModel,
    key: Seq<char>,
    value: Seq<char>,
    a: (DisplayTarget, DisplayValue),
)
    ensures
        upper(key) == "FORMAT"@ ==> io_setting(o, (key, value)) == Ok::<IoOptionsModel, Seq<char>>(
            IoOptionsModel { format: Some(value), ..o },
        ),
        upper(key) == "DISPLAY"@ && display_assignment(value) == Ok::<
            (DisplayTarget, DisplayValue),
            Seq<char>,
        >(a) ==> io_setting(o, (key, value)) == Ok::<IoOptionsModel, Seq<char>>(
            IoOptionsModel { display: o.display.assigned(a), ..o },
        ),
        upper(key) == "LOG_DIR"@ ==> io_setting(o, (key, value)) == Ok::<IoOptionsModel, Seq<char>>(
            IoOptionsModel { log_dir: Some(value), ..o },
        ),
        upper(key) != "FORMAT"@ && upper(key) != "DISPLAY"@ && upper(key) != "LOG_DIR"@
            && upper(key) != "RATE"@ ==> io_setting(o, (key, value)) is Err,
{
    lemma_keys();
}

/// The keys of `monitor`.
pub proof fn law_monitor_keys(
    o: MonitorOptionsModel,
    key: Seq<char>,
    value: Seq<char>,
    a: (DisplayTarget, DisplayValue),
)
    ensures
        upper(key) == "DISPLAY"@ && display_assignment(value) == Ok::<
            (DisplayTarget, DisplayValue),
            Seq<char>,
        >(a) ==> monitor_setting(o, (key, value)) == Ok::<MonitorOptionsModel, Seq<char>>(
            MonitorOptionsModel { display: o.display.assigned(a), ..o },
        ),
        upper(key) == "LOG_DIR"@ ==> monitor_setting(o, (key, value))
            == Ok::<MonitorOptionsModel, Seq<char>>(
            MonitorOptionsModel { log_dir: Some(value), ..o },
        ),
        upper(key) != "DISPLAY"@ && upper(key) != "LOG_DIR"@
            ==> monitor_setting(o, (key, value)) is Err,
{
    lemma_keys();
}

/// The keys of `route`.
pub proof fn law_route_keys(
    o: RouteOptionsModel,
    key: Seq<char>,
    value: Seq<char>,
    a: (DisplayTarget, DisplayValue),
)
    ensures
        upper(key) == "TEMPLATE"@ ==> route_setting(o, (key, value))
            == Ok::<RouteOptionsModel, Seq<char>>(
            RouteOptionsModel { template: Some(value), ..o },
        ),
        upper(key) == "DISPLAY"@ && display_assignment(value) == Ok::<
            (DisplayTarget, DisplayValue),
            Seq<char>,
        >(a) ==> route_setting(o, (key, value)) == Ok::<RouteOptionsModel, Seq<char>>(
            RouteOptionsModel { display: o.display.assigned(a), ..o },
        ),
        upper(key) == "LOG_DIR"@ ==> route_setting(o, (key, value))
            == Ok::<RouteOptionsModel, Seq<char>>(
            RouteOptionsModel { log_dir: Some(value), ..o },
        ),
        upper(key) != "TEMPLATE"@ && upper(key) != "DISPLAY"@ && upper(key) != "LOG_DIR"@
            ==> route_setting(o, (key, value)) is Err,
{
    lemma_keys();
}

/// The keys of `xbee-rtt`.
pub proof fn law_rtt_keys(
    o: RttOptionsModel,
    key: Seq<char>,
    value: Seq<char>,
    n: u32,
)
    ensures
        upper(key) == "PAYLOAD_SIZE"@ ==> rtt_setting(o, (key, decimal(n as nat))) == Ok::<
            RttOptionsModel,
            Seq<char>,
        >(RttOptionsModel { payload_size: Some(n as usize), ..o }),
        upper(key) == "COUNT"@ ==> rtt_setting(o, (key, decimal(n as nat))) == Ok::<
            RttOptionsModel,
            Seq<char>,
        >(RttOptionsModel { probe_count: Some(n), ..o }),
        upper(key) == "INTERVAL_MS"@ ==> rtt_setting(o, (key, decimal(n as nat))) == Ok::<
            RttOptionsModel,
            Seq<char>,
        >(RttOptionsModel { interval_ms: Some(n), ..o }),
        upper(key) == "CONNECT_TIMEOUT_MS"@ ==> rtt_setting(o, (key, decimal(n as nat))) == Ok::<
            RttOptionsModel,
            Seq<char>,
        >(RttOptionsModel { connect_timeout_ms: Some(n), ..o }),
        upper(key) == "PROBE_TIMEOUT_MS"@ ==> rtt_setting(o, (key, decimal(n as nat))) == Ok::<
            RttOptionsModel,
            Seq<char>,
        >(RttOptionsModel { probe_timeout_ms: Some(n), ..o }),
        upper(key) != "PAYLOAD_SIZE"@ && upper(key) != "COUNT"@ && upper(key) != "INTERVAL_MS"@
            && upper(key) != "CONNECT_TIMEOUT_MS"@ && upper(key) != "PROBE_TIMEOUT_MS"@
            ==> rtt_setting(o, (key, value)) is Err,
{
    lemma_keys();
    lemma_number_of_decimal(n as nat);
}

/// The keys of `send`.
pub proof fn law_send_keys(
    o: SendOptionsModel,
    key: Seq<char>,
    value: Seq<char>,
    n: u32,
    a: (DisplayTarget, DisplayValue),
)
    ensures
        upper(key) == "RATE"@ ==> send_setting(o, (key, decimal(n as nat))) == Ok::<
            SendOptionsModel,
            Seq<char>,
        >(SendOptionsModel { rate_hz: Some(n), ..o }),
        upper(key) == "FORMAT"@ ==> send_setting(o, (key, value))
            == Ok::<SendOptionsModel, Seq<char>>(
            SendOptionsModel { format: Some(value), ..o },
        ),
        upper(key) == "DISPLAY"@ && display_assignment(value) == Ok::<
            (DisplayTarget, DisplayValue),
            Seq<char>,
        >(a) ==> send_setting(o, (key, value)) == Ok::<SendOptionsModel, Seq<char>>(
            SendOptionsModel { display: o.display.assigned(a), ..o },
        ),
        upper(key) == "LOG_DIR"@ ==> send_setting(o, (key, value))
            == Ok::<SendOptionsModel, Seq<char>>(
            SendOptionsModel { log_dir: Some(value), ..o },
        ),
        upper(key) != "RATE"@ && upper(key) != "FORMAT"@ && upper(key) != "DISPLAY"@
            && upper(key) != "LOG_DIR"@ ==> send_setting(o, (key, value)) is Err,
{
    lemma_keys();
    lemma_number_of_decimal(n as nat);
}

/// The keys of `xbee-mock`.
pub proof fn law_mock_keys(
    o: MockOptionsModel,
    key: Seq<char>,
    value: Seq<char>,
    n: u32,
)
    ensures
        upper(key) == "ROLE"@ ==> mock_setting(o, (key, value))
            == Ok::<MockOptionsModel, Seq<char>>(
            MockOptionsModel { role: Some(value), ..o },
        ),
        upper(key) == "PAIR"@ ==> mock_setting(o, (key, decimal(n as nat))) == Ok::<
            MockOptionsModel,
            Seq<char>,
        >(MockOptionsModel { pair_number: Some(n), ..o }),
        upper(key) == "TRAFFIC_PATTERN"@ ==> mock_setting(o, (key, value))
            == Ok::<MockOptionsModel, Seq<char>>(
            MockOptionsModel { traffic_pattern: Some(value), ..o },
        ),
        upper(key) == "LOG_DIR"@ ==> mock_setting(o, (key, value))
            == Ok::<MockOptionsModel, Seq<char>>(
            MockOptionsModel { log_dir: Some(value), ..o },
        ),
        upper(key) != "ROLE"@ && upper(key) != "PAIR"@ && upper(key) != "TRAFFIC_PATTERN"@
            && upper(key) != "LOG_DIR"@ && upper(key) != "TX_FORMAT"@ && upper(key) != "RX_FORMAT"@
            ==> mock_setting(o, (key, value)) is Err,
{
    lemma_keys();
    lemma_number_of_decimal(n as nat);
}

/// The keys of `xbee-talk`.
pub proof fn law_talk_keys(
    o: TalkOptionsModel,
    key: Seq<char>,
    value: Seq<char>,
    n: u32,
    a: (DisplayTarget, DisplayValue),
)
    ensures
        upper(key) == "BAUD"@ ==> talk_setting(o, (key, decimal(n as nat))) == Ok::<
            TalkOptionsModel,
            Seq<char>,
        >(TalkOptionsModel { baud: Some(n), ..o }),
        upper(key) == "DISPLAY"@ && display_assignment(value) == Ok::<
            (DisplayTarget, DisplayValue),
            Seq<char>,
        >(a) ==> talk_setting(o, (key, value)) == Ok::<TalkOptionsModel, Seq<char>>(
            TalkOptionsModel { display: o.display.assigned(a), ..o },
        ),
        upper(key) == "LOG_DIR"@ ==> talk_setting(o, (key, value))
            == Ok::<TalkOptionsModel, Seq<char>>(
            TalkOptionsModel { log_dir: Some(value), ..o },
        ),
        upper(key) != "BAUD"@ && upper(key) != "DISPLAY"@ && upper(key) != "LOG_DIR"@
            ==> talk_setting(o, (key, value)) is Err,
{
    lemma_keys();
    lemma_number_of_decimal(n as nat);
}

} // verus!
