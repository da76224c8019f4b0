use cnx::strings::ParseError;
use cnx::text::{
    pango_markup_render, pango_markup_single_render, Attributes, Color, Font, Padding,
    PagerAttributes, Text, Threshold,
};
use cnx::widgets::active_window_title::ActiveWindowTitle;
use cnx::widgets::battery_bsd;
use cnx::widgets::battery_linux::{Battery, BatteryError, BatteryInfo, Status};
use cnx::widgets::clock::Clock;
use cnx::widgets::command::Command;
use cnx::widgets::cpu::{Cpu, CpuData, CpuError};
use cnx::widgets::disk_usage::{disk_string, DiskInfo, DiskUsage};
use cnx::widgets::leftwm::{LeftWM, LeftWMAttributes, State, Tag, Workspace};
use cnx::widgets::pager::{non_empty_desktops, Pager, Window};
use cnx::widgets::volume_bsd;
use cnx::widgets::volume_linux::{AlsaEventStream, Volume};
use cnx::widgets::weather::{weather_sky_condition, Weather};
use cnx::widgets::wireless::{Wireless, WirelessInfo};
use cnx::xcb::{property_changed, Step, XcbEventStream};
use std::str::FromStr;

fn attr() -> Attributes {
    colored(Color::white())
}

fn colored(fg_color: Color) -> Attributes {
    Attributes {
        font: Font::new("SourceCodePro 21"),
        fg_color,
        bg_color: None,
        padding: Padding::new(8, 8, 0, 0),
    }
}

fn only(texts: Vec<Text>) -> Text {
    assert_eq!(texts.len(), 1);
    texts.into_iter().next().unwrap()
}

#[test]
fn sky_conditions() {
    assert_eq!(weather_sky_condition("clear".to_owned()), "🌣");
    assert_eq!(weather_sky_condition("sunny".to_owned()), "🌣");
    assert_eq!(weather_sky_condition("mostly clear".to_owned()), "🌤");
    assert_eq!(weather_sky_condition("mostly sunny".to_owned()), "🌤");
    assert_eq!(weather_sky_condition("partly sunny".to_owned()), "⛅");
    assert_eq!(weather_sky_condition("fair".to_owned()), "🌑");
    assert_eq!(weather_sky_condition("cloudy".to_owned()), "☁");
    assert_eq!(weather_sky_condition("overcast".to_owned()), "☁");
    assert_eq!(weather_sky_condition("partly cloudy".to_owned()), "⛅");
    assert_eq!(weather_sky_condition("mostly cloudy".to_owned()), "🌧");
    assert_eq!(weather_sky_condition("considerable cloudines".to_owned()), "☔");
    assert_eq!(weather_sky_condition("Clear".to_owned()), "🌑");
    assert_eq!(weather_sky_condition("".to_owned()), "🌑");
}

#[test]
fn weather_texts() {
    let widget = Weather::new(attr(), "VOBL".to_owned());
    assert_eq!(widget.station_code, "VOBL");
    let text = only(widget.tick(23, None));
    assert_eq!(text.text, "Temp: 23°C");
    assert!(text.markup);
    assert!(!text.stretch);
    assert_eq!(only(widget.tick(-7, None)).text, "Temp: -7°C");
    assert_eq!(only(widget.tick(0, None)).text, "Temp: 0°C");
    assert_eq!(only(widget.tick(i16::MIN, None)).text, "Temp: -32768°C");
    assert_eq!(only(widget.tick(5, Some("own".to_owned()))).text, "own");
}

#[test]
fn bsd_time_remaining() {
    let mut info = battery_bsd::Info {
        status: battery_bsd::Status::Unknown,
        minutes: Some(135),
        percentage: 50,
    };
    assert_eq!(info.time_remaining(), Some((2, 15)));
    info.minutes = Some(59);
    assert_eq!(info.time_remaining(), Some((0, 59)));
    info.minutes = Some(u16::MAX);
    assert_eq!(info.time_remaining(), Some((1092, 15)));
    info.minutes = None;
    assert_eq!(info.time_remaining(), None);
}

#[test]
fn bsd_battery_reports() {
    let apm = battery_bsd::OpenBsd::default();
    assert_eq!(apm.load_status("0\n"), battery_bsd::Status::Discharging);
    assert_eq!(apm.load_status(" 1 "), battery_bsd::Status::Charging);
    assert_eq!(apm.load_status("2\n"), battery_bsd::Status::Unknown);
    assert_eq!(apm.load_status(""), battery_bsd::Status::Unknown);
    assert_eq!(apm.load_percentage("87\n"), Ok(87));
    assert_eq!(apm.load_percentage("\t100\r\n"), Ok(100));
    assert_eq!(apm.load_percentage("\n"), Err(ParseError::Empty));
    assert_eq!(apm.load_percentage("8 7\n"), Err(ParseError::Invalid));
    assert_eq!(apm.load_percentage("256\n"), Err(ParseError::OutOfRange));
    assert_eq!(apm.load_time_remaining("unknown\n"), Ok(None));
    assert_eq!(apm.load_time_remaining("75\n"), Ok(Some(75)));
    assert_eq!(apm.load_time_remaining("65536\n"), Err(ParseError::OutOfRange));
    assert_eq!(apm.load_time_remaining("Unknown\n"), Err(ParseError::Invalid));
    assert_eq!(
        apm.load_info("1\n", "42\n", "unknown\n"),
        Ok(battery_bsd::Info {
            status: battery_bsd::Status::Charging,
            minutes: None,
            percentage: 42,
        })
    );
    assert_eq!(apm.load_info("1\n", "x\n", "\n"), Err(ParseError::Invalid));
    assert_eq!(apm.load_info("1\n", "1\n", "\n"), Err(ParseError::Empty));
}

#[test]
fn bsd_battery_texts() {
    let widget = battery_bsd::Battery::new(attr(), Color::red());
    assert_eq!(widget.update_interval, 60);
    let text = only(widget.tick("1\n", "42\n", "unknown\n").unwrap());
    assert_eq!(text.text, "(⚡ 42%)");
    assert_eq!(text.attr.fg_color, Color::white());
    assert!(!text.markup);
    let text = only(widget.tick("0\n", "10\n", "65\n").unwrap());
    assert_eq!(text.text, "(10% - 1:05)");
    assert_eq!(text.attr.fg_color, Color::red());
    let text = only(widget.tick("0\n", "11\n", "600\n").unwrap());
    assert_eq!(text.text, "(11% - 10:00)");
    assert_eq!(text.attr.fg_color, Color::white());
    let text = only(widget.tick("1\n", "3\n", "0\n").unwrap());
    assert_eq!(text.text, "(⚡ 3% - 0:00)");
    assert_eq!(text.attr.fg_color, Color::white());
    assert_eq!(
        widget.tick("0\n", "", "65\n").unwrap_err(),
        ParseError::Empty
    );
}

#[test]
fn battery_status_from_str() {
    assert_eq!(Status::from_str("Full"), Ok(Status::Full));
    assert_eq!(Status::from_str("Charging"), Ok(Status::Charging));
    assert_eq!(Status::from_str("Discharging"), Ok(Status::Discharging));
    assert_eq!(Status::from_str("Unknown"), Ok(Status::Unknown));
    assert_eq!(Status::from_str("full"), Err(BatteryError::UnknownStatus));
    assert_eq!(Status::from_str(""), Err(BatteryError::UnknownStatus));
    assert_eq!(Status::parse("Full"), Ok(Status::Full));
    assert_eq!("Charging".parse::<Status>(), Ok(Status::Charging));
}

#[test]
fn battery_values() {
    let widget = Battery::new(attr(), Color::red(), None);
    assert_eq!(widget.battery, "BAT0");
    assert_eq!(widget.update_interval, 60);
    assert_eq!(
        widget.value_path("capacity"),
        "/sys/class/power_supply/BAT0/capacity"
    );
    let widget = Battery::new(attr(), Color::red(), Some("BAT1".to_owned()));
    assert_eq!(
        widget.value_path("status"),
        "/sys/class/power_supply/BAT1/status"
    );
    assert_eq!(
        widget.get_value("97\n", "Discharging\n"),
        Ok(BatteryInfo {
            status: Status::Discharging,
            capacity: 97,
        })
    );
    assert_eq!(
        widget.get_value("97\n", "Broken\n"),
        Err(BatteryError::UnknownStatus)
    );
    assert_eq!(
        widget.get_value("\n", "Broken\n"),
        Err(BatteryError::Capacity(ParseError::Empty))
    );
    assert_eq!(
        widget.get_value("nine", "Full"),
        Err(BatteryError::Capacity(ParseError::Invalid))
    );
    assert_eq!(
        widget.get_value("300", "Full"),
        Err(BatteryError::Capacity(ParseError::OutOfRange))
    );
}

#[test]
fn battery_texts() {
    let widget = Battery::new(attr(), Color::red(), None);
    let info = BatteryInfo {
        status: Status::Discharging,
        capacity: 10,
    };
    let text = only(widget.tick(&info, None));
    assert_eq!(text.text, "(10%)");
    assert_eq!(text.attr.fg_color, Color::red());
    assert!(!text.markup);
    let info = BatteryInfo {
        status: Status::Discharging,
        capacity: 11,
    };
    assert_eq!(only(widget.tick(&info, None)).attr.fg_color, Color::white());
    let info = BatteryInfo {
        status: Status::Charging,
        capacity: 5,
    };
    let text = only(widget.tick(&info, Some("<b>5</b>".to_owned())));
    assert_eq!(text.text, "<b>5</b>");
    assert_eq!(text.attr.fg_color, Color::white());
    assert!(text.markup);
}

#[test]
fn markup_helpers() {
    assert_eq!(
        pango_markup_render(Color::white(), "BLR: x :".to_owned(), " 23°C".to_owned()),
        "<span foreground=\"#808080\">[</span>BLR: x : <span foreground=\"#FFFFFF\"> 23°C</span><span foreground=\"#808080\">]</span>"
    );
    assert_eq!(
        pango_markup_single_render(Color::from_rgb(1, 2, 3), "home".to_owned()),
        "<span foreground=\"#808080\">[</span>home<span foreground=\"#010203\"></span><span foreground=\"#808080\">]</span>"
    );
}

#[test]
fn clock_texts() {
    let clock = Clock::new(attr(), None);
    assert_eq!(clock.format(), "%a %m-%d-%Y %I:%M %p");
    let text = only(clock.tick("Fri 09-01-2017 12:51 PM".to_owned()));
    assert_eq!(text.text, "Fri 09-01-2017 12:51 PM");
    assert!(text.markup);
    assert!(!text.stretch);
    let clock = Clock::new(attr(), Some("%H:%M".to_owned()));
    assert_eq!(clock.format(), "%H:%M");
}

#[test]
fn command_texts() {
    let command = Command::new(attr(), "echo foo".to_owned(), 10);
    assert_eq!(command.command, "echo foo");
    assert_eq!(command.update_interval, 10);
    let text = only(command.tick(Some("foo\n".to_owned())));
    assert_eq!(text.text, "foo\n");
    assert!(text.markup);
    assert_eq!(only(command.tick(None)).text, "error");
}

#[test]
fn active_window_title_texts() {
    let widget = ActiveWindowTitle::new(attr());
    let text = only(widget.on_change(Some("editor".to_owned())));
    assert_eq!(text.text, "editor");
    assert!(text.stretch);
    assert!(!text.markup);
    assert_eq!(only(widget.on_change(None)).text, "");
}

#[test]
fn wireless_texts() {
    let info = |quality| {
        Some(WirelessInfo {
            wi_essid: "home".to_owned(),
            wi_quality: quality,
        })
    };
    let plain = Wireless::new(attr(), "wlp2s0".to_owned(), None);
    assert_eq!(plain.update_interval, 3600);
    let text = only(plain.tick(info(70)));
    assert_eq!(text.text, "home 70%");
    assert!(!text.markup);
    assert_eq!(only(plain.tick(None)).text, "NA");
    let limits = Wireless::new(attr(), "wlp2s0".to_owned(), Some(Threshold::default()));
    let text = only(limits.tick(info(40)));
    assert_eq!(
        text.text,
        "<span foreground=\"#808080\">[</span>home <span foreground=\"#FF0000\">40%</span><span foreground=\"#808080\">]</span>"
    );
    assert!(text.markup);
    assert_eq!(
        only(limits.tick(info(60))).text,
        "<span foreground=\"#808080\">[</span>home <span foreground=\"#FFFF00\">60%</span><span foreground=\"#808080\">]</span>"
    );
    assert_eq!(
        only(limits.tick(info(61))).text,
        "<span foreground=\"#808080\">[</span>home <span foreground=\"#00FF00\">61%</span><span foreground=\"#808080\">]</span>"
    );
    let text = only(limits.tick(None));
    assert_eq!(text.text, "NA");
    assert!(text.markup);
}

#[test]
fn volume_bsd_follows_controls() {
    let mut info = volume_bsd::OpenBsd::new();
    assert_eq!(info.state, volume_bsd::State::Unknown);
    assert_eq!(info.percentage(0), 0);
    assert_eq!(info.percentage(255), 100);
    assert_eq!(info.percentage(128), 50);
    assert_eq!(info.percentage(1), 0);
    assert_eq!(info.percentage(2), 1);
    assert_eq!(info.percentage(127), 50);
    assert_eq!(
        info.on_control("input", "level", 9),
        Some(volume_bsd::State::Unmuted { percentage: 1 })
    );
    assert_eq!(info.on_control("input", "mute", 1), None);
    assert_eq!(
        info.on_control("output", "level", 255),
        Some(volume_bsd::State::Unmuted { percentage: 100 })
    );
    assert_eq!(info.on_control("output", "level", 255), None);
    assert_eq!(
        info.on_control("output", "mute", 1),
        Some(volume_bsd::State::Muted)
    );
    assert_eq!(info.on_control("output", "level", 0), None);
    assert_eq!(info.on_control("output", "mute", 2), None);
    assert_eq!(
        info.on_control("output", "mute", 0),
        Some(volume_bsd::State::Unmuted { percentage: 0 })
    );
}

#[test]
fn volume_bsd_texts() {
    let widget = volume_bsd::Volume::new(attr());
    assert_eq!(only(widget.on_change(volume_bsd::State::Unknown)).text, "?");
    assert_eq!(only(widget.on_change(volume_bsd::State::Muted)).text, "M");
    let text = only(widget.on_change(volume_bsd::State::Unmuted { percentage: 37 }));
    assert_eq!(text.text, "37%");
    assert!(!text.markup);
}

#[test]
fn volume_linux_texts() {
    let widget = Volume::new(attr());
    let text = only(widget.on_change(1, "42"));
    assert_eq!(
        text.text,
        "<span foreground=\"#808080\">[</span>🔈 42%<span foreground=\"#808080\">]</span>"
    );
    assert!(text.markup);
    assert_eq!(only(widget.on_change(0, "42")).text, "🔇");
    let mut stream = AlsaEventStream::new();
    assert!(stream.poll_next());
    assert!(!stream.poll_next());
    assert!(!stream.poll_next());
}

#[test]
fn cpu_line_is_read() {
    let line = "cpu  10 20 30 40 50 60 70 80 90 100\n";
    assert_eq!(
        CpuData::get_values(line),
        Ok(CpuData {
            user_time: 10,
            nice_time: 20,
            system_time: 30,
            idle_time: 40,
            total_time: 60,
            iowait_time: 50,
        })
    );
    assert_eq!(
        CpuData::get_values("cpu 1 2 3 4 5\n"),
        Err(CpuError::Number(ParseError::Invalid))
    );
    assert_eq!(CpuData::get_values("cpu 1 2 3 4\n"), Err(CpuError::Missing));
    assert_eq!(CpuData::get_values("cpu 1 2 3\n"), Err(CpuError::Missing));
    assert_eq!(CpuData::get_values(""), Err(CpuError::Missing));
    assert_eq!(
        CpuData::get_values("cpu 1 x 3 4 5 6"),
        Err(CpuError::Number(ParseError::Invalid))
    );
    assert_eq!(
        CpuData::get_values("cpu 1 2 3 4 99999999999999999999 6"),
        Err(CpuError::Number(ParseError::OutOfRange))
    );
    assert_eq!(
        CpuData::get_values("9223372036854775807 1 0 4 5 6"),
        Err(CpuError::Overflow)
    );
    assert_eq!(
        CpuData::get_values("cpu cpu -1 +2 3 4 5"),
        Ok(CpuData {
            user_time: -1,
            nice_time: 2,
            system_time: 3,
            idle_time: 4,
            total_time: 4,
            iowait_time: 5,
        })
    );
}

fn data(user: i64, nice: i64, system: i64, idle: i64, iowait: i64) -> CpuData {
    CpuData {
        user_time: user,
        nice_time: nice,
        system_time: system,
        idle_time: idle,
        total_time: user + nice + system,
        iowait_time: iowait,
    }
}

#[test]
fn cpu_usage() {
    let start = data(100, 0, 100, 800, 0);
    assert_eq!(start.usage(&start), 0);
    assert_eq!(start.usage(&data(110, 0, 110, 860, 0)), 20);
    assert_eq!(start.usage(&data(101, 0, 100, 800, 0)), 50);
    assert_eq!(start.usage(&data(101, 0, 100, 900, 0)), 0);
    assert_eq!(start.usage(&data(129, 0, 100, 842, 0)), 29);
    assert_eq!(start.usage(&data(90, 0, 100, 900, 0)), 0);
    assert_eq!(start.usage(&data(90, 0, 100, 700, 0)), 8);
    assert_eq!(start.usage(&data(110, 0, 100, 780, 0)), 0);
    let before = data(0, 0, 0, 800_000_000_000_000_000, 0);
    let after = data(400_000_000_000_000_000, 0, 0, 1, 0);
    assert_eq!(before.usage(&after), u64::MAX);
}

#[test]
fn cpu_widget() {
    let mut cpu = Cpu::new(attr(), "cpu 100 0 100 800 0 0\n").unwrap();
    assert_eq!(cpu.measure("cpu 110 0 110 860 0 0\n"), Ok(20));
    assert_eq!(cpu.cpu_data, data(110, 0, 110, 860, 0));
    assert_eq!(cpu.measure("cpu\n"), Err(CpuError::Missing));
    assert_eq!(cpu.cpu_data, data(110, 0, 110, 860, 0));
    assert_eq!(cpu.measure("cpu 110 0 110 860 0 0\n"), Ok(0));
    let text = only(cpu.tick(20, None));
    assert_eq!(text.text, "20 %");
    assert!(text.markup);
    assert_eq!(only(cpu.tick(20, Some("x".to_owned()))).text, "x");
    assert_eq!(
        Cpu::new(attr(), "").err(),
        Some(CpuError::Missing)
    );
}

#[test]
fn disk_info() {
    assert_eq!(
        DiskInfo::new(1000, 400, 300, 4096),
        Some(DiskInfo {
            total: 4096000,
            used: 2457600,
            free: 1228800,
        })
    );
    assert_eq!(DiskInfo::new(10, 11, 0, 1), None);
    assert_eq!(
        DiskInfo::new(u64::MAX, 0, u64::MAX, u64::MAX),
        Some(DiskInfo {
            total: u64::MAX as u128 * u64::MAX as u128,
            used: u64::MAX as u128 * u64::MAX as u128,
            free: u64::MAX as u128 * u64::MAX as u128,
        })
    );
}

#[test]
fn disk_usage_texts() {
    let widget = DiskUsage::new(attr(), "/home".to_owned());
    assert_eq!(widget.path, "/home");
    let info = DiskInfo {
        total: 100 << 30,
        used: 42 << 30,
        free: 58 << 30,
    };
    let text = only(widget.tick(&info, None));
    assert_eq!(text.text, "Disk: 42 GiB/100 GiB");
    assert!(text.markup);
    assert_eq!(only(widget.tick(&info, Some("own".to_owned()))).text, "own");
    assert_eq!(disk_string("1", "2"), "Disk: 1/2");
}

fn tag(name: &str, mine: bool, visible: bool, focused: bool, busy: bool) -> Tag {
    Tag {
        name: name.to_owned(),
        mine,
        visible,
        focused,
        busy,
    }
}

#[test]
fn leftwm_texts() {
    let attrs = LeftWMAttributes {
        focused: colored(Color::red()),
        visible: colored(Color::green()),
        busy: colored(Color::blue()),
        empty: colored(Color::black()),
    };
    let widget = LeftWM::new("eDP1".to_owned(), attrs.clone());
    let state = State {
        workspaces: vec![
            Workspace {
                output: "HDMI".to_owned(),
                tags: vec![tag("other", true, true, true, true)],
            },
            Workspace {
                output: "eDP1".to_owned(),
                tags: vec![
                    tag("1", true, true, true, false),
                    tag("2", true, true, false, true),
                    tag("3", false, true, true, true),
                    tag("4", false, false, false, false),
                    tag("5", true, false, false, false),
                ],
            },
            Workspace {
                output: "eDP1".to_owned(),
                tags: vec![tag("second", true, true, true, true)],
            },
        ],
    };
    let texts = widget.on_change(&state);
    let got: Vec<_> = texts
        .iter()
        .map(|t| (t.text.as_str(), t.attr.fg_color))
        .collect();
    assert_eq!(
        got,
        vec![
            ("1", Color::red()),
            ("2", Color::green()),
            ("3", Color::blue()),
            ("4", Color::black()),
            ("5", Color::black()),
        ]
    );
    assert!(texts.iter().all(|t| t.markup && !t.stretch));
    let elsewhere = LeftWM::new("DP2".to_owned(), attrs);
    assert!(elsewhere.on_change(&state).is_empty());
}

#[test]
fn pager_texts() {
    let pager = Pager::new(PagerAttributes {
        active_attr: colored(Color::red()),
        inactive_attr: colored(Color::black()),
        non_empty_attr: colored(Color::blue()),
    });
    let names = vec!["web".to_owned(), "mail".to_owned()];
    let texts = pager.on_change(4, 1, &names, &vec![3, 1, 9]);
    let got: Vec<_> = texts
        .iter()
        .map(|t| (t.text.as_str(), t.attr.fg_color))
        .collect();
    assert_eq!(
        got,
        vec![
            ("web", Color::black()),
            ("mail", Color::red()),
            ("?", Color::black()),
            ("?", Color::blue()),
        ]
    );
    assert!(texts.iter().all(|t| t.markup && !t.stretch));
    let texts = pager.on_change(1, 7, &names, &Vec::new());
    assert_eq!(texts.len(), 1);
    assert_eq!(texts[0].text, "web");
    assert!(pager.on_change(0, 0, &names, &Vec::new()).is_empty());
}

#[test]
fn desktops_with_windows() {
    let windows = vec![
        Window {
            window_type: Some(vec![7, 8]),
            desktop: Some(2),
        },
        Window {
            window_type: Some(vec![8, 7]),
            desktop: Some(3),
        },
        Window {
            window_type: None,
            desktop: Some(4),
        },
        Window {
            window_type: Some(vec![7]),
            desktop: None,
        },
        Window {
            window_type: Some(vec![]),
            desktop: Some(5),
        },
        Window {
            window_type: Some(vec![7]),
            desktop: Some(0),
        },
        Window {
            window_type: Some(vec![7]),
            desktop: Some(2),
        },
    ];
    assert_eq!(non_empty_desktops(&windows, 7, Some(0)), vec![2, 2]);
    assert_eq!(non_empty_desktops(&windows, 7, Some(2)), vec![0]);
    assert_eq!(non_empty_desktops(&windows, 7, None), vec![2, 0, 2]);
    assert_eq!(non_empty_desktops(&windows, 8, None), vec![3]);
    assert_eq!(non_empty_desktops(&Vec::new(), 7, None), Vec::<u32>::new());
}

#[test]
fn event_stream_waits_and_polls() {
    let mut stream = XcbEventStream::new();
    assert_eq!(stream.step(), Step::AwaitReadable);
    stream.readable();
    assert_eq!(stream.step(), Step::PollForEvent);
    assert!(stream.polled(true));
    assert_eq!(stream.step(), Step::PollForEvent);
    assert!(!stream.polled(false));
    assert_eq!(stream.step(), Step::AwaitReadable);
}

#[test]
fn property_changes_are_told_apart() {
    let properties = vec![5, 9];
    assert!(property_changed(&properties, 28, 9));
    assert!(property_changed(&properties, 28, 5));
    assert!(!property_changed(&properties, 28, 6));
    assert!(!property_changed(&properties, 12, 9));
    assert!(!property_changed(&properties, 28 | 0x80, 9));
    assert!(!property_changed(&Vec::new(), 28, 9));
}
