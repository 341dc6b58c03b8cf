use tuitools::audio::alsa;
use tuitools::audio::backend::{detect_audio_backend, AudioBackend};
use tuitools::audio::control::{
    adjust_sink_volume, adjust_source_volume, failure_report, set_default_sink,
    set_default_source, toggle_sink_mute, toggle_source_mute,
};
use tuitools::audio::pactl::{
    create_combined_sink, extract_sink_name, get_combined_modules, get_sinks, get_sources,
    remove_combined_sink, RawDevice,
};
use tuitools::command::Invocation;

fn call(program: &str, args: &[&str]) -> Invocation {
    Invocation {
        program: program.to_string(),
        args: args.iter().map(|a| a.to_string()).collect(),
    }
}

const MIXER: &str = "\
Simple mixer control 'Master',0\n\
  Capabilities: pvolume pswitch pswitch-joined\n\
  Playback channels: Front Left - Front Right\n\
  Limits: Playback 0 - 65536\n\
  Front Left: Playback 42598 [65%] [on]\n\
  Front Right: Playback 30000 [46%] [on]\n\
Simple mixer control 'Headphone',0\n\
  Capabilities: pvolume pswitch\n\
  Mono: Playback 0 [0%] [-65.25dB] [off]\n\
Simple mixer control 'Capture',0\n\
  Capabilities: cvolume cswitch cswitch-joined\n\
  Front Left: Capture 26214 [40%] [on]\n\
Simple mixer control 'Beep',0\n\
  Capabilities: pswitch\n\
  Mono: Playback [on]\n\
Simple mixer control 'Loopback Mixing',0\n\
  Capabilities: enum\n\
  Item0: 'Disabled'\n";

#[test]
fn audio_backends_in_order_of_preference() {
    assert_eq!(detect_audio_backend(true, true), Some(AudioBackend::PulseAudio));
    assert_eq!(detect_audio_backend(true, false), Some(AudioBackend::PulseAudio));
    assert_eq!(detect_audio_backend(false, true), Some(AudioBackend::Alsa));
    assert_eq!(detect_audio_backend(false, false), None);
    assert_eq!(AudioBackend::PulseAudio.label(), "pipewire");
    assert_eq!(AudioBackend::Alsa.label(), "alsa");
}

#[test]
fn playback_controls_of_a_mixer() {
    let controls = alsa::parse_alsa_controls(MIXER, true);
    let seen: Vec<(String, u8, bool)> =
        controls.into_iter().map(|c| (c.name, c.volume, c.muted)).collect();
    assert_eq!(
        seen,
        vec![
            ("Master".to_string(), 65, false),
            ("Headphone".to_string(), 0, true),
            ("Beep".to_string(), 0, false),
        ]
    );
}

#[test]
fn capture_controls_of_a_mixer() {
    let controls = alsa::parse_alsa_controls(MIXER, false);
    let seen: Vec<(String, u8, bool)> =
        controls.into_iter().map(|c| (c.name, c.volume, c.muted)).collect();
    assert_eq!(seen, vec![("Capture".to_string(), 40, false)]);
}

#[test]
fn mixer_edge_cases() {
    assert!(alsa::parse_alsa_controls("", true).is_empty());
    let unnamed = "Simple mixer control '',0\n  Capabilities: pvolume\n  Mono: [10%]\n";
    assert!(alsa::parse_alsa_controls(unnamed, true).is_empty());
    let odd = "Simple mixer control 'A\n  Capabilities: pvolume\n  x [300%] [12%]\n  y [7%] [off]";
    let controls = alsa::parse_alsa_controls(odd, true);
    assert_eq!(controls.len(), 1);
    assert_eq!(controls[0].name, "A");
    assert_eq!(controls[0].volume, 7);
    assert!(controls[0].muted);
    let before = "  Front: [50%] [off]\nSimple mixer control 'B',0\n  Capabilities: pswitch\n";
    let controls = alsa::parse_alsa_controls(before, true);
    assert_eq!(controls.len(), 1);
    assert_eq!(controls[0].volume, 0);
    assert!(!controls[0].muted);
}

#[test]
fn sinks_and_sources_of_a_mixer() {
    let sinks = alsa::get_sinks(MIXER);
    assert_eq!(sinks.len(), 3);
    assert_eq!(sinks[0].name, "Master");
    assert_eq!(sinks[0].description, "Master");
    assert_eq!(sinks[0].volume, 65);
    assert!(!sinks[0].muted);
    assert!(sinks[0].is_default);
    assert_eq!(sinks[1].name, "Headphone");
    assert!(sinks[1].muted);
    assert!(!sinks[1].is_default);
    let sources = alsa::get_sources(MIXER);
    assert_eq!(sources.len(), 1);
    assert_eq!(sources[0].name, "Capture");
    assert_eq!(sources[0].description, "Capture");
    assert_eq!(sources[0].volume, 40);
    assert!(sources[0].is_default);
}

#[test]
fn volume_commands() {
    assert_eq!(
        adjust_sink_volume(AudioBackend::PulseAudio, "out", 1),
        call("pactl", &["set-sink-volume", "out", "+5%"])
    );
    assert_eq!(
        adjust_sink_volume(AudioBackend::PulseAudio, "out", 0),
        call("pactl", &["set-sink-volume", "out", "-5%"])
    );
    assert_eq!(
        adjust_sink_volume(AudioBackend::Alsa, "Master", 5),
        call("amixer", &["sset", "Master", "5%+"])
    );
    assert_eq!(
        adjust_sink_volume(AudioBackend::Alsa, "Master", -5),
        call("amixer", &["sset", "Master", "5%-"])
    );
    assert_eq!(
        adjust_source_volume(AudioBackend::PulseAudio, "mic", -1),
        call("pactl", &["set-source-volume", "mic", "-5%"])
    );
    assert_eq!(
        adjust_source_volume(AudioBackend::Alsa, "Capture", 1),
        call("amixer", &["sset", "Capture", "5%+"])
    );
}

#[test]
fn mute_commands() {
    assert_eq!(
        toggle_sink_mute(AudioBackend::PulseAudio, "out"),
        call("pactl", &["set-sink-mute", "out", "toggle"])
    );
    assert_eq!(
        toggle_sink_mute(AudioBackend::Alsa, "Master"),
        call("amixer", &["sset", "Master", "toggle"])
    );
    assert_eq!(
        toggle_source_mute(AudioBackend::PulseAudio, "mic"),
        call("pactl", &["set-source-mute", "mic", "toggle"])
    );
    assert_eq!(
        toggle_source_mute(AudioBackend::Alsa, "Capture"),
        call("amixer", &["sset", "Capture", "toggle"])
    );
}

#[test]
fn default_device_commands() {
    assert_eq!(
        set_default_sink(AudioBackend::PulseAudio, "out"),
        Ok(call("pactl", &["set-default-sink", "out"]))
    );
    assert_eq!(
        set_default_sink(AudioBackend::Alsa, "out"),
        Err("ALSA does not support setting default sink".to_string())
    );
    assert_eq!(
        set_default_source(AudioBackend::PulseAudio, "mic"),
        Ok(call("pactl", &["set-default-source", "mic"]))
    );
    assert_eq!(
        set_default_source(AudioBackend::Alsa, "mic"),
        Err("ALSA does not support setting default source".to_string())
    );
    assert_eq!(
        failure_report("", "Failed to set default sink: ", "out"),
        "Failed to set default sink: out"
    );
    assert_eq!(failure_report(" No such entity\n", "Failed: ", "out"), "No such entity");
}

#[test]
fn devices_of_a_report() {
    let entries = vec![
        RawDevice {
            name: Some("out".to_string()),
            description: Some("Speakers".to_string()),
            mute: Some(true),
            volume: Some("65%".to_string()),
        },
        RawDevice { name: None, description: None, mute: None, volume: Some("10%".to_string()) },
        RawDevice {
            name: Some("out.monitor".to_string()),
            description: None,
            mute: None,
            volume: Some("150%".to_string()),
        },
        RawDevice {
            name: Some("hdmi".to_string()),
            description: None,
            mute: Some(false),
            volume: Some("loud".to_string()),
        },
    ];
    let sinks = get_sinks("hdmi", &entries);
    assert_eq!(sinks.len(), 3);
    assert_eq!(sinks[0].name, "out");
    assert_eq!(sinks[0].description, "Speakers");
    assert_eq!(sinks[0].volume, 65);
    assert!(sinks[0].muted);
    assert!(!sinks[0].is_default);
    assert_eq!(sinks[1].name, "out.monitor");
    assert_eq!(sinks[1].description, "out.monitor");
    assert_eq!(sinks[1].volume, 100);
    assert!(!sinks[1].muted);
    assert_eq!(sinks[2].name, "hdmi");
    assert_eq!(sinks[2].volume, 0);
    assert!(sinks[2].is_default);
    let sources = get_sources("out", &entries);
    assert_eq!(sources.len(), 2);
    assert_eq!(sources[0].name, "out");
    assert!(sources[0].is_default);
    assert_eq!(sources[1].name, "hdmi");
    assert!(!sources[1].is_default);
}

#[test]
fn volume_entries() {
    let volume = |text: &str| {
        let entries = vec![RawDevice {
            name: Some("a".to_string()),
            description: None,
            mute: None,
            volume: Some(text.to_string()),
        }];
        get_sinks("", &entries)[0].volume
    };
    assert_eq!(volume("0%"), 0);
    assert_eq!(volume("100%"), 100);
    assert_eq!(volume("101%"), 100);
    assert_eq!(volume("4294967295%"), 100);
    assert_eq!(volume("4294967296%"), 0);
    assert_eq!(volume("37"), 37);
    assert_eq!(volume("37%%"), 37);
    assert_eq!(volume(" 37%"), 0);
    assert_eq!(volume(""), 0);
}

#[test]
fn sink_names_of_modules() {
    assert_eq!(extract_sink_name("sink_name=my_sink"), "my_sink");
    assert_eq!(extract_sink_name("sink_name=\"my_sink\""), "my_sink");
    assert_eq!(extract_sink_name("sink_name='my_sink'"), "my_sink");
    assert_eq!(extract_sink_name("sink_name=\"my sink\""), "my");
    assert_eq!(extract_sink_name("slaves=a,b sink_name=out adjust_time=3"), "out");
    assert_eq!(extract_sink_name("slaves=a\tsink_name=test\tadjust=1"), "test");
    assert_eq!(extract_sink_name("xsink_name='y' sink_name=z"), "z");
    assert_eq!(extract_sink_name("xsink_name='y' z"), "y");
    assert_eq!(extract_sink_name("slaves=a,b"), "combined");
    assert_eq!(extract_sink_name(""), "combined");
}

#[test]
fn combined_sinks_among_modules() {
    let modules = "\
1\tmodule-device-restore\t\n\
27\tmodule-combine-sink\tsink_name=both slaves=a,b\n\
x\tmodule-combine-sink\tsink_name=bad\n\
28\tmodule-combine-sink\n\
29\n\
30\tmodule-combine-sink\tslaves=a,b\textra\n";
    assert_eq!(
        get_combined_modules(modules),
        vec![
            (27, "both".to_string()),
            (28, "combined".to_string()),
            (30, "combined".to_string()),
        ]
    );
    assert_eq!(get_combined_modules(""), Vec::new());
}

#[test]
fn combined_sink_commands() {
    assert_eq!(
        create_combined_sink("both", &["a", "b", "c"]),
        Ok(call(
            "pactl",
            &["load-module", "module-combine-sink", "sink_name=both", "slaves=a,b,c"]
        ))
    );
    assert_eq!(
        create_combined_sink("one", &["a"]),
        Ok(call("pactl", &["load-module", "module-combine-sink", "sink_name=one", "slaves=a"]))
    );
    assert_eq!(create_combined_sink("none", &[]), Err("No sinks selected".to_string()));
    assert_eq!(remove_combined_sink(27), call("pactl", &["unload-module", "27"]));
    assert_eq!(remove_combined_sink(0), call("pactl", &["unload-module", "0"]));
    assert_eq!(
        remove_combined_sink(u32::MAX),
        call("pactl", &["unload-module", "4294967295"])
    );
}
