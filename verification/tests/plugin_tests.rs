use std::path::PathBuf;
use smplsynth::plugins::{
    clap_search_paths, expand_user, plugin_info_from_descriptor, plugin_kind, plugin_info_from_file_name, test_plugins,
    PluginInfo, PluginManager, PluginWrapper,
};

fn info(id: &str) -> PluginInfo {
    PluginInfo {
        id: id.to_string(),
        name: id.to_string(),
        version: "1".to_string(),
        description: "d".to_string(),
        is_instrument: true,
        is_effect: false,
    }
}

#[test]
fn file_name_classification() {
    let synth = plugin_info_from_file_name(Some("MySynth.clap"));
    assert_eq!(synth.id, "MySynth.clap");
    assert_eq!(synth.name, "MySynth");
    assert_eq!(synth.version, "1.0.0");
    assert_eq!(synth.description, "CLAP Plugin");
    assert!(synth.is_instrument);
    assert!(!synth.is_effect);

    let reverb = plugin_info_from_file_name(Some("CoolReverb.clap"));
    assert!(reverb.is_instrument);
    assert!(reverb.is_effect);

    let fx = plugin_info_from_file_name(Some("TapeFX.clap"));
    assert!(!fx.is_instrument);
    assert!(fx.is_effect);
    assert_eq!(fx.name, "TapeFX");

    let both = plugin_info_from_file_name(Some("SynthEffect.clap"));
    assert!(both.is_instrument);
    assert!(both.is_effect);

    let unknown = plugin_info_from_file_name(None);
    assert_eq!(unknown.id, "unknown");
    assert_eq!(unknown.name, "unknown");
    assert!(unknown.is_instrument);
}

#[test]
fn every_file_plugin_has_a_kind() {
    for name in ["a.clap", "fx", "Delay", "EFFECTS.clap", "", "Ärger.clap", "xylo-fx.so"] {
        let i = plugin_info_from_file_name(Some(name));
        assert!(i.is_instrument || i.is_effect);
    }
}

#[test]
fn clap_suffix_removal() {
    assert_eq!(plugin_info_from_file_name(Some("a.clap.clap")).name, "a");
    assert_eq!(plugin_info_from_file_name(Some(".cl.clapap")).name, ".clap");
    assert_eq!(plugin_info_from_file_name(Some("plain")).name, "plain");
}

#[test]
fn lowercase_matching() {
    assert!(plugin_info_from_file_name(Some("DISTORTION")).is_effect);
    assert!(plugin_info_from_file_name(Some("DISTORTION")).is_instrument);
    assert!(!plugin_info_from_file_name(Some("DISTORTION-FX")).is_instrument);
    assert!(plugin_info_from_file_name(Some("BigSYNTH-Fx")).is_instrument);
}

#[test]
fn test_plugin_list() {
    let list = test_plugins();
    assert_eq!(list.len(), 2);
    assert_eq!(list[0].id, "test_synth");
    assert_eq!(list[0].name, "Test Synth");
    assert_eq!(list[0].description, "Test instrument plugin");
    assert!(list[0].is_instrument && !list[0].is_effect);
    assert_eq!(list[1].id, "test_reverb");
    assert_eq!(list[1].name, "Test Reverb");
    assert_eq!(list[1].description, "Test effect plugin");
    assert!(!list[1].is_instrument && list[1].is_effect);
}

#[test]
fn registry_read_after_write() {
    let mut m = PluginManager::new();
    assert!(m.get_available_plugins().is_empty());
    assert_eq!(m.get_plugin_path("a"), None);
    m.insert(PluginWrapper { info: info("a"), path: PathBuf::from("/x/a") });
    m.insert(PluginWrapper { info: info("b"), path: PathBuf::from("/x/b") });
    m.insert(PluginWrapper { info: info("a"), path: PathBuf::from("/y/a") });
    assert_eq!(m.get_plugin_path("a"), Some(PathBuf::from("/y/a")));
    assert_eq!(m.get_plugin_path("b"), Some(PathBuf::from("/x/b")));
    assert_eq!(m.get_plugin_path("c"), None);
    assert_eq!(m.get_available_plugins().len(), 2);
    assert!(m.wrapper_for("b").is_ok());
    assert_eq!(m.wrapper_for("c").err(), Some("Plugin not found: c".to_string()));
}

#[test]
fn scan_lists_test_plugins_then_found_files() {
    let mut m = PluginManager::new();
    let found = vec![
        (Some("Lead.clap".to_string()), PathBuf::from("/usr/lib/clap/Lead.clap")),
        (None, PathBuf::from("/usr/lib/clap/..")),
        (Some("Lead.clap".to_string()), PathBuf::from("/usr/local/lib/clap/Lead.clap")),
    ];
    let list = m.scan_plugins(found).unwrap();
    assert_eq!(list.len(), 5);
    assert_eq!(list[0].id, "test_synth");
    assert_eq!(list[1].id, "test_reverb");
    assert_eq!(list[2].id, "Lead.clap");
    assert_eq!(list[2].name, "Lead");
    assert_eq!(list[3].id, "unknown");
    assert_eq!(list[4].id, "Lead.clap");
    assert_eq!(m.get_available_plugins().len(), 2);
    assert_eq!(m.get_plugin_path("Lead.clap"), Some(PathBuf::from("/usr/local/lib/clap/Lead.clap")));
    assert_eq!(m.get_plugin_path("test_synth"), None);
    assert_eq!(m.scan_plugin_file(Some("X.clap")).unwrap().name, "X");
}

#[test]
fn descriptor_defaults_and_features() {
    let i = plugin_info_from_descriptor(None, None, None, None, &vec![]);
    assert_eq!(i.id, "unknown");
    assert_eq!(i.name, "Unknown");
    assert_eq!(i.version, "1.0.0");
    assert_eq!(i.description, "CLAP Plugin");
    assert!(!i.is_instrument && !i.is_effect);
    let j = plugin_info_from_descriptor(
        Some("com.x.synth"),
        Some("X"),
        Some("2.1"),
        Some("A synth"),
        &vec!["stereo".to_string(), "instrument".to_string(), "audio-effect".to_string()],
    );
    assert_eq!(j.id, "com.x.synth");
    assert_eq!(j.name, "X");
    assert_eq!(j.version, "2.1");
    assert_eq!(j.description, "A synth");
    assert!(j.is_instrument && j.is_effect);
    let k = plugin_info_from_descriptor(Some("k"), None, None, None, &vec!["instruments".to_string()]);
    assert!(!k.is_instrument);
}

#[test]
fn home_expansion() {
    assert_eq!(expand_user("~/.clap", Some("/home/me")), "/home/me/.clap");
    assert_eq!(expand_user("~/a~b", Some("/h")), "/h/a/hb");
    assert_eq!(expand_user("~/.clap", None), "~/.clap");
    assert_eq!(expand_user("/usr/lib/clap", Some("/home/me")), "/usr/lib/clap");
    assert_eq!(expand_user("/a/~", Some("/h")), "/a/~");
    assert_eq!(expand_user("", Some("/h")), "");
}

#[test]
fn search_paths() {
    assert_eq!(
        clap_search_paths(),
        ["/usr/lib/clap", "/usr/local/lib/clap", "~/.clap", "/Library/Audio/Plug-Ins/CLAP"]
    );
}

#[test]
fn kinds_from_lowercased_names() {
    assert_eq!(plugin_kind("my-synth.clap"), (true, false));
    assert_eq!(plugin_kind("tape-fx.clap"), (false, true));
    assert_eq!(plugin_kind("hall-reverb.clap"), (true, true));
    assert_eq!(plugin_kind("effect-instrument"), (true, true));
    assert_eq!(plugin_kind("TAPE-FX"), (true, false));
    assert_eq!(plugin_kind(""), (true, false));
}

#[test]
fn register_scanned_skips_failed_descriptions() {
    let mut m = PluginManager::new();
    let scanned = vec![
        (Ok(info("a")), PathBuf::from("/p/a.clap")),
        (Err("Plugin has no factory".to_string()), PathBuf::from("/p/bad.clap")),
        (Ok(info("b")), PathBuf::from("/p/b.clap")),
        (Ok(info("a")), PathBuf::from("/q/a.clap")),
    ];
    let list = m.register_scanned(scanned).unwrap();
    assert_eq!(list.len(), 5);
    assert_eq!(list[0].id, "test_synth");
    assert_eq!(list[1].id, "test_reverb");
    assert_eq!(list[2].id, "a");
    assert_eq!(list[3].id, "b");
    assert_eq!(list[4].id, "a");
    assert_eq!(m.get_available_plugins().len(), 2);
    assert_eq!(m.get_plugin_path("a"), Some(PathBuf::from("/q/a.clap")));
    assert_eq!(m.get_plugin_path("b"), Some(PathBuf::from("/p/b.clap")));
}
