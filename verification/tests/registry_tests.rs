use tiny_decision_core::db::pending_migrations;
use tiny_decision_core::flywheel::record_correction;
use tiny_decision_core::inference::{
    adapter_kind_for_format, estimated_memory_bytes, gpu_layers_for_vram, AdapterKind, HotModelRegistry,
    ModelLoadConfig,
};
use tiny_decision_core::plugins::{PluginCategory, PluginError, PluginManifest, PluginPermissions, SandboxedPlugin};
use tiny_decision_core::table::KeyedTable;
use tiny_decision_core::text::{
    chars_of, contains_chars, ends_with_chars, matches_at, replace_chars, string_of_chars,
};
use tiny_decision_core::types::{CalibrationMethod, ModelFormat};

fn chars(s: &str) -> Vec<char> {
    s.chars().collect()
}

#[test]
fn text_helpers() {
    assert_eq!(chars_of("héllo"), vec!['h', 'é', 'l', 'l', 'o']);
    assert_eq!(string_of_chars(&['a', 'ß']), "aß");
    assert!(matches_at(&chars("abcabc"), &chars("ca"), 2));
    assert!(!matches_at(&chars("abcabc"), &chars("ca"), 3));
    assert!(!matches_at(&chars("ab"), &chars("abc"), 0));
    assert!(contains_chars(&chars("the not case"), &chars(" not ")));
    assert!(!contains_chars(&chars("nothing"), &chars(" not ")));
    assert!(contains_chars(&chars("x"), &chars("")));
    assert!(ends_with_chars(&chars("model.gguf"), &chars(".gguf")));
    assert!(!ends_with_chars(&chars("gguf"), &chars(".gguf")));
    assert_eq!(replace_chars(&chars("aaa"), &chars("aa"), &chars("b")), chars("ba"));
    assert_eq!(replace_chars(&chars("x-y-z"), &chars("-"), &chars("")), chars("xyz"));
}

#[test]
fn keyed_table_operations() {
    let mut t: KeyedTable<u32> = KeyedTable::new();
    assert!(t.insert_if_absent("a".to_string(), 1));
    assert!(!t.insert_if_absent("a".to_string(), 2));
    assert_eq!(t.get("a"), Some(&1));
    t.insert("a".to_string(), 3);
    t.insert("b".to_string(), 4);
    assert_eq!(t.get("a"), Some(&3));
    assert!(t.contains("b"));
    let mut keys = t.keys();
    keys.sort();
    assert_eq!(keys, vec!["a".to_string(), "b".to_string()]);
    assert_eq!(t.remove("a"), Some(3));
    assert_eq!(t.remove("a"), None);
    assert!(!t.contains("a"));
    assert_eq!(t.get("zzz"), None);
}

#[test]
fn default_load_config() {
    let c = ModelLoadConfig::default_with_gpu_layers(33);
    assert_eq!(c.model_id, "");
    assert_eq!(c.format, ModelFormat::Gguf);
    assert_eq!(c.context_length, 4096);
    assert_eq!(c.gpu_layers, 33);
    assert!(c.n_threads >= 1);
    assert!(c.use_mmap);
}

#[test]
fn gpu_layers_by_vram() {
    assert_eq!(gpu_layers_for_vram(Some(24000)), 99);
    assert_eq!(gpu_layers_for_vram(Some(16000)), 99);
    assert_eq!(gpu_layers_for_vram(Some(15999)), 33);
    assert_eq!(gpu_layers_for_vram(Some(8000)), 33);
    assert_eq!(gpu_layers_for_vram(Some(4000)), 20);
    assert_eq!(gpu_layers_for_vram(Some(2000)), 24);
    assert_eq!(gpu_layers_for_vram(None), 24);
}

#[test]
fn adapter_kinds_and_memory_estimates() {
    assert_eq!(adapter_kind_for_format(ModelFormat::Onnx), AdapterKind::Onnx);
    assert_eq!(adapter_kind_for_format(ModelFormat::Gguf), AdapterKind::Gguf);
    assert_eq!(adapter_kind_for_format(ModelFormat::SafeTensors), AdapterKind::Gguf);
    assert_eq!(estimated_memory_bytes(Some(123)), 123);
    assert_eq!(estimated_memory_bytes(None), 1_500_000_000);
}

#[test]
fn registry_load_lookup_unload() {
    let mut r: HotModelRegistry<&str> = HotModelRegistry::new(8);
    assert_eq!(r.max_memory_bytes(), 8 * 1024 * 1024 * 1024);
    assert!(r.load_model("phi".to_string(), "slot-1"));
    assert!(!r.load_model("phi".to_string(), "slot-2"));
    assert_eq!(r.get_adapter("phi"), Some(&"slot-1"));
    assert!(r.load_model("bert".to_string(), "slot-3"));
    assert!(r.is_loaded("bert"));
    let mut ids = r.list_loaded_ids();
    ids.sort();
    assert_eq!(ids, vec!["bert".to_string(), "phi".to_string()]);
    assert!(r.unload_model("phi"));
    assert!(!r.unload_model("phi"));
    assert!(!r.is_loaded("phi"));
    assert_eq!(r.get_adapter("phi"), None);
    assert_eq!(r.get_adapter("bert"), Some(&"slot-3"));
}

fn manifest(id: &str) -> PluginManifest {
    PluginManifest {
        id: id.to_string(),
        name: "Slack alert".to_string(),
        version: "0.1.0".to_string(),
        description: "Posts drift alerts".to_string(),
        category: PluginCategory::Integration,
        entrypoint: "plugin.wasm".to_string(),
        permissions: PluginPermissions {
            network_hosts: vec!["hooks.slack.com".to_string()],
            filesystem_reads: vec![],
            required_secrets: vec!["SLACK_WEBHOOK".to_string()],
        },
    }
}

#[test]
fn loaded_plugin_waits_for_approval() {
    let p = SandboxedPlugin::from_manifest(manifest("slack"), vec![0, 97, 115, 109]);
    assert!(!p.is_enabled);
    assert!(p.granted_permissions.network_hosts.is_empty());
    assert!(p.granted_permissions.filesystem_reads.is_empty());
    assert!(p.granted_permissions.required_secrets.is_empty());
    assert_eq!(p.wasm_bytes, vec![0, 97, 115, 109]);
    assert_eq!(p.check_enabled(), Err(PluginError::Disabled("slack".to_string())));
}

#[test]
fn approved_plugin_is_granted_its_declared_permissions() {
    let mut p = SandboxedPlugin::from_manifest(manifest("slack"), vec![]);
    p.approve();
    assert!(p.is_enabled);
    assert_eq!(p.granted_permissions.network_hosts, vec!["hooks.slack.com".to_string()]);
    assert_eq!(p.granted_permissions.required_secrets, vec!["SLACK_WEBHOOK".to_string()]);
    assert!(p.granted_permissions.filesystem_reads.is_empty());
    assert_eq!(p.check_enabled(), Ok(()));
}

#[test]
fn disabled_plugin_is_refused() {
    let mut p = SandboxedPlugin::from_manifest(manifest("slack"), vec![]);
    p.approve();
    p.is_enabled = false;
    assert_eq!(p.check_enabled(), Err(PluginError::Disabled("slack".to_string())));
}

#[test]
fn empty_permission_set() {
    let none = PluginPermissions::none();
    assert!(none.network_hosts.is_empty() && none.filesystem_reads.is_empty() && none.required_secrets.is_empty());
}

#[test]
fn migrations_still_to_apply() {
    assert_eq!(pending_migrations(0), vec![1, 2]);
    assert_eq!(pending_migrations(1), vec![2]);
    assert_eq!(pending_migrations(2), Vec::<i64>::new());
    assert_eq!(pending_migrations(-5), vec![1, 2]);
}

#[test]
fn corrections_get_fresh_v4_ids() {
    let c = record_correction("t1", "{\"text\":\"x\"}".to_string(), "q1", "true".to_string(), "api_feedback");
    assert_eq!(c.template_id, "t1");
    assert_eq!(c.state_content, "{\"text\":\"x\"}");
    assert_eq!(c.question_id, "q1");
    assert_eq!(c.ground_truth, "true");
    assert_eq!(c.corrected_by, "api_feedback");
    let id: Vec<char> = c.id.chars().collect();
    assert_eq!(id.len(), 36);
    for (i, ch) in id.iter().enumerate() {
        if i == 8 || i == 13 || i == 18 || i == 23 {
            assert_eq!(*ch, '-');
        } else {
            assert!(ch.is_ascii_hexdigit() && !ch.is_ascii_uppercase());
        }
    }
    assert_eq!(id[14], '4');
    assert!(matches!(id[19], '8' | '9' | 'a' | 'b'));
    let other = record_correction("t1", "{}".to_string(), "q1", "false".to_string(), "playground_user");
    assert_ne!(c.id, other.id);
    assert!(other.created_at_ms >= c.created_at_ms);
}

#[test]
fn calibration_method_without_calibration() {
    assert_ne!(CalibrationMethod::Uncalibrated, CalibrationMethod::PlattScaling);
}
