use rusty_chat::settings::{
    clamp_to_i32, zoom_in, zoom_out, FloatBits, Settings, SettingsDraft, StoredSettings,
    DEFAULT_TEMPERATURE_BITS, DEFAULT_TOP_P_BITS,
};

fn bits(x: f64) -> FloatBits {
    FloatBits { bits: x.to_bits() }
}

fn value(b: FloatBits) -> f64 {
    f64::from_bits(b.bits)
}

fn draft() -> SettingsDraft {
    SettingsDraft {
        model: "  llama3:8b \n".to_string(),
        system_prompt: " be brief ".to_string(),
        temperature: bits(1.25),
        top_p: bits(0.5),
        max_tokens: 5_000_000_000,
        zoom: -5_000_000_000,
        window_width: 800,
        window_height: 600,
    }
}

#[test]
fn clamp_limits_to_32_bits() {
    assert_eq!(clamp_to_i32(0), 0);
    assert_eq!(clamp_to_i32(512), 512);
    assert_eq!(clamp_to_i32(-7), -7);
    assert_eq!(clamp_to_i32(i32::MAX as i64), i32::MAX);
    assert_eq!(clamp_to_i32(i32::MAX as i64 + 1), i32::MAX);
    assert_eq!(clamp_to_i32(i32::MIN as i64), i32::MIN);
    assert_eq!(clamp_to_i32(i32::MIN as i64 - 1), i32::MIN);
    assert_eq!(clamp_to_i32(i64::MAX), i32::MAX);
    assert_eq!(clamp_to_i32(i64::MIN), i32::MIN);
}

#[test]
fn default_bit_patterns_are_the_defaults() {
    assert_eq!(f64::from_bits(DEFAULT_TEMPERATURE_BITS), 0.7);
    assert_eq!(f64::from_bits(DEFAULT_TOP_P_BITS), 0.95);
}

#[test]
fn initial_record_loads_as_the_defaults() {
    let s = StoredSettings::initial().load();
    assert_eq!(s.model, "");
    assert_eq!(s.system_prompt, "");
    assert_eq!(value(s.temperature), 0.7);
    assert_eq!(value(s.top_p), 0.95);
    assert_eq!(s.max_tokens, 512);
    assert_eq!(s.zoom, 100);
    assert_eq!(s.window_width, 1024);
    assert_eq!(s.window_height, 768);
    assert!(s.maximized);
}

#[test]
fn missing_fields_load_as_defaults() {
    let record = StoredSettings {
        model: "phi".to_string(),
        system_prompt: None,
        temperature: None,
        top_p: None,
        max_tokens: None,
        zoom: None,
        maximized: None,
        window_width: None,
        window_height: None,
    };
    let s = record.load();
    assert_eq!(s.model, "phi");
    assert_eq!(s.system_prompt, "");
    assert_eq!(value(s.temperature), 0.7);
    assert_eq!(value(s.top_p), 0.95);
    assert_eq!(s.max_tokens, 512);
    assert_eq!(s.zoom, 100);
    assert_eq!(s.window_width, 1024);
    assert_eq!(s.window_height, 768);
    assert!(s.maximized);
}

#[test]
fn maximized_is_forced_on_load() {
    let mut record = StoredSettings::initial();
    record.maximized = Some(0);
    assert!(record.load().maximized);
    record.maximized = None;
    assert!(record.load().maximized);
}

#[test]
fn stored_integers_are_clamped_on_load() {
    let mut record = StoredSettings::initial();
    record.max_tokens = Some(i64::MAX);
    record.zoom = Some(i64::MIN);
    record.window_width = Some(3_000_000_000);
    record.window_height = Some(-1);
    let s = record.load();
    assert_eq!(s.max_tokens, i32::MAX);
    assert_eq!(s.zoom, i32::MIN);
    assert_eq!(s.window_width, i32::MAX);
    assert_eq!(s.window_height, -1);
}

#[test]
fn model_is_not_trimmed_on_load() {
    let mut record = StoredSettings::initial();
    record.model = " phi ".to_string();
    assert_eq!(record.load().model, " phi ");
}

#[test]
fn canonical_form_trims_and_clamps() {
    let s = draft().canonicalize();
    assert_eq!(s.model, "llama3:8b");
    assert_eq!(s.system_prompt, " be brief ");
    assert_eq!(value(s.temperature), 1.25);
    assert_eq!(value(s.top_p), 0.5);
    assert_eq!(s.max_tokens, i32::MAX);
    assert_eq!(s.zoom, i32::MIN);
    assert_eq!(s.window_width, 800);
    assert_eq!(s.window_height, 600);
    assert!(s.maximized);
}

#[test]
fn record_holds_every_field() {
    let record = draft().canonicalize().to_record();
    assert_eq!(record.model, "llama3:8b");
    assert_eq!(record.system_prompt, Some(" be brief ".to_string()));
    assert_eq!(record.temperature, Some(bits(1.25)));
    assert_eq!(record.top_p, Some(bits(0.5)));
    assert_eq!(record.max_tokens, Some(i32::MAX as i64));
    assert_eq!(record.zoom, Some(i32::MIN as i64));
    assert_eq!(record.maximized, Some(1));
    assert_eq!(record.window_width, Some(800));
    assert_eq!(record.window_height, Some(600));
}

#[test]
fn unset_maximized_flag_is_stored_as_zero() {
    let mut s: Settings = draft().canonicalize();
    s.maximized = false;
    assert_eq!(s.to_record().maximized, Some(0));
}

#[test]
fn load_after_store_gives_the_settings_back() {
    let s = draft().canonicalize();
    let back = s.to_record().load();
    assert_eq!(back.model, s.model);
    assert_eq!(back.system_prompt, s.system_prompt);
    assert_eq!(back.temperature, s.temperature);
    assert_eq!(back.top_p, s.top_p);
    assert_eq!(back.max_tokens, s.max_tokens);
    assert_eq!(back.zoom, s.zoom);
    assert_eq!(back.window_width, s.window_width);
    assert_eq!(back.window_height, s.window_height);
    assert!(back.maximized);
}

#[test]
fn clones_are_equal() {
    let d = draft();
    assert_eq!(d.clone(), d);
    let s = d.canonicalize();
    assert_eq!(s.clone(), s);
    let r = s.to_record();
    assert_eq!(r.clone(), r);
}

#[test]
fn zoom_steps_stay_within_bounds() {
    assert_eq!(zoom_in(100), 110);
    assert_eq!(zoom_in(190), 200);
    assert_eq!(zoom_in(195), 200);
    assert_eq!(zoom_in(200), 200);
    assert_eq!(zoom_in(i32::MAX), 200);
    assert_eq!(zoom_in(0), 10);
    assert_eq!(zoom_out(100), 90);
    assert_eq!(zoom_out(60), 50);
    assert_eq!(zoom_out(55), 50);
    assert_eq!(zoom_out(50), 50);
    assert_eq!(zoom_out(i32::MIN), 50);
    assert_eq!(zoom_out(300), 290);
}
