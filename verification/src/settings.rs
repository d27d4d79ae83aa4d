//! Generation and window settings: the stored record, its defaults, and the
//! canonical form that every applied change is brought into.

use crate::text::{trim, trimmed};
use vstd::prelude::*;

verus! {

/// A sampling parameter, carried as the bit pattern of a 64-bit IEEE 754
/// number. The library stores and forwards it and never computes with it.
#[derive(Clone, Copy, Debug, PartialEq, Eq, Structural)]
pub struct FloatBits {
    pub bits: u64,
}

/// Bit pattern of the default temperature, seven tenths.
pub const DEFAULT_TEMPERATURE_BITS: u64 = 0x3FE6_6666_6666_6666;

/// Bit pattern of the default nucleus threshold, ninety-five hundredths.
pub const DEFAULT_TOP_P_BITS: u64 = 0x3FEE_6666_6666_6666;

/// Default limit on generated tokens.
pub const DEFAULT_MAX_TOKENS: i32 = 512;

/// Default zoom, in percent.
pub const DEFAULT_ZOOM: i32 = 100;

/// Default window width.
pub const DEFAULT_WINDOW_WIDTH: i32 = 1024;

/// Default window height.
pub const DEFAULT_WINDOW_HEIGHT: i32 = 768;

/// Smallest zoom that the zoom controls reach, in percent.
pub const MIN_ZOOM: i32 = 50;

/// Largest zoom that the zoom controls reach, in percent.
pub const MAX_ZOOM: i32 = 200;

/// What one press of a zoom control adds or takes, in percent.
pub const ZOOM_STEP: i32 = 10;

/// The settings in canonical form, as the rest of the program uses them.
#[derive(Debug, PartialEq, Eq)]
pub struct Settings {
    pub model: String,
    pub system_prompt: String,
    pub temperature: FloatBits,
    pub top_p: FloatBits,
    pub max_tokens: i32,
    pub zoom: i32,
    pub maximized: bool,
    pub window_width: i32,
    pub window_height: i32,
}

/// Mathematical value of [`Settings`].
pub struct SettingsView {
    pub model: Seq<char>,
    pub system_prompt: Seq<char>,
    pub temperature: FloatBits,
    pub top_p: FloatBits,
    pub max_tokens: i32,
    pub zoom: i32,
    pub maximized: bool,
    pub window_width: i32,
    pub window_height: i32,
}

impl View for Settings {
    type V = SettingsView;

    open spec fn view(&self) -> SettingsView {
        SettingsView {
            model: self.model@,
            system_prompt: self.system_prompt@,
            temperature: self.temperature,
            top_p: self.top_p,
            max_tokens: self.max_tokens,
            zoom: self.zoom,
            maximized: self.maximized,
            window_width: self.window_width,
            window_height: self.window_height,
        }
    }
}

/// The settings record as it is stored: every field but the model may be
/// missing, and the integers are as wide as the storage keeps them.
#[derive(Debug, PartialEq, Eq)]
pub struct StoredSettings {
    pub model: String,
    pub system_prompt: Option<String>,
    pub temperature: Option<FloatBits>,
    pub top_p: Option<FloatBits>,
    pub max_tokens: Option<i64>,
    pub zoom: Option<i64>,
    pub maximized: Option<i64>,
    pub window_width: Option<i64>,
    pub window_height: Option<i64>,
}

/// Mathematical value of [`StoredSettings`].
pub struct StoredSettingsView {
    pub model: Seq<char>,
    pub system_prompt: Option<Seq<char>>,
    pub temperature: Option<FloatBits>,
    pub top_p: Option<FloatBits>,
    pub max_tokens: Option<i64>,
    pub zoom: Option<i64>,
    pub maximized: Option<i64>,
    pub window_width: Option<i64>,
    pub window_height: Option<i64>,
}

impl View for StoredSettings {
    type V = StoredSettingsView;

    open spec fn view(&self) -> StoredSettingsView {
        StoredSettingsView {
            model: self.model@,
            system_prompt: match self.system_prompt {
                Some(p) => Some(p@),
                None => None,
            },
            temperature: self.temperature,
            top_p: self.top_p,
            max_tokens: self.max_tokens,
            zoom: self.zoom,
            maximized: self.maximized,
            window_width: self.window_width,
            window_height: self.window_height,
        }
    }
}

/// What the settings form submits: free text and integers of any size.
/// Whether the window starts maximized is not among them.
#[derive(Debug, PartialEq, Eq)]
pub struct SettingsDraft {
    pub model: String,
    pub system_prompt: String,
    pub temperature: FloatBits,
    pub top_p: FloatBits,
    pub max_tokens: i64,
    pub zoom: i64,
    pub window_width: i64,
    pub window_height: i64,
}

/// Mathematical value of [`SettingsDraft`].
pub struct SettingsDraftView {
    pub model: Seq<char>,
    pub system_prompt: Seq<char>,
    pub temperature: FloatBits,
    pub top_p: FloatBits,
    pub max_tokens: i64,
    pub zoom: i64,
    pub window_width: i64,
    pub window_height: i64,
}

impl View for SettingsDraft {
    type V = SettingsDraftView;

    open spec fn view(&self) -> SettingsDraftView {
        SettingsDraftView {
            model: self.model@,
            system_prompt: self.system_prompt@,
            temperature: self.temperature,
            top_p: self.top_p,
            max_tokens: self.max_tokens,
            zoom: self.zoom,
            window_width: self.window_width,
            window_height: self.window_height,
        }
    }
}

/// The mathematical value of `v` limited to the 32-bit signed range.
pub open spec fn clamped_i32(v: int) -> i32 {
    if v > i32::MAX {
        i32::MAX
    } else if v < i32::MIN {
        i32::MIN
    } else {
        v as i32
    }
}

/// A stored integer in canonical form: the fallback when it is missing, else
/// its value limited to the 32-bit signed range.
pub open spec fn stored_i32(stored: Option<i64>, fallback: i32) -> i32 {
    match stored {
        Some(v) => clamped_i32(v as int),
        None => fallback,
    }
}

/// The record that a fresh store holds: no model, an empty system prompt,
/// and the default of every other field. The maximized flag is set.
pub open spec fn initial_record() -> StoredSettingsView {
    StoredSettingsView {
        model: Seq::empty(),
        system_prompt: Some(Seq::empty()),
        temperature: Some(FloatBits { bits: DEFAULT_TEMPERATURE_BITS }),
        top_p: Some(FloatBits { bits: DEFAULT_TOP_P_BITS }),
        max_tokens: Some(DEFAULT_MAX_TOKENS as i64),
        zoom: Some(DEFAULT_ZOOM as i64),
        maximized: Some(1i64),
        window_width: Some(DEFAULT_WINDOW_WIDTH as i64),
        window_height: Some(DEFAULT_WINDOW_HEIGHT as i64),
    }
}

/// The settings that a stored record stands for: the model as stored, a
/// default for each missing field, integers limited to 32 bits, and the
/// maximized flag set whatever the record holds.
pub open spec fn loaded(record: StoredSettingsView) -> SettingsView {
    SettingsView {
        model: record.model,
        system_prompt: match record.system_prompt {
            Some(p) => p,
            None => Seq::empty(),
        },
        temperature: match record.temperature {
            Some(t) => t,
            None => FloatBits { bits: DEFAULT_TEMPERATURE_BITS },
        },
        top_p: match record.top_p {
            Some(t) => t,
            None => FloatBits { bits: DEFAULT_TOP_P_BITS },
        },
        max_tokens: stored_i32(record.max_tokens, DEFAULT_MAX_TOKENS),
        zoom: stored_i32(record.zoom, DEFAULT_ZOOM),
        maximized: true,
        window_width: stored_i32(record.window_width, DEFAULT_WINDOW_WIDTH),
        window_height: stored_i32(record.window_height, DEFAULT_WINDOW_HEIGHT),
    }
}

/// The canonical settings that a draft stands for: the model trimmed, the
/// integers limited to 32 bits, the maximized flag set.
pub open spec fn canonical(draft: SettingsDraftView) -> SettingsView {
    SettingsView {
        model: trimmed(draft.model),
        system_prompt: draft.system_prompt,
        temperature: draft.temperature,
        top_p: draft.top_p,
        max_tokens: clamped_i32(draft.max_tokens as int),
        zoom: clamped_i32(draft.zoom as int),
        maximized: true,
        window_width: clamped_i32(draft.window_width as int),
        window_height: clamped_i32(draft.window_height as int),
    }
}

/// The record that is written for canonical settings: every field present.
pub open spec fn record_of(s: SettingsView) -> StoredSettingsView {
    StoredSettingsView {
        model: s.model,
        system_prompt: Some(s.system_prompt),
        temperature: Some(s.temperature),
        top_p: Some(s.top_p),
        max_tokens: Some(s.max_tokens as i64),
        zoom: Some(s.zoom as i64),
        maximized: Some(
            if s.maximized {
                1i64
            } else {
                0i64
            },
        ),
        window_width: Some(s.window_width as i64),
        window_height: Some(s.window_height as i64),
    }
}

/// The zoom after one press of the enlarging control: a step more, and
/// never above the largest zoom.
pub open spec fn zoomed_in(zoom: i32) -> i32 {
    if zoom + ZOOM_STEP >= MAX_ZOOM {
        MAX_ZOOM
    } else {
        (zoom + ZOOM_STEP) as i32
    }
}

/// The zoom after one press of the reducing control: a step less, and never
/// below the smallest zoom.
pub open spec fn zoomed_out(zoom: i32) -> i32 {
    if zoom - ZOOM_STEP <= MIN_ZOOM {
        MIN_ZOOM
    } else {
        (zoom - ZOOM_STEP) as i32
    }
}

/// Limits a 64-bit value to the 32-bit signed range.
pub fn clamp_to_i32(v: i64) -> (r: i32)
    ensures
        r == clamped_i32(v as int),
{
    if v > 2147483647i64 {
        2147483647i32
    } else if v < -2147483648i64 {
        -2147483648i32
    } else {
        v as i32
    }
}

/// Enlarges the zoom by one step.
pub fn zoom_in(zoom: i32) -> (r: i32)
    ensures
        r == zoomed_in(zoom),
{
    if zoom >= MAX_ZOOM - ZOOM_STEP {
        MAX_ZOOM
    } else {
        zoom + ZOOM_STEP
    }
}

/// Reduces the zoom by one step.
pub fn zoom_out(zoom: i32) -> (r: i32)
    ensures
        r == zoomed_out(zoom),
{
    if zoom <= MIN_ZOOM + ZOOM_STEP {
        MIN_ZOOM
    } else {
        zoom - ZOOM_STEP
    }
}

fn stored_to_i32(stored: &Option<i64>, fallback: i32) -> (r: i32)
    ensures
        r == stored_i32(*stored, fallback),
{
    match stored {
        Some(v) => clamp_to_i32(*v),
        None => fallback,
    }
}

fn widened(v: i32) -> (r: i64)
    ensures
        r == v,
{
    v as i64
}

impl StoredSettings {
    /// The record of a fresh store.
    pub fn initial() -> (r: StoredSettings)
        ensures
            r@ == initial_record(),
    {
        StoredSettings {
            model: String::new(),
            system_prompt: Some(String::new()),
            temperature: Some(FloatBits { bits: DEFAULT_TEMPERATURE_BITS }),
            top_p: Some(FloatBits { bits: DEFAULT_TOP_P_BITS }),
            max_tokens: Some(widened(DEFAULT_MAX_TOKENS)),
            zoom: Some(widened(DEFAULT_ZOOM)),
            maximized: Some(1),
            window_width: Some(widened(DEFAULT_WINDOW_WIDTH)),
            window_height: Some(widened(DEFAULT_WINDOW_HEIGHT)),
        }
    }

    /// The settings that this record stands for.
    pub fn load(&self) -> (r: Settings)
        ensures
            r@ == loaded(self@),
    {
        Settings {
            model: self.model.clone(),
            system_prompt: match &self.system_prompt {
                Some(p) => p.clone(),
                None => String::new(),
            },
            temperature: match self.temperature {
                Some(t) => t,
                None => FloatBits { bits: DEFAULT_TEMPERATURE_BITS },
            },
            top_p: match self.top_p {
                Some(t) => t,
                None => FloatBits { bits: DEFAULT_TOP_P_BITS },
            },
            max_tokens: stored_to_i32(&self.max_tokens, DEFAULT_MAX_TOKENS),
            zoom: stored_to_i32(&self.zoom, DEFAULT_ZOOM),
            maximized: true,
            window_width: stored_to_i32(&self.window_width, DEFAULT_WINDOW_WIDTH),
            window_height: stored_to_i32(&self.window_height, DEFAULT_WINDOW_HEIGHT),
        }
    }

}

impl Clone for StoredSettings {
    fn clone(&self) -> (r: StoredSettings)
        ensures
            r == *self,
    {
        StoredSettings {
            model: self.model.clone(),
            system_prompt: match &self.system_prompt {
                Some(p) => Some(p.clone()),
                None => None,
            },
            temperature: self.temperature,
            top_p: self.top_p,
            max_tokens: self.max_tokens,
            zoom: self.zoom,
            maximized: self.maximized,
            window_width: self.window_width,
            window_height: self.window_height,
        }
    }
}

impl SettingsDraft {
    /// Brings the draft into canonical form.
    pub fn canonicalize(&self) -> (r: Settings)
        ensures
            r@ == canonical(self@),
    {
        Settings {
            model: trim(self.model.as_str()),
            system_prompt: self.system_prompt.clone(),
            temperature: self.temperature,
            top_p: self.top_p,
            max_tokens: clamp_to_i32(self.max_tokens),
            zoom: clamp_to_i32(self.zoom),
            maximized: true,
            window_width: clamp_to_i32(self.window_width),
            window_height: clamp_to_i32(self.window_height),
        }
    }
}

impl Settings {
    /// The record to store for these settings.
    pub fn to_record(&self) -> (r: StoredSettings)
        ensures
            r@ == record_of(self@),
    {
        StoredSettings {
            model: self.model.clone(),
            system_prompt: Some(self.system_prompt.clone()),
            temperature: Some(self.temperature),
            top_p: Some(self.top_p),
            max_tokens: Some(widened(self.max_tokens)),
            zoom: Some(widened(self.zoom)),
            maximized: Some(
                if self.maximized {
                    1
                } else {
                    0
                },
            ),
            window_width: Some(widened(self.window_width)),
            window_height: Some(widened(self.window_height)),
        }
    }

}

impl Clone for Settings {
    fn clone(&self) -> (r: Settings)
        ensures
            r == *self,
    {
        Settings {
            model: self.model.clone(),
            system_prompt: self.system_prompt.clone(),
            temperature: self.temperature,
            top_p: self.top_p,
            max_tokens: self.max_tokens,
            zoom: self.zoom,
            maximized: self.maximized,
            window_width: self.window_width,
            window_height: self.window_height,
        }
    }
}

impl Clone for SettingsDraft {
    fn clone(&self) -> (r: SettingsDraft)
        ensures
            r == *self,
    {
        SettingsDraft {
            model: self.model.clone(),
            system_prompt: self.system_prompt.clone(),
            temperature: self.temperature,
            top_p: self.top_p,
            max_tokens: self.max_tokens,
            zoom: self.zoom,
            window_width: self.window_width,
            window_height: self.window_height,
        }
    }
}

/// Loading what was stored for canonical settings gives them back, with the
/// maximized flag set.
pub proof fn lemma_load_after_store(s: SettingsView)
    ensures
        loaded(record_of(s)) == (SettingsView { maximized: true, ..s }),
{
}

/// Canonical form is stable: a draft made of canonical settings stands for
/// the same settings.
pub proof fn lemma_canonical_is_stable(d: SettingsDraftView)
    ensures
        ({
            let c = canonical(d);
            canonical(
                SettingsDraftView {
                    model: c.model,
                    system_prompt: c.system_prompt,
                    temperature: c.temperature,
                    top_p: c.top_p,
                    max_tokens: c.max_tokens as i64,
                    zoom: c.zoom as i64,
                    window_width: c.window_width as i64,
                    window_height: c.window_height as i64,
                },
            ) == c
        }),
{
    crate::text::lemma_trimmed_twice(d.model);
}

} // verus!
