//! Editing of the developer panel's numeric fields from the keyboard, and
//! the panel's seed controls.
use vstd::prelude::*;
use crate::text::{chars_of, decimal_digits, decimal_of, lemma_decimal_roundtrip, parse_u64, parse_u64_spec, sign_stripped, is_digit};
use crate::context::PlanetContextLayer;
use crate::patch_materials::string_from_chars;

verus! {

/// The tunable parameters of the developer panel.
#[derive(Clone, Copy, Debug, PartialEq, Eq, Hash, Structural)]
pub enum ParameterKind {
    WaterLevel,
    Radius,
    HeightAmp,
    BaseFreq,
    DetailFreq,
    WarpFreq,
    WarpAmp,
    Mountains,
    Rotation,
    SunBrightness,
    LodSurfaceError,
    LodApproachError,
}

/// Whether changing a parameter asks for the planet to be rebuilt: all but
/// the level-of-detail error thresholds, which are read every frame.
pub fn marks_dirty(kind: ParameterKind) -> (r: bool)
    ensures
        r == !(kind == ParameterKind::LodSurfaceError || kind == ParameterKind::LodApproachError),
{
    match kind {
        ParameterKind::LodSurfaceError => false,
        ParameterKind::LodApproachError => false,
        _ => true,
    }
}

/// The field being typed into.
#[derive(Clone, Copy, Debug, PartialEq, Eq, Hash, Structural)]
pub enum InputKind {
    Seed,
    Parameter(ParameterKind),
}

/// The editing keys pressed during one frame.
pub struct NumericKeys {
    /// The digits typed, in the order the panel scans its digit keys.
    pub digits: Vec<char>,
    /// A decimal point key.
    pub decimal: bool,
    /// A minus key.
    pub minus: bool,
    pub backspace: bool,
    pub escape: bool,
    pub enter: bool,
}

/// What became of the field after a frame of editing.
#[derive(Clone, Copy, Debug, PartialEq, Eq, Hash, Structural)]
pub enum EditOutcome {
    /// Still being edited.
    Editing,
    /// Abandoned without a change.
    Cancelled,
    /// Submitted: the buffer is to be read.
    Submitted,
}

/// The buffer after the keys of one frame: digits appended, then a point if
/// there is none yet, then the sign flipped, then one character removed.
pub open spec fn edited(buffer: Seq<char>, digits: Seq<char>, decimal: bool, minus: bool, backspace: bool) -> Seq<char> {
    let b1 = buffer + digits;
    let b2 = if decimal && !b1.contains('.') {
        b1.push('.')
    } else {
        b1
    };
    let b3 = if minus {
        if b2.len() > 0 && b2[0] == '-' {
            b2.drop_first()
        } else {
            seq!['-'] + b2
        }
    } else {
        b2
    };
    if backspace && b3.len() > 0 {
        b3.drop_last()
    } else {
        b3
    }
}

/// Applies one frame of editing keys to `buffer`.  Escape abandons the
/// field; otherwise Enter submits it.
pub fn edit_buffer(buffer: &mut Vec<char>, keys: &NumericKeys) -> (r: EditOutcome)
    ensures
        final(buffer)@ == edited(old(buffer)@, keys.digits@, keys.decimal, keys.minus, keys.backspace),
        r == if keys.escape {
            EditOutcome::Cancelled
        } else if keys.enter {
            EditOutcome::Submitted
        } else {
            EditOutcome::Editing
        },
{
    let ghost start = buffer@;
    let n = keys.digits.len();
    for i in 0..n
        invariant
            n == keys.digits@.len(),
            buffer@ == start + keys.digits@.take(i as int),
    {
        buffer.push(keys.digits[i]);
        assert(buffer@ =~= start + keys.digits@.take(i + 1));
    }
    assert(keys.digits@.take(n as int) =~= keys.digits@);
    let ghost b1 = buffer@;
    if keys.decimal {
        let mut has_point = false;
        let m = buffer.len();
        for j in 0..m
            invariant
                m == buffer@.len(),
                has_point == exists|k: int| 0 <= k < j && buffer@[k] == '.',
        {
            if buffer[j] == '.' {
                has_point = true;
            }
        }
        if !has_point {
            buffer.push('.');
        }
    }
    let ghost b2 = buffer@;
    if keys.minus {
        if buffer.len() > 0 && buffer[0] == '-' {
            buffer.remove(0);
            assert(buffer@ =~= b2.drop_first());
        } else {
            buffer.insert(0, '-');
            assert(buffer@ =~= seq!['-'] + b2);
        }
    }
    if keys.backspace {
        buffer.pop();
    }
    if keys.escape {
        EditOutcome::Cancelled
    } else if keys.enter {
        EditOutcome::Submitted
    } else {
        EditOutcome::Editing
    }
}

/// The seed after submitting `buffer` while the seed is `seed`: the number
/// typed, when it reads as one and differs, and whether the planet must be
/// rebuilt.  The buffer holds digits, `.` and `-` only, so it needs no trimming.
pub open spec fn submitted_seed(seed: u64, buffer: Seq<char>) -> (u64, bool) {
    match parse_u64_spec(buffer) {
        Some(v) => if v != seed {
            (v, true)
        } else {
            (seed, false)
        },
        None => (seed, false),
    }
}

/// Reads a submitted seed.
pub fn submit_seed(seed: u64, buffer: &Vec<char>) -> (r: (u64, bool))
    ensures
        r == submitted_seed(seed, buffer@),
{
    match parse_u64(buffer) {
        Some(v) => if v != seed {
            (v, true)
        } else {
            (seed, false)
        },
        None => (seed, false),
    }
}

/// The text the seed field starts from: the seed in decimal.
pub fn seed_buffer(seed: u64) -> (r: Vec<char>)
    ensures
        r@ == decimal_of(seed as nat),
{
    decimal_digits(seed)
}

/// Opening the seed field and submitting it untouched keeps the seed and
/// asks for no rebuild.
pub proof fn lemma_untouched_seed_unchanged(seed: u64)
    ensures
        submitted_seed(seed, decimal_of(seed as nat)) == (seed, false),
{
    lemma_decimal_roundtrip(seed as nat);
    let s = decimal_of(seed as nat);
    assert(is_digit(s[0]));
    assert(sign_stripped(s) == s);
}

/// The next seed offered by the reroll button.
pub fn reroll_seed(seed: u64) -> (r: u64)
    ensures
        r == seed.wrapping_add(1),
{
    seed.wrapping_add(1)
}

/// The seeds a sweep visits: `count` consecutive seeds from `base`, wrapping
/// around after the largest.
pub fn sweep_seeds(base: u64, count: u32) -> (r: Vec<u64>)
    ensures
        r@.len() == count,
        forall|i: int| 0 <= i < count ==> #[trigger] r@[i] == base.wrapping_add(i as u64),
{
    let mut out: Vec<u64> = Vec::new();
    for offset in 0..count
        invariant
            out@.len() == offset,
            forall|i: int| 0 <= i < offset ==> #[trigger] out@[i] == base.wrapping_add(i as u64),
    {
        out.push(base.wrapping_add(offset as u64));
    }
    out
}

/// The panel's name for a context layer.
pub open spec fn layer_label_spec(layer: PlanetContextLayer) -> Seq<char> {
    match layer {
        PlanetContextLayer::Orbit => "Orbit"@,
        PlanetContextLayer::Approach => "Approach"@,
        PlanetContextLayer::Surface => "Surface"@,
    }
}

/// The panel's name for a context layer.
pub fn layer_label(layer: PlanetContextLayer) -> (r: &'static str)
    ensures
        r@ == layer_label_spec(layer),
{
    match layer {
        PlanetContextLayer::Orbit => "Orbit",
        PlanetContextLayer::Approach => "Approach",
        PlanetContextLayer::Surface => "Surface",
    }
}

/// The panel's status line for the streaming context.
pub open spec fn context_line_spec(layer: PlanetContextLayer, loaded: nat, requested: nat) -> Seq<char> {
    "Context: "@ + layer_label_spec(layer) + " | Surface patches: "@ + decimal_of(loaded) + " / "@ + decimal_of(
        requested,
    )
}

/// The panel's status line: the context layer and how many surface patches
/// are loaded out of those requested.
pub fn context_line(layer: PlanetContextLayer, loaded: usize, requested: usize) -> (r: String)
    ensures
        r@ == context_line_spec(layer, loaded as nat, requested as nat),
{
    let mut out = chars_of("Context: ");
    let mut label = chars_of(layer_label(layer));
    out.append(&mut label);
    let mut sep = chars_of(" | Surface patches: ");
    out.append(&mut sep);
    let mut l = decimal_digits(loaded as u64);
    out.append(&mut l);
    let mut slash = chars_of(" / ");
    out.append(&mut slash);
    let mut q = decimal_digits(requested as u64);
    out.append(&mut q);
    string_from_chars(&out)
}

} // verus!
