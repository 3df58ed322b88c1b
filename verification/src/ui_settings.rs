//! User-facing settings and their text form.
use crate::text::{
    chars_eq, chars_of, find_char, first_index_of, is_ws, lemma_first_index_of, lemma_trim_noop, trim,
    trimmed,
};
use vstd::prelude::*;
use vstd::string::StringExecFns;

verus! {

#[derive(Clone, Copy, Debug, PartialEq, Eq, Structural)]
pub enum UiAudioBackend {
    // Android
    AAudio,
    AudioTrack,
    // Desktop
    Midi,
    Synth,
}

/// The desktop backend after `b`: MIDI and synth alternate; others fall back to MIDI.
pub open spec fn next_desktop_backend(b: UiAudioBackend) -> UiAudioBackend {
    match b {
        UiAudioBackend::Midi => UiAudioBackend::Synth,
        UiAudioBackend::Synth => UiAudioBackend::Midi,
        _ => UiAudioBackend::Midi,
    }
}

/// The Android backend after `b`: AAudio and AudioTrack alternate; others fall back to AAudio.
pub open spec fn next_android_backend(b: UiAudioBackend) -> UiAudioBackend {
    match b {
        UiAudioBackend::AAudio => UiAudioBackend::AudioTrack,
        UiAudioBackend::AudioTrack => UiAudioBackend::AAudio,
        _ => UiAudioBackend::AAudio,
    }
}

impl UiAudioBackend {
    pub fn cycle_desktop(self) -> (r: Self)
        ensures
            r == next_desktop_backend(self),
    {
        match self {
            UiAudioBackend::Midi => UiAudioBackend::Synth,
            UiAudioBackend::Synth => UiAudioBackend::Midi,
            _ => UiAudioBackend::Midi,
        }
    }

    pub fn cycle_android(self) -> (r: Self)
        ensures
            r == next_android_backend(self),
    {
        match self {
            UiAudioBackend::AAudio => UiAudioBackend::AudioTrack,
            UiAudioBackend::AudioTrack => UiAudioBackend::AAudio,
            _ => UiAudioBackend::AAudio,
        }
    }
}

#[derive(Clone, Copy, Debug, PartialEq, Eq, Structural)]
pub struct UiSettings {
    pub show_note_names: bool,
    pub play_on_tap: bool,
    pub show_roman_chords: bool,
    /// Android only: whether the on-screen chord buttons show.
    pub show_chord_buttons: bool,
    /// Selected audio output (not every backend exists on every platform).
    pub audio_backend: UiAudioBackend,
    /// Synth tuning reference (A4) in Hz.
    pub a4_tuning_hz: u16,
    /// Whether strumming in the lower part of a row bends the held note (synth backends only).
    pub bend_notes: bool,
}

/// The settings of a fresh installation.
pub open spec fn default_settings() -> UiSettings {
    UiSettings {
        show_note_names: false,
        play_on_tap: true,
        show_roman_chords: true,
        show_chord_buttons: true,
        audio_backend: UiAudioBackend::Midi,
        a4_tuning_hz: 440,
        bend_notes: false,
    }
}

impl Default for UiSettings {
    fn default() -> (r: Self)
        ensures
            r == default_settings(),
    {
        Self {
            show_note_names: false,
            play_on_tap: true,
            show_roman_chords: true,
            show_chord_buttons: true,
            audio_backend: UiAudioBackend::Midi,
            a4_tuning_hz: 440,
            bend_notes: false,
        }
    }
}

/// Lowest A4 tuning the settings keep.
pub const A4_MIN_HZ: u16 = 430;

/// Highest A4 tuning the settings keep.
pub const A4_MAX_HZ: u16 = 450;

pub open spec fn clamp_tuning(hz: int) -> int {
    if hz < A4_MIN_HZ {
        A4_MIN_HZ as int
    } else if hz > A4_MAX_HZ {
        A4_MAX_HZ as int
    } else {
        hz
    }
}

pub open spec fn bool_text(b: bool) -> Seq<char> {
    if b {
        "true"@
    } else {
        "false"@
    }
}

/// Desktop settings only know two backends; anything but the synth is stored as MIDI.
pub open spec fn backend_text(b: UiAudioBackend) -> Seq<char> {
    if b == UiAudioBackend::Synth {
        "synth"@
    } else {
        "midi"@
    }
}

/// The decimal digit for `d` (0 to 9).
pub open spec fn digit_char(d: int) -> char {
    if d <= 0 {
        '0'
    } else if d == 1 {
        '1'
    } else if d == 2 {
        '2'
    } else if d == 3 {
        '3'
    } else if d == 4 {
        '4'
    } else if d == 5 {
        '5'
    } else if d == 6 {
        '6'
    } else if d == 7 {
        '7'
    } else if d == 8 {
        '8'
    } else {
        '9'
    }
}

/// Decimal digits of `n`, most significant first.
pub open spec fn decimal(n: nat) -> Seq<char>
    decreases n,
{
    if n < 10 {
        seq![digit_char(n as int)]
    } else {
        decimal(n / 10).push(digit_char((n % 10) as int))
    }
}

/// One stored line: `key=` (the key with its `=`), the value, and a line break.
pub open spec fn setting_line(key_eq: Seq<char>, value: Seq<char>) -> Seq<char> {
    key_eq + value + "\n"@
}

/// The text form of the desktop settings: one `key=value` line per stored setting.
pub open spec fn encoded(s: UiSettings) -> Seq<char> {
    setting_line("show_note_names="@, bool_text(s.show_note_names)) + (setting_line(
        "play_on_tap="@,
        bool_text(s.play_on_tap),
    ) + (setting_line("show_roman_chords="@, bool_text(s.show_roman_chords)) + (setting_line(
        "audio_backend="@,
        backend_text(s.audio_backend),
    ) + setting_line("a4_tuning_hz="@, decimal(s.a4_tuning_hz as nat)))))
}

/// What the stored text keeps of `s`: the settings that are written out (the backend as
/// MIDI or synth, the tuning within its range), the rest as in a fresh installation.
pub open spec fn stored_settings(s: UiSettings) -> UiSettings {
    UiSettings {
        show_note_names: s.show_note_names,
        play_on_tap: s.play_on_tap,
        show_roman_chords: s.show_roman_chords,
        show_chord_buttons: default_settings().show_chord_buttons,
        audio_backend: if s.audio_backend == UiAudioBackend::Synth {
            UiAudioBackend::Synth
        } else {
            UiAudioBackend::Midi
        },
        a4_tuning_hz: clamp_tuning(s.a4_tuning_hz as int) as u16,
        bend_notes: default_settings().bend_notes,
    }
}

pub open spec fn is_digit(c: char) -> bool {
    '0' <= c <= '9'
}

/// The value of a string of decimal digits.
pub open spec fn digits_value(d: Seq<char>) -> nat
    decreases d.len(),
{
    if d.len() == 0 {
        0
    } else {
        digits_value(d.drop_last()) * 10 + ((d.last() as u32) - 48) as nat
    }
}

/// What follows an optional leading `+`.
pub open spec fn parse_digits_part(v: Seq<char>) -> Seq<char> {
    if v.len() > 0 && v[0] == '+' {
        v.drop_first()
    } else {
        v
    }
}

/// `str::parse::<u16>`: an optional `+`, then one or more decimal digits, at most 65535.
pub open spec fn parse_u16(v: Seq<char>) -> Option<u16> {
    let d = parse_digits_part(v);
    if d.len() > 0 && (forall|i: int| 0 <= i < d.len() ==> is_digit(#[trigger] d[i]))
        && digits_value(d) <= u16::MAX {
        Some(digits_value(d) as u16)
    } else {
        None
    }
}

/// What a `key=value` pair (both already trimmed) does to the settings; unknown keys do nothing.
pub open spec fn apply_pair(k: Seq<char>, v: Seq<char>, acc: UiSettings) -> UiSettings {
    if k == "show_note_names"@ {
        UiSettings { show_note_names: v == "true"@, ..acc }
    } else if k == "play_on_tap"@ {
        UiSettings { play_on_tap: v != "false"@, ..acc }
    } else if k == "show_roman_chords"@ {
        UiSettings { show_roman_chords: v != "false"@, ..acc }
    } else if k == "audio_backend"@ {
        UiSettings {
            audio_backend: if v == "synth"@ {
                UiAudioBackend::Synth
            } else {
                UiAudioBackend::Midi
            },
            ..acc
        }
    } else if k == "a4_tuning_hz"@ {
        match parse_u16(v) {
            Some(hz) => UiSettings { a4_tuning_hz: clamp_tuning(hz as int) as u16, ..acc },
            None => acc,
        }
    } else {
        acc
    }
}

/// What one line does to the settings: `key=value`, both trimmed; other lines do nothing.
pub open spec fn apply_line(line: Seq<char>, acc: UiSettings) -> UiSettings {
    let p = first_index_of(line, '=');
    if p == line.len() {
        acc
    } else {
        apply_pair(trim(line.subrange(0, p)), trim(line.subrange(p + 1, line.len() as int)), acc)
    }
}

/// Apply the lines of `s` (separated by `\n`) in order.
pub open spec fn decode_lines(s: Seq<char>, acc: UiSettings) -> UiSettings
    decreases s.len(),
{
    if s.len() == 0 {
        acc
    } else {
        let i = first_index_of(s, '\n');
        proof {
            lemma_first_index_bound(s, '\n');
        }
        let acc2 = apply_line(s.subrange(0, i), acc);
        if i < s.len() {
            decode_lines(s.subrange(i + 1, s.len() as int), acc2)
        } else {
            acc2
        }
    }
}

pub proof fn lemma_first_index_bound(s: Seq<char>, c: char)
    ensures
        0 <= first_index_of(s, c) <= s.len(),
        first_index_of(s, c) < s.len() ==> s[first_index_of(s, c)] == c,
    decreases s.len(),
{
    if s.len() > 0 && s[0] != c {
        lemma_first_index_bound(s.drop_first(), c);
    }
}

fn bool_str(b: bool) -> (r: &'static str)
    ensures
        r@ == bool_text(b),
{
    if b {
        "true"
    } else {
        "false"
    }
}

fn digit_str(d: u16) -> (r: &'static str)
    requires
        d < 10,
    ensures
        r@ == seq![digit_char(d as int)],
{
    proof {
        reveal_strlit("0");
        reveal_strlit("1");
        reveal_strlit("2");
        reveal_strlit("3");
        reveal_strlit("4");
        reveal_strlit("5");
        reveal_strlit("6");
        reveal_strlit("7");
        reveal_strlit("8");
        reveal_strlit("9");
    }
    let r = match d {
        0 => "0",
        1 => "1",
        2 => "2",
        3 => "3",
        4 => "4",
        5 => "5",
        6 => "6",
        7 => "7",
        8 => "8",
        _ => "9",
    };
    assert(r@ =~= seq![digit_char(d as int)]);
    r
}

fn append_decimal(out: &mut String, n: u16)
    ensures
        final(out)@ == old(out)@ + decimal(n as nat),
    decreases n,
{
    if n >= 10 {
        append_decimal(out, n / 10);
    }
    out.append(digit_str(n % 10));
    assert(final(out)@ =~= old(out)@ + decimal(n as nat));
}

/// The decimal digits of `n`.
pub fn decimal_string(n: u16) -> (r: String)
    ensures
        r@ == decimal(n as nat),
{
    let mut out = String::new();
    append_decimal(&mut out, n);
    assert(out@ =~= decimal(n as nat));
    out
}

fn push_setting(out: &mut String, key_eq: &str, value: &str)
    ensures
        final(out)@ == old(out)@ + setting_line(key_eq@, value@),
{
    out.append(key_eq);
    out.append(value);
    out.append("\n");
    assert(final(out)@ =~= old(out)@ + setting_line(key_eq@, value@));
}

/// The text form of the settings that the desktop app stores.
pub fn encode_settings(s: &UiSettings) -> (r: String)
    ensures
        r@ == encoded(*s),
{
    let ghost l1 = setting_line("show_note_names="@, bool_text(s.show_note_names));
    let ghost l2 = setting_line("play_on_tap="@, bool_text(s.play_on_tap));
    let ghost l3 = setting_line("show_roman_chords="@, bool_text(s.show_roman_chords));
    let ghost l4 = setting_line("audio_backend="@, backend_text(s.audio_backend));
    let ghost l5 = setting_line("a4_tuning_hz="@, decimal(s.a4_tuning_hz as nat));
    let mut out = String::new();
    push_setting(&mut out, "show_note_names=", bool_str(s.show_note_names));
    push_setting(&mut out, "play_on_tap=", bool_str(s.play_on_tap));
    push_setting(&mut out, "show_roman_chords=", bool_str(s.show_roman_chords));
    let backend = if s.audio_backend == UiAudioBackend::Synth {
        "synth"
    } else {
        "midi"
    };
    push_setting(&mut out, "audio_backend=", backend);
    let mut hz = String::new();
    append_decimal(&mut hz, s.a4_tuning_hz);
    push_setting(&mut out, "a4_tuning_hz=", hz.as_str());
    assert(out@ =~= l1 + (l2 + (l3 + (l4 + l5))));
    out
}

/// `str::parse::<u16>` on the characters `v`.
fn parse_u16_chars(v: &Vec<char>) -> (r: Option<u16>)
    ensures
        r == parse_u16(v@),
{
    let start: usize = if v.len() > 0 && v[0] == '+' { 1 } else { 0 };
    let ghost d = parse_digits_part(v@);
    assert(d =~= v@.subrange(start as int, v@.len() as int));
    if start == v.len() {
        return None;
    }
    let mut acc: u32 = 0;
    let mut i: usize = start;
    while i < v.len()
        invariant
            start <= i <= v@.len(),
            d == v@.subrange(start as int, v@.len() as int),
            d == parse_digits_part(v@),
            start < v@.len(),
            forall|j: int| 0 <= j < i - start ==> is_digit(#[trigger] d[j]),
            acc as nat == digits_value(d.subrange(0, i - start)),
            acc <= u16::MAX,
        decreases v@.len() - i,
    {
        let c = v[i];
        if !('0' <= c && c <= '9') {
            proof {
                assert(d[i - start] == c);
                lemma_parse_u16_not_digit(v@, i - start);
            }
            return None;
        }
        proof {
            assert(d.subrange(0, i + 1 - start).drop_last() =~= d.subrange(0, i - start));
            assert(d.subrange(0, i + 1 - start).last() == c);
        }
        let digit: u32 = c as u32 - 48;
        acc = acc * 10 + digit;
        if acc > 65535 {
            proof {
                lemma_parse_u16_too_large(v@, i + 1 - start);
            }
            return None;
        }
        i = i + 1;
    }
    assert(d.subrange(0, d.len() as int) =~= d);
    Some(acc as u16)
}

proof fn lemma_parse_u16_not_digit(v: Seq<char>, k: int)
    requires
        0 <= k < parse_digits_part(v).len(),
        !is_digit(parse_digits_part(v)[k]),
    ensures
        parse_u16(v) is None,
{
}

proof fn lemma_parse_u16_too_large(v: Seq<char>, n: int)
    requires
        0 <= n <= parse_digits_part(v).len(),
        digits_value(parse_digits_part(v).subrange(0, n)) > u16::MAX,
    ensures
        parse_u16(v) is None,
{
    let d = parse_digits_part(v);
    if forall|j: int| 0 <= j < d.len() ==> is_digit(#[trigger] d[j]) {
        lemma_digits_value_prefix(d, n);
    }
}

/// A longer prefix of digits has at least the value of a shorter one.
proof fn lemma_digits_value_prefix(d: Seq<char>, n: int)
    requires
        0 <= n <= d.len(),
        forall|j: int| 0 <= j < d.len() ==> is_digit(#[trigger] d[j]),
    ensures
        digits_value(d) >= digits_value(d.subrange(0, n)),
    decreases d.len() - n,
{
    if n < d.len() {
        lemma_digits_value_prefix(d, n + 1);
        assert(d.subrange(0, n + 1).drop_last() =~= d.subrange(0, n));
    } else {
        assert(d.subrange(0, n) =~= d);
    }
}

fn apply_line_exec(cs: &Vec<char>, lo: usize, hi: usize, acc: UiSettings) -> (r: UiSettings)
    requires
        lo <= hi <= cs@.len(),
    ensures
        r == apply_line(cs@.subrange(lo as int, hi as int), acc),
{
    let ghost line = cs@.subrange(lo as int, hi as int);
    let eq = find_char(cs, lo, '=');
    proof {
        lemma_first_index_bound(cs@.subrange(lo as int, cs@.len() as int), '=');
        let tail = cs@.subrange(lo as int, cs@.len() as int);
        let fi = first_index_of(tail, '=');
        if eq < hi {
            assert forall|j: int| 0 <= j < eq - lo implies line[j] != '=' by {
                assert(line[j] == tail[j]);
                lemma_first_index_prefix(tail, '=', j);
            }
            assert(line[eq - lo] == tail[eq - lo]);
            crate::text::lemma_first_index_of(line, '=', eq - lo);
        } else {
            assert forall|j: int| 0 <= j < line.len() implies line[j] != '=' by {
                assert(line[j] == tail[j]);
                lemma_first_index_prefix(tail, '=', j);
            }
            crate::text::lemma_first_index_of(line, '=', line.len() as int);
        }
    }
    if eq >= hi {
        return acc;
    }
    let k = trimmed(cs, lo, eq);
    let v = trimmed(cs, eq + 1, hi);
    assert(line.subrange(0, eq - lo) =~= cs@.subrange(lo as int, eq as int));
    assert(line.subrange(eq - lo + 1, line.len() as int) =~= cs@.subrange(eq + 1, hi as int));
    let mut r = acc;
    if chars_eq(&k, "show_note_names") {
        r.show_note_names = chars_eq(&v, "true");
    } else if chars_eq(&k, "play_on_tap") {
        r.play_on_tap = !chars_eq(&v, "false");
    } else if chars_eq(&k, "show_roman_chords") {
        r.show_roman_chords = !chars_eq(&v, "false");
    } else if chars_eq(&k, "audio_backend") {
        r.audio_backend = if chars_eq(&v, "synth") {
            UiAudioBackend::Synth
        } else {
            UiAudioBackend::Midi
        };
    } else if chars_eq(&k, "a4_tuning_hz") {
        if let Some(hz) = parse_u16_chars(&v) {
            r.a4_tuning_hz = if hz < A4_MIN_HZ {
                A4_MIN_HZ
            } else if hz > A4_MAX_HZ {
                A4_MAX_HZ
            } else {
                hz
            };
        }
    }
    r
}

/// Before the first `c`, no character is `c`.
proof fn lemma_first_index_prefix(s: Seq<char>, c: char, j: int)
    requires
        0 <= j < first_index_of(s, c),
    ensures
        s[j] != c,
    decreases s.len(),
{
    lemma_first_index_bound(s, c);
    if j > 0 {
        lemma_first_index_prefix(s.drop_first(), c, j - 1);
    }
}

/// Settings from their text form; unknown lines are ignored and missing keys keep
/// their defaults.
pub fn decode_settings(input: &str) -> (r: UiSettings)
    ensures
        r == decode_lines(input@, default_settings()),
{
    let cs = chars_of(input);
    let n = cs.len();
    let mut acc = UiSettings::default();
    let mut pos: usize = 0;
    assert(cs@.subrange(0, n as int) =~= cs@);
    while pos < n
        invariant
            n == cs@.len(),
            pos <= n,
            decode_lines(input@, default_settings()) == decode_lines(
                cs@.subrange(pos as int, n as int),
                acc,
            ),
        decreases n - pos,
    {
        let ghost rest = cs@.subrange(pos as int, n as int);
        let nl = find_char(&cs, pos, '\n');
        proof {
            lemma_first_index_bound(rest, '\n');
            assert(rest.subrange(0, nl - pos) =~= cs@.subrange(pos as int, nl as int));
            if nl < n {
                assert(rest.subrange(nl - pos + 1, rest.len() as int) =~= cs@.subrange(nl + 1, n as int));
            }
        }
        acc = apply_line_exec(&cs, pos, nl, acc);
        if nl < n {
            pos = nl + 1;
        } else {
            pos = n;
            assert(cs@.subrange(n as int, n as int).len() == 0);
        }
    }
    acc
}

/// Reading back what was written gives the stored settings: the three display switches,
/// the backend as MIDI or synth, and the tuning clamped to its range; what is not written
/// (the chord buttons, note bending) comes back as in a fresh installation.
pub proof fn lemma_settings_roundtrip(s: UiSettings)
    ensures
        decode_lines(encoded(s), default_settings()) == stored_settings(s),
{
    reveal_strlit("\n");
    reveal_strlit("=");
    reveal_strlit("show_note_names=");
    reveal_strlit("show_note_names");
    reveal_strlit("play_on_tap=");
    reveal_strlit("play_on_tap");
    reveal_strlit("show_roman_chords=");
    reveal_strlit("show_roman_chords");
    reveal_strlit("audio_backend=");
    reveal_strlit("audio_backend");
    reveal_strlit("a4_tuning_hz=");
    reveal_strlit("a4_tuning_hz");
    reveal_strlit("true");
    reveal_strlit("false");
    reveal_strlit("synth");
    reveal_strlit("midi");
    let v1 = bool_text(s.show_note_names);
    let v2 = bool_text(s.play_on_tap);
    let v3 = bool_text(s.show_roman_chords);
    let v4 = backend_text(s.audio_backend);
    let v5 = decimal(s.a4_tuning_hz as nat);
    lemma_decimal(s.a4_tuning_hz as nat);
    let l2 = setting_line("play_on_tap="@, v2);
    let l3 = setting_line("show_roman_chords="@, v3);
    let l4 = setting_line("audio_backend="@, v4);
    let l5 = setting_line("a4_tuning_hz="@, v5);
    let d = default_settings();
    let a1 = UiSettings { show_note_names: s.show_note_names, ..d };
    let a2 = UiSettings { play_on_tap: s.play_on_tap, ..a1 };
    let a3 = UiSettings { show_roman_chords: s.show_roman_chords, ..a2 };
    let a4 = UiSettings { audio_backend: stored_settings(s).audio_backend, ..a3 };
    assert("show_note_names="@ =~= "show_note_names"@ + seq!['=']);
    assert("play_on_tap="@ =~= "play_on_tap"@ + seq!['=']);
    assert("show_roman_chords="@ =~= "show_roman_chords"@ + seq!['=']);
    assert("audio_backend="@ =~= "audio_backend"@ + seq!['=']);
    assert("a4_tuning_hz="@ =~= "a4_tuning_hz"@ + seq!['=']);
    assert(apply_pair("show_note_names"@, v1, d) == a1);
    assert(apply_pair("play_on_tap"@, v2, a1) == a2);
    assert(apply_pair("show_roman_chords"@, v3, a2) == a3);
    assert(apply_pair("audio_backend"@, v4, a3) == a4);
    lemma_pair_line("show_note_names"@, v1, l2 + (l3 + (l4 + l5)), d);
    lemma_pair_line("play_on_tap"@, v2, l3 + (l4 + l5), a1);
    lemma_pair_line("show_roman_chords"@, v3, l4 + l5, a2);
    lemma_pair_line("audio_backend"@, v4, l5, a3);
    lemma_pair_line("a4_tuning_hz"@, v5, Seq::empty(), a4);
    assert(l5 + Seq::<char>::empty() =~= l5);
    assert(apply_pair("a4_tuning_hz"@, v5, a4) == stored_settings(s));
}

/// Decoding a `key=value` line followed by more text applies the pair, then the rest.
proof fn lemma_pair_line(k: Seq<char>, v: Seq<char>, rest: Seq<char>, acc: UiSettings)
    requires
        k.len() > 0,
        v.len() > 0,
        !is_ws(k[0]),
        !is_ws(k.last()),
        !is_ws(v[0]),
        !is_ws(v.last()),
        forall|j: int| 0 <= j < k.len() ==> k[j] != '=' && k[j] != '\n',
        forall|j: int| 0 <= j < v.len() ==> v[j] != '\n',
    ensures
        decode_lines(setting_line(k + seq!['='], v) + rest, acc) == decode_lines(
            rest,
            apply_pair(k, v, acc),
        ),
{
    reveal_strlit("\n");
    let line = k + seq!['='] + v;
    let all = setting_line(k + seq!['='], v) + rest;
    assert(all =~= line + seq!['\n'] + rest);
    assert forall|j: int| 0 <= j < line.len() implies line[j] != '\n' by {
        if j < k.len() {
            assert(line[j] == k[j]);
        } else if j > k.len() {
            assert(line[j] == v[j - k.len() - 1]);
        }
    }
    assert forall|j: int| 0 <= j < line.len() implies all[j] == line[j] by {}
    lemma_first_index_of(all, '\n', line.len() as int);
    assert(all.subrange(0, line.len() as int) =~= line);
    assert(all.subrange(line.len() as int + 1, all.len() as int) =~= rest);
    assert forall|j: int| 0 <= j < k.len() implies line[j] != '=' by {
        assert(line[j] == k[j]);
    }
    lemma_first_index_of(line, '=', k.len() as int);
    assert(line.subrange(0, k.len() as int) =~= k);
    assert(line.subrange(k.len() as int + 1, line.len() as int) =~= v);
    lemma_trim_noop(k);
    lemma_trim_noop(v);
}

/// The decimal form of `n` is a non-empty string of digits whose value is `n`.
proof fn lemma_decimal(n: nat)
    ensures
        decimal(n).len() > 0,
        forall|j: int| 0 <= j < decimal(n).len() ==> is_digit(#[trigger] decimal(n)[j]),
        digits_value(decimal(n)) == n,
        n <= u16::MAX ==> parse_u16(decimal(n)) == Some(n as u16),
    decreases n,
{
    let e = decimal(n);
    lemma_digit_char((n % 10) as int);
    if n >= 10 {
        lemma_decimal(n / 10);
        let d = decimal(n / 10);
        assert(e.drop_last() =~= d);
        assert forall|j: int| 0 <= j < e.len() implies is_digit(#[trigger] e[j]) by {
            if j < d.len() {
                assert(e[j] == d[j]);
            }
        }
        assert(digits_value(e) == digits_value(d) * 10 + ((e.last() as u32) - 48) as nat);
    } else {
        assert(e.drop_last() =~= Seq::<char>::empty());
        assert(digits_value(e) == digits_value(e.drop_last()) * 10 + ((e.last() as u32) - 48) as nat);
    }
    assert(is_digit(e[0]));
    assert(parse_digits_part(e) == e);
}

/// Numbers below 100000 have at most five digits.
pub proof fn lemma_decimal_len(n: nat)
    ensures
        n < 10 ==> decimal(n).len() == 1,
        n < 100 ==> decimal(n).len() <= 2,
        n < 1000 ==> decimal(n).len() <= 3,
        n < 10000 ==> decimal(n).len() <= 4,
        n < 100000 ==> decimal(n).len() <= 5,
    decreases n,
{
    if n >= 10 {
        lemma_decimal_len(n / 10);
    }
}

proof fn lemma_digit_char(k: int)
    requires
        0 <= k < 10,
    ensures
        is_digit(digit_char(k)),
        (digit_char(k) as u32) - 48 == k,
{
}

} // verus!
