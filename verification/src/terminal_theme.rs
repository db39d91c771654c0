//! The host terminal's colors: the sequences that query and set them, the
//! replies, and when the palette has to be queried again.
use crate::text;
use vstd::prelude::*;

verus! {

#[derive(Debug, Clone, Copy, PartialEq, Eq, Structural)]
pub struct RgbColor {
    pub r: u8,
    pub g: u8,
    pub b: u8,
}

impl Default for RgbColor {
    fn default() -> (color: Self)
        ensures
            color == (RgbColor { r: 0, g: 0, b: 0 }),
    {
        RgbColor { r: 0, g: 0, b: 0 }
    }
}

#[derive(Debug, Clone, Copy, PartialEq, Eq, Structural)]
pub enum HostAppearance {
    Dark,
    Light,
}

impl HostAppearance {
    /// The report by which a terminal names this color scheme.
    pub fn color_scheme_report(self) -> (report: &'static [u8])
        ensures
            self is Dark ==> report@ == seq![0x1bu8, 0x5b, 0x3f, 0x39, 0x39, 0x37, 0x3b, 0x31, 0x6e],
            self is Light ==> report@ == seq![0x1bu8, 0x5b, 0x3f, 0x39, 0x39, 0x37, 0x3b, 0x32, 0x6e],
    {
        broadcast use vstd::string::is_ascii_spec_bytes;

        proof {
            reveal_strlit("\x1b[?997;1n");
            reveal_strlit("\x1b[?997;2n");
        }
        match self {
            HostAppearance::Dark => {
                assert(vstd::string::is_ascii("\x1b[?997;1n"));
                "\x1b[?997;1n".as_bytes()
            },
            HostAppearance::Light => {
                assert(vstd::string::is_ascii("\x1b[?997;2n"));
                "\x1b[?997;2n".as_bytes()
            },
        }
    }
}

/// Perceived brightness, in thousandths of a component step.
pub open spec fn luminance(color: RgbColor) -> int {
    color.r * 299 + color.g * 587 + color.b * 114
}

/// The color scheme that a background of the color belongs to.
pub open spec fn appearance_of(color: RgbColor) -> HostAppearance {
    if luminance(color) >= 128_000 {
        HostAppearance::Light
    } else {
        HostAppearance::Dark
    }
}

impl RgbColor {
    /// The color scheme that a background of this color belongs to.
    pub fn inferred_appearance(self) -> (appearance: HostAppearance)
        ensures
            appearance == appearance_of(self),
    {
        let luminance: u32 = self.r as u32 * 299 + self.g as u32 * 587 + self.b as u32 * 114;
        if luminance >= 128_000 {
            HostAppearance::Light
        } else {
            HostAppearance::Dark
        }
    }
}

#[derive(Debug, Clone, Copy, PartialEq, Eq)]
pub struct TerminalTheme {
    pub foreground: Option<RgbColor>,
    pub background: Option<RgbColor>,
    pub palette: [Option<RgbColor>; 256],
}

impl Default for TerminalTheme {
    fn default() -> (theme: Self)
        ensures
            theme.foreground is None,
            theme.background is None,
            forall|i: int| 0 <= i < 256 ==> (#[trigger] theme.palette@[i]) is None,
    {
        TerminalTheme { foreground: None, background: None, palette: [None; 256] }
    }
}

#[derive(Debug, Clone, Copy, PartialEq, Eq, Structural)]
pub enum DefaultColorKind {
    Foreground,
    Background,
}

/// Tracks whether the host palette captured by the last full theme sweep is
/// still current, so a re-reported color scheme (the host answers the
/// focus-gain appearance query on every reveal) does not trigger another
/// 256-query palette sweep. Hosts that flush one reply per render frame turn
/// that sweep into a multi-second input freeze.
#[derive(Debug, Clone, Copy, PartialEq, Eq, Structural)]
pub enum HostThemeBaseline {
    /// No theme sweep has been sent; the first scheme report must trigger one.
    Unqueried,
    /// A sweep was sent before any scheme report (the startup sweep), so the
    /// next report only names the scheme whose palette that sweep already
    /// captured.
    AwaitingFirstReport,
    /// The palette was captured while the host reported this scheme.
    Known(HostAppearance),
}

impl Default for HostThemeBaseline {
    fn default() -> (baseline: Self)
        ensures
            baseline == HostThemeBaseline::Unqueried,
    {
        HostThemeBaseline::Unqueried
    }
}

impl HostThemeBaseline {
    /// A report of `appearance` is not covered by the captured palette.
    pub open spec fn needs_sweep(self, appearance: HostAppearance) -> bool {
        match self {
            HostThemeBaseline::Unqueried => true,
            HostThemeBaseline::AwaitingFirstReport => false,
            HostThemeBaseline::Known(last) => last != appearance,
        }
    }

    /// Record that a full theme sweep was sent while the host scheme is still
    /// unknown; the next scheme report becomes the baseline without a re-sweep.
    pub fn sweep_sent_before_first_report(&mut self)
        ensures
            *final(self) == HostThemeBaseline::AwaitingFirstReport,
    {
        *self = HostThemeBaseline::AwaitingFirstReport;
    }

    /// Record a reported host scheme; returns true when the palette must be
    /// re-swept because the report is not covered by the captured baseline.
    pub fn observe(&mut self, appearance: HostAppearance) -> (requery: bool)
        ensures
            requery == old(self).needs_sweep(appearance),
            *final(self) == HostThemeBaseline::Known(appearance),
    {
        let requery = match *self {
            HostThemeBaseline::Unqueried => true,
            HostThemeBaseline::AwaitingFirstReport => false,
            HostThemeBaseline::Known(last) => last != appearance,
        };
        *self = HostThemeBaseline::Known(appearance);
        requery
    }
}

pub const HOST_COLOR_QUERY_SEQUENCE: &'static str = "\x1b]10;?\x1b\\\x1b]11;?\x1b\\";

pub const HOST_COLOR_SCHEME_QUERY_SEQUENCE: &'static str = "\x1b[?996n";

pub const HOST_COLOR_SCHEME_REPORT_ENABLE_SEQUENCE: &'static str = "\x1b[?2031h";

pub const HOST_COLOR_SCHEME_REPORT_DISABLE_SEQUENCE: &'static str = "\x1b[?2031l";

impl TerminalTheme {
    /// This theme with the given default color.
    pub fn with_color(self, kind: DefaultColorKind, color: RgbColor) -> (theme: Self)
        ensures
            theme.foreground == (if kind is Foreground {
                Some(color)
            } else {
                self.foreground
            }),
            theme.background == (if kind is Background {
                Some(color)
            } else {
                self.background
            }),
            theme.palette == self.palette,
    {
        let mut theme = self;
        match kind {
            DefaultColorKind::Foreground => {
                theme.foreground = Some(color);
            },
            DefaultColorKind::Background => {
                theme.background = Some(color);
            },
        }
        theme
    }

    /// This theme with the given palette entry.
    pub fn with_palette_color(self, index: u8, color: RgbColor) -> (theme: Self)
        ensures
            theme.palette@ == self.palette@.update(index as int, Some(color)),
            theme.foreground == self.foreground,
            theme.background == self.background,
    {
        let mut theme = self;
        theme.palette[index as usize] = Some(color);
        theme
    }

    /// Neither default color is known; palette entries do not count.
    pub fn is_empty(self) -> (empty: bool)
        ensures
            empty == (self.foreground is None && self.background is None),
    {
        self.foreground.is_none() && self.background.is_none()
    }
}

/// The query of one palette entry.
pub open spec fn palette_query(index: nat) -> Seq<char> {
    "\x1b]4;"@ + text::decimal(index) + ";?\x1b\\"@
}

/// The queries of the first `count` palette entries, in order.
pub open spec fn palette_queries(count: nat) -> Seq<char>
    decreases count,
{
    if count == 0 {
        Seq::empty()
    } else {
        palette_queries((count - 1) as nat) + palette_query((count - 1) as nat)
    }
}

/// The sequence that asks the host for its default colors and, where
/// `include_palette` is set, for every palette entry.
pub fn host_terminal_theme_query_sequence(include_palette: bool) -> (sequence: String)
    ensures
        sequence@ == (if include_palette {
            HOST_COLOR_QUERY_SEQUENCE@ + palette_queries(256)
        } else {
            HOST_COLOR_QUERY_SEQUENCE@
        }),
{
    let mut sequence = HOST_COLOR_QUERY_SEQUENCE.to_owned();
    if include_palette {
        let mut index: u64 = 0;
        while index < 256
            invariant
                index <= 256,
                sequence@ == HOST_COLOR_QUERY_SEQUENCE@ + palette_queries(index as nat),
            decreases 256 - index,
        {
            let ghost before = sequence@;
            sequence.append("\x1b]4;");
            text::push_decimal(&mut sequence, index);
            sequence.append(";?\x1b\\");
            assert(sequence@ == before + palette_query(index as nat));
            index = index + 1;
            assert(sequence@ == HOST_COLOR_QUERY_SEQUENCE@ + palette_queries(index as nat));
        }
    }
    sequence
}

/// What stands in `sequence` between `introducer` and the terminator: ESC
/// backslash, or BEL.
pub open spec fn osc_body(sequence: Seq<char>, introducer: Seq<char>) -> Option<Seq<char>> {
    if introducer.is_prefix_of(sequence) {
        let body = sequence.skip(introducer.len() as int);
        if seq!['\x1b', '\\'].is_suffix_of(body) {
            Some(body.take(body.len() - 2))
        } else if seq!['\u{7}'].is_suffix_of(body) {
            Some(body.take(body.len() - 1))
        } else {
            None
        }
    } else {
        None
    }
}

fn osc_body_of<'a>(sequence: &'a [char], introducer: &str) -> (body: Option<&'a [char]>)
    ensures
        match body {
            Some(body) => osc_body(sequence@, introducer@) == Some(body@),
            None => osc_body(sequence@, introducer@) is None,
        },
{
    let introducer = text::chars_of(introducer);
    if !text::starts_with(sequence, &introducer) {
        return None;
    }
    let start: usize = introducer.len();
    let len: usize = sequence.len();
    let ghost body = sequence@.skip(start as int);
    if len - start >= 2 && sequence[len - 2] == '\x1b' && sequence[len - 1] == '\\' {
        assert(seq!['\x1b', '\\'] =~= body.subrange(body.len() - 2, body.len() as int));
        assert(sequence@.subrange(start as int, len - 2) == body.take(body.len() - 2));
        return Some(vstd::slice::slice_subrange(sequence, start, len - 2));
    }
    assert(!seq!['\x1b', '\\'].is_suffix_of(body)) by {
        if seq!['\x1b', '\\'].is_suffix_of(body) {
            let end = body.subrange(body.len() - 2, body.len() as int);
            assert(end[0] == sequence@[len - 2] && end[1] == sequence@[len - 1]);
        }
    }
    if len - start >= 1 && sequence[len - 1] == '\u{7}' {
        assert(seq!['\u{7}'] =~= body.subrange(body.len() - 1, body.len() as int));
        assert(sequence@.subrange(start as int, len - 1) == body.take(body.len() - 1));
        return Some(vstd::slice::slice_subrange(sequence, start, (len - 1) as usize));
    }
    assert(!seq!['\u{7}'].is_suffix_of(body)) by {
        if seq!['\u{7}'].is_suffix_of(body) {
            assert(body.subrange(body.len() - 1, body.len() as int)[0] == sequence@[len - 1]);
        }
    }
    None
}

/// The color component that one to four hexadecimal digits write: their share
/// of the greatest such number, rounded to the nearest of the steps 0 to 255.
pub open spec fn hex_component(digits: Seq<char>) -> Option<u8> {
    if 1 <= digits.len() <= 4 && text::all_hex(digits) {
        let limit = text::hex_limit(digits.len());
        Some(((text::hex_value(digits) * 255 + limit / 2) / limit) as u8)
    } else {
        None
    }
}

/// Reads a color component of one to four hexadecimal digits.
pub fn parse_hex_component(component: &str) -> (value: Option<u8>)
    ensures
        value == hex_component(component@),
{
    hex_component_of(&text::chars_of(component))
}

fn hex_component_of(component: &[char]) -> (value: Option<u8>)
    ensures
        value == hex_component(component@),
{
    if component.len() == 0 || component.len() > 4 {
        return None;
    }
    let mut value: u32 = 0;
    let mut limit: u32 = 0;
    let mut i: usize = 0;
    proof {
        reveal_with_fuel(text::hex_limit, 5);
    }
    while i < component.len()
        invariant
            i <= component@.len(),
            1 <= component@.len() <= 4,
            forall|j: int| 0 <= j < i ==> text::hex_digit(#[trigger] component@[j]) is Some,
            value == text::hex_value(component@.take(i as int)),
            limit == text::hex_limit(i as nat),
            value <= limit,
            i == 0 ==> limit == 0,
            i == 1 ==> limit == 0xf,
            i == 2 ==> limit == 0xff,
            i == 3 ==> limit == 0xfff,
            i == 4 ==> limit == 0xffff,
        decreases component@.len() - i,
    {
        assert(component@.take(i + 1).drop_last() == component@.take(i as int));
        match text::hex_digit_value(component[i]) {
            Some(digit) => {
                value = value * 16 + digit;
                limit = limit * 16 + 15;
                i = i + 1;
            },
            None => {
                return None;
            },
        }
    }
    assert(component@.take(i as int) == component@);
    let scaled: u32 = (value * 255 + limit / 2) / limit;
    Some(scaled as u8)
}

/// The color whose components are written as `r`, `g` and `b`.
pub open spec fn color_of(r: Seq<char>, g: Seq<char>, b: Seq<char>) -> Option<RgbColor> {
    match (hex_component(r), hex_component(g), hex_component(b)) {
        (Some(r), Some(g), Some(b)) => Some(RgbColor { r, g, b }),
        _ => None,
    }
}

/// The color that `value` names: `rgb:` and three components between slashes,
/// or `#` and three components of equal length.
pub open spec fn rgb_color(value: Seq<char>) -> Option<RgbColor> {
    if "rgb:"@.is_prefix_of(value) {
        let parts = text::split(value.skip(4), '/');
        if parts.len() == 3 {
            color_of(parts[0], parts[1], parts[2])
        } else {
            None
        }
    } else if value.len() > 0 && value[0] == '#' {
        let hex = value.skip(1);
        let digits = (hex.len() / 3) as int;
        if hex.len() == digits * 3 {
            color_of(
                hex.subrange(0, digits),
                hex.subrange(digits, digits * 2),
                hex.subrange(digits * 2, digits * 3),
            )
        } else {
            None
        }
    } else {
        None
    }
}

/// Cutting the `#` notation into components of equal length in bytes would cut
/// a character apart. The second cut is only made where the first component
/// reads as hexadecimal digits.
pub open spec fn hash_cut_splits_char(value: Seq<char>) -> bool {
    let bytes = vstd::utf8::encode_utf8(value.skip(1));
    let digits = (bytes.len() / 3) as int;
    &&& value.len() > 0
    &&& value[0] == '#'
    &&& 1 <= digits <= 4
    &&& bytes.len() == digits * 3
    &&& {
        ||| !vstd::utf8::is_char_boundary(bytes, digits)
        ||| {
            &&& forall|i: int|
                0 <= i < digits ==> text::hex_digit((#[trigger] bytes[i]) as char) is Some
            &&& !vstd::utf8::is_char_boundary(bytes, digits * 2)
        }
    }
}

/// No character of an ASCII value is cut apart.
pub proof fn lemma_ascii_cuts_cleanly(value: Seq<char>)
    requires
        vstd::utf8::is_ascii_chars(value),
    ensures
        !hash_cut_splits_char(value),
{
    broadcast use vstd::utf8::encode_utf8_valid_utf8;

    if value.len() > 0 {
        let hex = value.skip(1);
        let bytes = vstd::utf8::encode_utf8(hex);
        let digits = (bytes.len() / 3) as int;
        assert(vstd::utf8::is_ascii_chars(hex));
        vstd::utf8::is_ascii_chars_encode_utf8(hex);
        if 1 <= digits && bytes.len() == digits * 3 {
            vstd::utf8::is_char_boundary_iff_not_is_continuation_byte(bytes, digits);
            vstd::utf8::is_char_boundary_iff_not_is_continuation_byte(bytes, digits * 2);
            assert(hex[digits] as u8 == bytes[digits]);
            assert(hex[digits * 2] as u8 == bytes[digits * 2]);
        }
    }
}

/// Reads a color in either notation.
pub fn parse_rgb_color(value: &str) -> (color: Option<RgbColor>)
    requires
        !hash_cut_splits_char(value@),
    ensures
        color == rgb_color(value@),
{
    rgb_color_of(&text::chars_of(value))
}

fn color_from(r: &[char], g: &[char], b: &[char]) -> (color: Option<RgbColor>)
    ensures
        color == color_of(r@, g@, b@),
{
    match (hex_component_of(r), hex_component_of(g), hex_component_of(b)) {
        (Some(r), Some(g), Some(b)) => Some(RgbColor { r, g, b }),
        _ => None,
    }
}

fn rgb_color_of(value: &[char]) -> (color: Option<RgbColor>)
    ensures
        color == rgb_color(value@),
{
    proof {
        reveal_strlit("rgb:");
    }
    if text::starts_with(value, &text::chars_of("rgb:")) {
        let rest = vstd::slice::slice_subrange(value, 4, value.len());
        assert(rest@ == value@.skip(4));
        let parts = text::split_chars(rest, '/');
        if parts.len() == 3 {
            return color_from(&parts[0], &parts[1], &parts[2]);
        }
        return None;
    }
    if value.len() > 0 && value[0] == '#' {
        let hex = vstd::slice::slice_subrange(value, 1, value.len());
        assert(hex@ == value@.skip(1));
        let digits: usize = hex.len() / 3;
        if hex.len() != digits * 3 {
            return None;
        }
        return color_from(
            vstd::slice::slice_subrange(hex, 0, digits),
            vstd::slice::slice_subrange(hex, digits, digits * 2),
            vstd::slice::slice_subrange(hex, digits * 2, hex.len()),
        );
    }
    None
}

/// The default color that an OSC command sets or reports.
pub open spec fn default_color_kind(command: Seq<char>) -> Option<DefaultColorKind> {
    if command == "10"@ {
        Some(DefaultColorKind::Foreground)
    } else if command == "11"@ {
        Some(DefaultColorKind::Background)
    } else {
        None
    }
}

/// Which default color `sequence` reports, and the value it gives.
pub open spec fn default_color_report(sequence: Seq<char>) -> Option<
    (DefaultColorKind, Seq<char>),
> {
    match osc_body(sequence, "\x1b]"@) {
        Some(body) => match text::split_once(body, ';') {
            Some((command, value)) => match default_color_kind(command) {
                Some(kind) => Some((kind, value)),
                None => None,
            },
            None => None,
        },
        None => None,
    }
}

/// The reply that `sequence` is to a default color query.
pub open spec fn default_color_response(sequence: Seq<char>) -> Option<
    (DefaultColorKind, RgbColor),
> {
    match default_color_report(sequence) {
        Some((kind, value)) => match rgb_color(value) {
            Some(color) => Some((kind, color)),
            None => None,
        },
        None => None,
    }
}

/// Reads a reply to a default color query.
pub fn parse_default_color_response(sequence: &str) -> (response: Option<
    (DefaultColorKind, RgbColor),
>)
    requires
        default_color_report(sequence@) matches Some((_, value)) ==> !hash_cut_splits_char(value),
    ensures
        response == default_color_response(sequence@),
{
    let sequence = text::chars_of(sequence);
    let body = match osc_body_of(&sequence, "\x1b]") {
        Some(body) => body,
        None => {
            return None;
        },
    };
    let len: usize = body.len();
    let at: usize = match text::position(body, ';') {
        Some(at) => at,
        None => {
            return None;
        },
    };
    let command = text::string_of(vstd::slice::slice_subrange(body, 0, at));
    let value = vstd::slice::slice_subrange(body, at + 1, len);
    assert(value@ == body@.skip(at + 1));
    let kind = if command.as_str().eq("10") {
        DefaultColorKind::Foreground
    } else if command.as_str().eq("11") {
        DefaultColorKind::Background
    } else {
        return None;
    };
    match rgb_color_of(value) {
        Some(color) => Some((kind, color)),
        None => None,
    }
}

/// Which palette entry `sequence` reports, and the value it gives.
pub open spec fn palette_color_report(sequence: Seq<char>) -> Option<(u8, Seq<char>)> {
    match osc_body(sequence, "\x1b]4;"@) {
        Some(body) => match text::split_once(body, ';') {
            Some((index, value)) => match text::unsigned_number(index, u8::MAX as nat) {
                Some(index) => Some((index as u8, value)),
                None => None,
            },
            None => None,
        },
        None => None,
    }
}

/// The reply that `sequence` is to a palette query.
pub open spec fn palette_color_response(sequence: Seq<char>) -> Option<(u8, RgbColor)> {
    match palette_color_report(sequence) {
        Some((index, value)) => match rgb_color(value) {
            Some(color) => Some((index, color)),
            None => None,
        },
        None => None,
    }
}

/// Reads a reply to a palette query.
pub fn parse_palette_color_response(sequence: &str) -> (response: Option<(u8, RgbColor)>)
    requires
        palette_color_report(sequence@) matches Some((_, value)) ==> !hash_cut_splits_char(value),
    ensures
        response == palette_color_response(sequence@),
{
    let sequence = text::chars_of(sequence);
    let body = match osc_body_of(&sequence, "\x1b]4;") {
        Some(body) => body,
        None => {
            return None;
        },
    };
    let len: usize = body.len();
    let at: usize = match text::position(body, ';') {
        Some(at) => at,
        None => {
            return None;
        },
    };
    let value = vstd::slice::slice_subrange(body, at + 1, len);
    assert(body@.subrange(0, at as int) == body@.take(at as int));
    assert(value@ == body@.skip(at + 1));
    match text::parse_unsigned(vstd::slice::slice_subrange(body, 0, at), 255) {
        Some(index) => match rgb_color_of(value) {
            Some(color) => Some((index as u8, color)),
            None => None,
        },
        None => None,
    }
}

/// The number of the OSC command for a default color.
pub open spec fn default_color_command(kind: DefaultColorKind) -> Seq<char> {
    match kind {
        DefaultColorKind::Foreground => "10"@,
        DefaultColorKind::Background => "11"@,
    }
}

/// A color as `rgb:` and two hexadecimal digits for each component.
pub open spec fn rgb_notation(color: RgbColor) -> Seq<char> {
    "rgb:"@ + text::hex_byte(color.r) + seq!['/'] + text::hex_byte(color.g) + seq!['/']
        + text::hex_byte(color.b)
}

/// The sequence that sets a default color.
pub fn osc_set_default_color_sequence(kind: DefaultColorKind, color: RgbColor) -> (sequence: String)
    ensures
        sequence@ == "\x1b]"@ + default_color_command(kind) + ";"@ + rgb_notation(color)
            + "\x1b\\"@,
{
    let mut sequence = "\x1b]".to_owned();
    match kind {
        DefaultColorKind::Foreground => sequence.append("10"),
        DefaultColorKind::Background => sequence.append("11"),
    }
    sequence.append(";");
    let ghost before = sequence@;
    sequence.append("rgb:");
    text::push_hex_byte(&mut sequence, color.r);
    sequence.push('/');
    text::push_hex_byte(&mut sequence, color.g);
    sequence.push('/');
    text::push_hex_byte(&mut sequence, color.b);
    assert(sequence@ == before + rgb_notation(color));
    sequence.append("\x1b\\");
    sequence
}

/// The sequence that resets a default color.
pub fn osc_reset_default_color_sequence(kind: DefaultColorKind) -> (sequence: &'static str)
    ensures
        sequence@ == (match kind {
            DefaultColorKind::Foreground => "\x1b]110\x1b\\"@,
            DefaultColorKind::Background => "\x1b]111\x1b\\"@,
        }),
{
    match kind {
        DefaultColorKind::Foreground => "\x1b]110\x1b\\",
        DefaultColorKind::Background => "\x1b]111\x1b\\",
    }
}

/// A component is the one step nearest to the digits' share of the greatest
/// number of their length: it is off by less than half a step.
pub proof fn lemma_component_is_nearest(digits: Seq<char>)
    requires
        1 <= digits.len() <= 4,
        text::all_hex(digits),
    ensures
        hex_component(digits) matches Some(step) && {
            let limit = text::hex_limit(digits.len()) as int;
            let value = text::hex_value(digits) as int;
            -limit < 2 * (step * limit - value * 255) < limit
        },
{
    lemma_hex_value_bound(digits);
    reveal_with_fuel(text::hex_limit, 5);
    let limit = text::hex_limit(digits.len()) as int;
    let value = text::hex_value(digits) as int;
    assert(limit == 0xf || limit == 0xff || limit == 0xfff || limit == 0xffff);
}

proof fn lemma_hex_value_bound(digits: Seq<char>)
    requires
        text::all_hex(digits),
    ensures
        text::hex_value(digits) <= text::hex_limit(digits.len()),
    decreases digits.len(),
{
    if digits.len() > 0 {
        assert forall|i: int| 0 <= i < digits.len() - 1 implies text::hex_digit(
            #[trigger] digits.drop_last()[i],
        ) is Some by {
            assert(text::hex_digit(digits[i]) is Some);
        }
        lemma_hex_value_bound(digits.drop_last());
        assert(text::hex_digit(digits[digits.len() - 1]) is Some);
    }
}

/// Two digits write a component as it is.
pub proof fn lemma_byte_component(b: u8)
    ensures
        hex_component(text::hex_byte(b)) == Some(b),
{
    text::lemma_hex_byte(b);
    reveal_with_fuel(text::hex_limit, 3);
    assert((b * 255 + 127) / 255 == b);
}

/// Four digits that repeat a component write it too.
pub proof fn lemma_repeated_byte_component(b: u8)
    ensures
        hex_component(text::hex_byte(b) + text::hex_byte(b)) == Some(b),
        !(text::hex_byte(b) + text::hex_byte(b)).contains('/'),
{
    text::lemma_hex_byte(b);
    reveal_with_fuel(text::hex_limit, 5);
    reveal_with_fuel(text::hex_value, 3);
    let two = text::hex_byte(b);
    let four = two + two;
    assert(four.drop_last().drop_last() =~= two);
    assert(two.drop_last().drop_last() =~= Seq::empty());
    assert forall|i: int| 0 <= i < four.len() implies text::hex_digit(#[trigger] four[i]) is Some
        && four[i] != '/' by {
        assert(text::hex_digit(two[i % 2]) is Some);
        assert(four[i] == two[i % 2]);
    }
    assert(text::hex_value(four) == b * 257);
    assert((b * 257 * 255 + 32767) / 65535 == b);
}

proof fn lemma_three_parts(r: Seq<char>, g: Seq<char>, b: Seq<char>)
    requires
        !r.contains('/'),
        !g.contains('/'),
        !b.contains('/'),
    ensures
        text::split(r + seq!['/'] + g + seq!['/'] + b, '/') == seq![r, g, b],
{
    text::lemma_split_whole(r, '/');
    text::lemma_split_whole(g, '/');
    text::lemma_split_whole(b, '/');
    text::lemma_split_at_separator(r, '/', g);
    text::lemma_split_at_separator(r + seq!['/'] + g, '/', b);
    assert(seq![r] + seq![g] + seq![b] =~= seq![r, g, b]);
}

proof fn lemma_rgb_notation_of(r: Seq<char>, g: Seq<char>, b: Seq<char>)
    requires
        !r.contains('/'),
        !g.contains('/'),
        !b.contains('/'),
    ensures
        rgb_color("rgb:"@ + r + seq!['/'] + g + seq!['/'] + b) == color_of(r, g, b),
{
    let value = "rgb:"@ + r + seq!['/'] + g + seq!['/'] + b;
    reveal_strlit("rgb:");
    assert("rgb:"@ =~= value.subrange(0, 4));
    assert(value.skip(4) =~= r + seq!['/'] + g + seq!['/'] + b);
    lemma_three_parts(r, g, b);
}

proof fn lemma_report_body(
    introducer: Seq<char>,
    head: Seq<char>,
    value: Seq<char>,
    terminator: Seq<char>,
)
    requires
        !head.contains(';'),
        terminator == seq!['\x1b', '\\'] || terminator == seq!['\u{7}'],
    ensures
        osc_body(introducer + head + seq![';'] + value + terminator, introducer) == Some(
            head + seq![';'] + value,
        ),
        text::split_once(head + seq![';'] + value, ';') == Some((head, value)),
{
    let sequence = introducer + head + seq![';'] + value + terminator;
    let body = head + seq![';'] + value;
    assert(introducer =~= sequence.subrange(0, introducer.len() as int));
    let rest = sequence.skip(introducer.len() as int);
    assert(rest =~= body + terminator);
    assert(terminator =~= rest.subrange(rest.len() - terminator.len(), rest.len() as int));
    assert(rest.take(rest.len() - terminator.len()) =~= body);
    if terminator == seq!['\u{7}'] {
        assert(rest.last() == '\u{7}');
        assert(!seq!['\x1b', '\\'].is_suffix_of(rest)) by {
            if seq!['\x1b', '\\'].is_suffix_of(rest) {
                assert(rest.subrange(rest.len() - 2, rest.len() as int)[1] == rest.last());
            }
        }
    }
    body.index_of_first_ensures(';');
    let at = head.len() as int;
    assert(body[at] == ';');
    assert forall|j: int| 0 <= j < at implies body[j] != ';' by {
        assert(head.contains(head[j]));
    }
    assert(body.contains(';'));
    assert(body.index_of_first(';') == Some(at));
    assert(body.take(at) =~= head);
    assert(body.skip(at + 1) =~= value);
}

/// The sequence that sets a default color, read as a reply, names that default
/// color and that color.
pub proof fn lemma_set_sequence_reads_back(kind: DefaultColorKind, color: RgbColor)
    ensures
        default_color_report(
            "\x1b]"@ + default_color_command(kind) + ";"@ + rgb_notation(color) + "\x1b\\"@,
        ) == Some((kind, rgb_notation(color))),
        !hash_cut_splits_char(rgb_notation(color)),
        default_color_response(
            "\x1b]"@ + default_color_command(kind) + ";"@ + rgb_notation(color) + "\x1b\\"@,
        ) == Some((kind, color)),
{
    let command = default_color_command(kind);
    reveal_strlit("\x1b\\");
    reveal_strlit(";");
    reveal_strlit("rgb:");
    reveal_strlit("10");
    reveal_strlit("11");
    assert(";"@ =~= seq![';']);
    assert("\x1b\\"@ =~= seq!['\x1b', '\\']);
    assert("10"@ != "11"@) by {
        assert("10"@[1] != "11"@[1]);
    }
    lemma_report_body("\x1b]"@, command, rgb_notation(color), seq!['\x1b', '\\']);
    text::lemma_hex_byte(color.r);
    text::lemma_hex_byte(color.g);
    text::lemma_hex_byte(color.b);
    lemma_rgb_notation_of(
        text::hex_byte(color.r),
        text::hex_byte(color.g),
        text::hex_byte(color.b),
    );
    lemma_byte_component(color.r);
    lemma_byte_component(color.g);
    lemma_byte_component(color.b);
}

/// A color as terminals report it: `rgb:` and each component twice.
pub open spec fn reported_notation(color: RgbColor) -> Seq<char> {
    "rgb:"@ + (text::hex_byte(color.r) + text::hex_byte(color.r)) + seq!['/'] + (text::hex_byte(
        color.g,
    ) + text::hex_byte(color.g)) + seq!['/'] + (text::hex_byte(color.b) + text::hex_byte(color.b))
}

proof fn lemma_reported_notation(color: RgbColor)
    ensures
        rgb_color(reported_notation(color)) == Some(color),
        !hash_cut_splits_char(reported_notation(color)),
{
    reveal_strlit("rgb:");
    lemma_repeated_byte_component(color.r);
    lemma_repeated_byte_component(color.g);
    lemma_repeated_byte_component(color.b);
    lemma_rgb_notation_of(
        text::hex_byte(color.r) + text::hex_byte(color.r),
        text::hex_byte(color.g) + text::hex_byte(color.g),
        text::hex_byte(color.b) + text::hex_byte(color.b),
    );
}

/// A terminal's reply to a default color query is read as the color it reports,
/// with either terminator.
pub proof fn lemma_default_color_reply_is_read(
    kind: DefaultColorKind,
    color: RgbColor,
    terminator: Seq<char>,
)
    requires
        terminator == seq!['\x1b', '\\'] || terminator == seq!['\u{7}'],
    ensures
        default_color_report(
            "\x1b]"@ + default_color_command(kind) + seq![';'] + reported_notation(color)
                + terminator,
        ) == Some((kind, reported_notation(color))),
        !hash_cut_splits_char(reported_notation(color)),
        default_color_response(
            "\x1b]"@ + default_color_command(kind) + seq![';'] + reported_notation(color)
                + terminator,
        ) == Some((kind, color)),
{
    reveal_strlit("10");
    reveal_strlit("11");
    assert("10"@ != "11"@) by {
        assert("10"@[1] != "11"@[1]);
    }
    lemma_report_body(
        "\x1b]"@,
        default_color_command(kind),
        reported_notation(color),
        terminator,
    );
    lemma_reported_notation(color);
}

/// A terminal's reply to a palette query is read as the entry and the color it
/// reports, with either terminator.
pub proof fn lemma_palette_reply_is_read(index: u8, color: RgbColor, terminator: Seq<char>)
    requires
        terminator == seq!['\x1b', '\\'] || terminator == seq!['\u{7}'],
    ensures
        palette_color_report(
            "\x1b]4;"@ + text::decimal(index as nat) + seq![';'] + reported_notation(color)
                + terminator,
        ) == Some((index, reported_notation(color))),
        !hash_cut_splits_char(reported_notation(color)),
        palette_color_response(
            "\x1b]4;"@ + text::decimal(index as nat) + seq![';'] + reported_notation(color)
                + terminator,
        ) == Some((index, color)),
{
    let head = text::decimal(index as nat);
    text::lemma_decimal_reads_back(index as nat, u8::MAX as nat);
    assert(!head.contains(';')) by {
        assert forall|i: int| 0 <= i < head.len() implies head[i] != ';' by {
            assert(text::decimal_digit(head[i]) is Some);
        }
    }
    lemma_report_body("\x1b]4;"@, head, reported_notation(color), terminator);
    lemma_reported_notation(color);
}

/// A full sweep queries every palette entry.
pub proof fn lemma_sweep_queries_every_entry(index: nat)
    requires
        index < 256,
    ensures
        text::contains_text(
            HOST_COLOR_QUERY_SEQUENCE@ + palette_queries(256),
            palette_query(index),
        ),
{
    let head = HOST_COLOR_QUERY_SEQUENCE@;
    let at = lemma_query_stands_in(index, 256);
    let whole = head + palette_queries(256);
    let query = palette_query(index);
    assert(whole.subrange(head.len() + at, head.len() + at + query.len()) =~= palette_queries(
        256,
    ).subrange(at, at + query.len()));
}

proof fn lemma_query_stands_in(index: nat, count: nat) -> (at: int)
    requires
        index < count,
    ensures
        0 <= at <= palette_queries(count).len() - palette_query(index).len(),
        palette_queries(count).subrange(at, at + palette_query(index).len()) == palette_query(
            index,
        ),
    decreases count,
{
    let before = palette_queries((count - 1) as nat);
    let query = palette_query(index);
    if index == count - 1 {
        let at = before.len() as int;
        assert(palette_queries(count).subrange(at, at + query.len()) =~= query);
        at
    } else {
        let at = lemma_query_stands_in(index, (count - 1) as nat);
        assert(palette_queries(count).subrange(at, at + query.len()) =~= before.subrange(
            at,
            at + query.len(),
        ));
        at
    }
}

/// How many sweeps a series of scheme reports triggers.
pub open spec fn sweeps(baseline: HostThemeBaseline, reports: Seq<HostAppearance>) -> nat
    decreases reports.len(),
{
    if reports.len() == 0 {
        0
    } else {
        (if baseline.needs_sweep(reports[0]) {
            1nat
        } else {
            0nat
        }) + sweeps(HostThemeBaseline::Known(reports[0]), reports.skip(1))
    }
}

/// How often a report differs from the one before it.
pub open spec fn scheme_changes(reports: Seq<HostAppearance>) -> nat
    decreases reports.len(),
{
    if reports.len() < 2 {
        0
    } else {
        (if reports[0] != reports[1] {
            1nat
        } else {
            0nat
        }) + scheme_changes(reports.skip(1))
    }
}

/// The palette is swept for the first report and then only when the scheme
/// changes. A sweep sent beforehand stands for that of the first report, and
/// re-reports of the same scheme cost nothing.
pub proof fn lemma_sweeps_follow_changes(reports: Seq<HostAppearance>)
    requires
        reports.len() > 0,
    ensures
        sweeps(HostThemeBaseline::Unqueried, reports) == 1 + scheme_changes(reports),
        sweeps(HostThemeBaseline::AwaitingFirstReport, reports) == scheme_changes(reports),
        sweeps(HostThemeBaseline::Known(reports[0]), reports) == scheme_changes(reports),
    decreases reports.len(),
{
    if reports.len() > 1 {
        let rest = reports.skip(1);
        lemma_sweeps_follow_changes(rest);
        assert(rest[0] == reports[1]);
        assert(sweeps(HostThemeBaseline::Known(reports[0]), rest) == (if reports[0] != rest[0] {
            1nat
        } else {
            0nat
        }) + sweeps(HostThemeBaseline::Known(rest[0]), rest.skip(1)));
        assert(sweeps(HostThemeBaseline::Known(rest[0]), rest) == sweeps(
            HostThemeBaseline::Known(rest[0]),
            rest.skip(1),
        ));
    } else {
        assert(sweeps(HostThemeBaseline::Known(reports[0]), reports.skip(1)) == 0);
    }
}

/// A color that is at least as bright as a light one in every component is a
/// light one too.
pub proof fn lemma_brighter_stays_light(dim: RgbColor, bright: RgbColor)
    requires
        dim.r <= bright.r,
        dim.g <= bright.g,
        dim.b <= bright.b,
    ensures
        luminance(dim) <= luminance(bright),
        appearance_of(dim) is Light ==> appearance_of(bright) is Light,
{
}

/// A reply in ASCII cuts no character apart, so that it can be read as either
/// kind of reply.
pub proof fn lemma_ascii_reply_can_be_read(sequence: Seq<char>)
    requires
        vstd::utf8::is_ascii_chars(sequence),
    ensures
        default_color_report(sequence) matches Some((_, value)) ==> !hash_cut_splits_char(value),
        palette_color_report(sequence) matches Some((_, value)) ==> !hash_cut_splits_char(value),
{
    lemma_reported_value_is_ascii(sequence, "\x1b]"@);
    lemma_reported_value_is_ascii(sequence, "\x1b]4;"@);
    match default_color_report(sequence) {
        Some((_, value)) => lemma_ascii_cuts_cleanly(value),
        None => {},
    }
    match palette_color_report(sequence) {
        Some((_, value)) => lemma_ascii_cuts_cleanly(value),
        None => {},
    }
}

proof fn lemma_reported_value_is_ascii(sequence: Seq<char>, introducer: Seq<char>)
    requires
        vstd::utf8::is_ascii_chars(sequence),
    ensures
        osc_body(sequence, introducer) matches Some(body) ==> (text::split_once(body, ';') matches Some(
            (_, value),
        ) ==> vstd::utf8::is_ascii_chars(value)),
{
    match osc_body(sequence, introducer) {
        Some(body) => {
            body.index_of_first_ensures(';');
            let start = introducer.len() as int;
            assert forall|i: int| 0 <= i < body.len() implies body[i] == #[trigger] sequence[start
                + i] by {}
            match text::split_once(body, ';') {
                Some((head, value)) => {
                    assert forall|i: int| 0 <= i < value.len() implies value[i]
                        == #[trigger] sequence[start + head.len() + 1 + i] by {}
                },
                None => {},
            }
        },
        None => {},
    }
}

/// No sequence is a reply to both kinds of query.
pub proof fn lemma_replies_are_told_apart(sequence: Seq<char>)
    ensures
        default_color_response(sequence) is None || palette_color_response(sequence) is None,
{
    if palette_color_response(sequence) is Some {
        reveal_strlit("\x1b]");
        reveal_strlit("\x1b]4;");
        reveal_strlit("10");
        reveal_strlit("11");
        assert(sequence.subrange(0, 4)[2] == '4');
        match osc_body(sequence, "\x1b]"@) {
            Some(body) => {
                body.index_of_first_ensures(';');
                assert(body[0] == sequence[2]);
                match text::split_once(body, ';') {
                    Some((command, _)) => {
                        assert(command.len() > 0 ==> command[0] == '4');
                        assert("10"@[0] == '1' && "11"@[0] == '1');
                    },
                    None => {},
                }
            },
            None => {},
        }
    }
}

/// A background is light exactly where its weighted brightness reaches half of
/// the greatest: 299, 587 and 114 thousandths of red, green and blue.
pub proof fn lemma_appearance_by_weighted_brightness(color: RgbColor)
    ensures
        appearance_of(color) is Light <==> 299 * color.r + 587 * color.g + 114 * color.b >= 128_000,
{
}

/// A palette that was never captured is swept for, one that was captured before
/// any report is not, and else a report calls for a sweep exactly where it names
/// another scheme than the last.
pub proof fn lemma_sweep_is_for_what_is_not_captured(last: HostAppearance, now: HostAppearance)
    ensures
        HostThemeBaseline::Unqueried.needs_sweep(now),
        !HostThemeBaseline::AwaitingFirstReport.needs_sweep(now),
        HostThemeBaseline::Known(last).needs_sweep(now) <==> last != now,
{
}

/// A query of the default colors asks for the foreground, then for the
/// background. The palette is asked for entry by entry, in order.
pub proof fn lemma_queries_in_order(count: nat)
    ensures
        HOST_COLOR_QUERY_SEQUENCE@ == "\x1b]10;?\x1b\\\x1b]11;?\x1b\\"@,
        palette_queries(0) == Seq::<char>::empty(),
        palette_queries(count + 1) == palette_queries(count) + "\x1b]4;"@ + text::decimal(count)
            + ";?\x1b\\"@,
{
    assert(palette_queries(count + 1) =~= palette_queries(count) + "\x1b]4;"@ + text::decimal(count)
        + ";?\x1b\\"@);
}

/// The greatest numbers of one to four hexadecimal digits.
pub proof fn lemma_greatest_components()
    ensures
        text::hex_limit(1) == 0xf,
        text::hex_limit(2) == 0xff,
        text::hex_limit(3) == 0xfff,
        text::hex_limit(4) == 0xffff,
{
    reveal_with_fuel(text::hex_limit, 5);
}

/// A component is a step exactly where it is one to four hexadecimal digits and
/// that step is the one nearest to their share of the greatest such number.
pub proof fn lemma_component_is_the_nearest_step(digits: Seq<char>, step: u8)
    ensures
        hex_component(digits) == Some(step) <==> {
            let value = text::hex_value(digits) as int;
            &&& text::all_hex(digits)
            &&& {
                ||| digits.len() == 1 && -0xf < 2 * (step * 0xf - value * 255) < 0xf
                ||| digits.len() == 2 && -0xff < 2 * (step * 0xff - value * 255) < 0xff
                ||| digits.len() == 3 && -0xfff < 2 * (step * 0xfff - value * 255) < 0xfff
                ||| digits.len() == 4 && -0xffff < 2 * (step * 0xffff - value * 255) < 0xffff
            }
        },
{
    lemma_greatest_components();
    if 1 <= digits.len() <= 4 && text::all_hex(digits) {
        lemma_component_is_nearest(digits);
        lemma_hex_value_bound(digits);
        let nearest = hex_component(digits)->0;
        let value = text::hex_value(digits) as int;
        if digits.len() == 1 {
            assert(-0xf < 2 * (nearest * 0xf - value * 255) < 0xf);
        } else if digits.len() == 2 {
            assert(-0xff < 2 * (nearest * 0xff - value * 255) < 0xff);
        } else if digits.len() == 3 {
            assert(-0xfff < 2 * (nearest * 0xfff - value * 255) < 0xfff);
        } else {
            assert(digits.len() == 4);
            assert(-0xffff < 2 * (nearest * 0xffff - value * 255) < 0xffff);
        }
    }
}

/// Three components between slashes after `rgb:` are the color that has them as
/// red, green and blue, and no color where one of them is no component.
pub proof fn lemma_slashed_components_are_the_color(
    r: Seq<char>,
    g: Seq<char>,
    b: Seq<char>,
    color: RgbColor,
)
    requires
        !r.contains('/'),
        !g.contains('/'),
        !b.contains('/'),
    ensures
        rgb_color("rgb:"@ + r + seq!['/'] + g + seq!['/'] + b) == Some(color) <==> hex_component(r)
            == Some(color.r) && hex_component(g) == Some(color.g) && hex_component(b) == Some(
            color.b,
        ),
{
    lemma_rgb_notation_of(r, g, b);
}

/// Three components of one length after `#` are the color that has them as red,
/// green and blue, and no color where one of them is no component.
pub proof fn lemma_hashed_components_are_the_color(
    r: Seq<char>,
    g: Seq<char>,
    b: Seq<char>,
    color: RgbColor,
)
    requires
        r.len() == g.len() == b.len(),
    ensures
        rgb_color(seq!['#'] + r + g + b) == Some(color) <==> hex_component(r) == Some(color.r)
            && hex_component(g) == Some(color.g) && hex_component(b) == Some(color.b),
{
    let value = seq!['#'] + r + g + b;
    let hex = value.skip(1);
    let n = r.len() as int;
    reveal_strlit("rgb:");
    if "rgb:"@.is_prefix_of(value) {
        assert(value.subrange(0, 4)[0] == value[0]);
    }
    assert(hex =~= r + g + b);
    assert(hex.len() == n * 3);
    assert(hex.subrange(0, n) =~= r);
    assert(hex.subrange(n, n * 2) =~= g);
    assert(hex.subrange(n * 2, n * 3) =~= b);
}

/// A color is written in one of the two notations: nothing else is read.
pub proof fn lemma_color_is_in_a_notation(value: Seq<char>) -> (parts: (
    Seq<char>,
    Seq<char>,
    Seq<char>,
))
    requires
        rgb_color(value) is Some,
    ensures
        ({
            let (r, g, b) = parts;
            ||| value == "rgb:"@ + r + seq!['/'] + g + seq!['/'] + b && !r.contains('/')
                && !g.contains('/') && !b.contains('/')
            ||| value == seq!['#'] + r + g + b && r.len() == g.len() == b.len()
        }),
{
    reveal_strlit("rgb:");
    if "rgb:"@.is_prefix_of(value) {
        let rest = value.skip(4);
        let parts = text::split(rest, '/');
        text::lemma_split_is_exact(rest, '/');
        assert(parts =~= seq![parts[0]].push(parts[1]).push(parts[2]));
        text::lemma_join_by_last_piece(seq![parts[0]].push(parts[1]), parts[2], '/');
        text::lemma_join_by_last_piece(seq![parts[0]], parts[1], '/');
        text::lemma_join_by_last_piece(seq![parts[0]], parts[0], '/');
        assert(rest =~= parts[0] + seq!['/'] + parts[1] + seq!['/'] + parts[2]);
        assert("rgb:"@ =~= value.subrange(0, 4));
        assert(value =~= "rgb:"@ + rest);
        assert("rgb:"@ + rest =~= "rgb:"@ + parts[0] + seq!['/'] + parts[1] + seq!['/'] + parts[2]);
        assert(!parts[0].contains('/') && !parts[1].contains('/') && !parts[2].contains('/'));
        (parts[0], parts[1], parts[2])
    } else {
        let hex = value.skip(1);
        let n = (hex.len() / 3) as int;
        let parts = (hex.subrange(0, n), hex.subrange(n, n * 2), hex.subrange(n * 2, n * 3));
        assert(value =~= seq!['#'] + parts.0 + parts.1 + parts.2);
        parts
    }
}

/// A color written as `#` and two digits for each component reads back.
pub proof fn lemma_hash_notation_reads_back(color: RgbColor)
    ensures
        rgb_color(
            seq!['#'] + text::hex_byte(color.r) + text::hex_byte(color.g) + text::hex_byte(color.b),
        ) == Some(color),
{
    lemma_byte_component(color.r);
    lemma_byte_component(color.g);
    lemma_byte_component(color.b);
    lemma_hashed_components_are_the_color(
        text::hex_byte(color.r),
        text::hex_byte(color.g),
        text::hex_byte(color.b),
        color,
    );
}

/// The two notations agree on components of one length.
pub proof fn lemma_notations_agree(r: Seq<char>, g: Seq<char>, b: Seq<char>)
    requires
        r.len() == g.len() == b.len(),
        !r.contains('/'),
        !g.contains('/'),
        !b.contains('/'),
    ensures
        rgb_color(seq!['#'] + r + g + b) == rgb_color("rgb:"@ + r + seq!['/'] + g + seq!['/'] + b),
{
    let hashed = rgb_color(seq!['#'] + r + g + b);
    let slashed = rgb_color("rgb:"@ + r + seq!['/'] + g + seq!['/'] + b);
    match hashed {
        Some(color) => {
            lemma_hashed_components_are_the_color(r, g, b, color);
            lemma_slashed_components_are_the_color(r, g, b, color);
        },
        None => {
            match slashed {
                Some(color) => {
                    lemma_hashed_components_are_the_color(r, g, b, color);
                    lemma_slashed_components_are_the_color(r, g, b, color);
                },
                None => {},
            }
        },
    }
}

/// The OSC command 10 is the foreground's, and 11 the background's. The report of
/// either, ended by ESC backslash or BEL, is read as the color that its value is.
pub proof fn lemma_default_color_value_is_read(
    kind: DefaultColorKind,
    value: Seq<char>,
    terminator: Seq<char>,
)
    requires
        terminator == seq!['\x1b', '\\'] || terminator == seq!['\u{7}'],
    ensures
        ({
            let sequence = "\x1b]"@ + (if kind is Foreground {
                "10"@
            } else {
                "11"@
            }) + seq![';'] + value + terminator;
            &&& default_color_report(sequence) == Some((kind, value))
            &&& default_color_response(sequence) == (match rgb_color(value) {
                Some(color) => Some((kind, color)),
                None => None,
            })
        }),
{
    reveal_strlit("10");
    reveal_strlit("11");
    assert("10"@ != "11"@) by {
        assert("10"@[1] != "11"@[1]);
    }
    lemma_report_body(
        "\x1b]"@,
        if kind is Foreground {
            "10"@
        } else {
            "11"@
        },
        value,
        terminator,
    );
}

proof fn lemma_body_stands_between(sequence: Seq<char>, introducer: Seq<char>) -> (terminator: Seq<
    char,
>)
    requires
        osc_body(sequence, introducer) is Some,
    ensures
        terminator == seq!['\x1b', '\\'] || terminator == seq!['\u{7}'],
        sequence == introducer + osc_body(sequence, introducer)->0 + terminator,
{
    let rest = sequence.skip(introducer.len() as int);
    let body = osc_body(sequence, introducer)->0;
    assert(sequence =~= introducer + rest) by {
        assert(introducer =~= sequence.subrange(0, introducer.len() as int));
    }
    let terminator = if seq!['\x1b', '\\'].is_suffix_of(rest) {
        seq!['\x1b', '\\']
    } else {
        seq!['\u{7}']
    };
    assert(terminator =~= rest.subrange(rest.len() - terminator.len(), rest.len() as int));
    assert(rest =~= body + terminator);
    assert(introducer + (body + terminator) =~= introducer + body + terminator);
    terminator
}

/// Only such a report is read as one of a default color.
pub proof fn lemma_default_color_report_has_the_form(sequence: Seq<char>) -> (parts: (
    Seq<char>,
    Seq<char>,
))
    requires
        default_color_report(sequence) is Some || default_color_response(sequence) is Some,
    ensures
        ({
            let (value, terminator) = parts;
            &&& terminator == seq!['\x1b', '\\'] || terminator == seq!['\u{7}']
            &&& {
                ||| sequence == "\x1b]"@ + "10"@ + seq![';'] + value + terminator
                ||| sequence == "\x1b]"@ + "11"@ + seq![';'] + value + terminator
            }
        }),
{
    let body = osc_body(sequence, "\x1b]"@)->0;
    let terminator = lemma_body_stands_between(sequence, "\x1b]"@);
    let (command, value) = text::split_once(body, ';')->0;
    text::lemma_split_once_at_first(body, ';', command, value);
    assert(sequence =~= "\x1b]"@ + command + seq![';'] + value + terminator);
    (value, terminator)
}

/// A report of the OSC command 4, ended by ESC backslash or BEL, is read as the
/// entry that its first field numbers and the color that the rest is.
pub proof fn lemma_palette_value_is_read(
    number: Seq<char>,
    value: Seq<char>,
    terminator: Seq<char>,
)
    requires
        !number.contains(';'),
        terminator == seq!['\x1b', '\\'] || terminator == seq!['\u{7}'],
    ensures
        ({
            let sequence = "\x1b]4;"@ + number + seq![';'] + value + terminator;
            let read = match (text::unsigned_number(number, 255), rgb_color(value)) {
                (Some(index), Some(color)) => Some((index as u8, color)),
                _ => None,
            };
            &&& palette_color_response(sequence) == read
            &&& palette_color_report(sequence) == (match text::unsigned_number(number, 255) {
                Some(index) => Some((index as u8, value)),
                None => None,
            })
        }),
{
    lemma_report_body("\x1b]4;"@, number, value, terminator);
}

/// Only such a report is read as one of a palette entry.
pub proof fn lemma_palette_report_has_the_form(sequence: Seq<char>) -> (parts: (
    Seq<char>,
    Seq<char>,
    Seq<char>,
))
    requires
        palette_color_report(sequence) is Some || palette_color_response(sequence) is Some,
    ensures
        ({
            let (number, value, terminator) = parts;
            &&& !number.contains(';')
            &&& terminator == seq!['\x1b', '\\'] || terminator == seq!['\u{7}']
            &&& sequence == "\x1b]4;"@ + number + seq![';'] + value + terminator
        }),
{
    let body = osc_body(sequence, "\x1b]4;"@)->0;
    let terminator = lemma_body_stands_between(sequence, "\x1b]4;"@);
    let (number, value) = text::split_once(body, ';')->0;
    text::lemma_split_once_at_first(body, ';', number, value);
    assert(sequence =~= "\x1b]4;"@ + number + seq![';'] + value + terminator);
    (number, value, terminator)
}

/// A default color is set by its OSC command, and written as `rgb:` and two
/// digits for each component.
pub proof fn lemma_set_notation(kind: DefaultColorKind, color: RgbColor)
    ensures
        default_color_command(kind) == (if kind is Foreground {
            "10"@
        } else {
            "11"@
        }),
        rgb_notation(color) == "rgb:"@ + text::hex_byte(color.r) + seq!['/'] + text::hex_byte(
            color.g,
        ) + seq!['/'] + text::hex_byte(color.b),
{
}

/// Only a value in the `#` notation, of three to twelve bytes that can be cut in
/// three, can have a character cut apart.
pub proof fn lemma_other_values_are_not_cut(value: Seq<char>)
    requires
        ({
            let bytes = vstd::utf8::encode_utf8(value.skip(1)).len();
            value.len() == 0 || value[0] != '#' || bytes % 3 != 0 || bytes < 3 || bytes > 12
        }),
    ensures
        !hash_cut_splits_char(value),
{
}

/// A report that repeats the last one calls for no sweep: of two calls of
/// `observe` with one scheme the second returns false. A report of the other
/// scheme calls for one.
pub proof fn lemma_repeated_report_costs_nothing(
    baseline: &mut HostThemeBaseline,
    now: HostAppearance,
    first: bool,
    later: &mut HostThemeBaseline,
    next: HostAppearance,
    second: bool,
)
    requires
        call_ensures(HostThemeBaseline::observe, (baseline, now), first),
        *old(later) == *final(baseline),
        call_ensures(HostThemeBaseline::observe, (later, next), second),
    ensures
        second <==> now != next,
        *old(baseline) == HostThemeBaseline::Unqueried ==> first,
        *old(baseline) == HostThemeBaseline::AwaitingFirstReport ==> !first,
        *final(later) == HostThemeBaseline::Known(next),
{
}

/// After a sweep that came before any report the first report calls for none.
pub proof fn lemma_early_sweep_covers_the_first_report(
    baseline: &mut HostThemeBaseline,
    later: &mut HostThemeBaseline,
    now: HostAppearance,
    requery: bool,
)
    requires
        call_ensures(HostThemeBaseline::sweep_sent_before_first_report, (baseline,), ()),
        *old(later) == *final(baseline),
        call_ensures(HostThemeBaseline::observe, (later, now), requery),
    ensures
        !requery,
{
}

/// A color that a theme is given is the one that it has, and its other colors stay.
pub proof fn lemma_theme_keeps_its_other_colors(
    theme: TerminalTheme,
    kind: DefaultColorKind,
    index: u8,
    color: RgbColor,
    colored: TerminalTheme,
    painted: TerminalTheme,
    empty: bool,
)
    requires
        call_ensures(TerminalTheme::with_color, (theme, kind, color), colored),
        call_ensures(TerminalTheme::with_palette_color, (theme, index, color), painted),
        call_ensures(TerminalTheme::is_empty, (theme,), empty),
    ensures
        kind is Foreground ==> colored.foreground == Some(color) && colored.background
            == theme.background,
        kind is Background ==> colored.background == Some(color) && colored.foreground
            == theme.foreground,
        colored.palette == theme.palette,
        painted.palette@[index as int] == Some(color),
        forall|i: int|
            0 <= i < 256 && i != index ==> #[trigger] painted.palette@[i] == theme.palette@[i],
        painted.foreground == theme.foreground && painted.background == theme.background,
        empty <==> theme.foreground is None && theme.background is None,
{
}

/// The sequence that sets a default color reads back as that color.
pub proof fn lemma_set_color_is_read(
    kind: DefaultColorKind,
    color: RgbColor,
    sequence: String,
    reply: &str,
    response: Option<(DefaultColorKind, RgbColor)>,
)
    requires
        call_ensures(osc_set_default_color_sequence, (kind, color), sequence),
        reply@ == sequence@,
        call_ensures(parse_default_color_response, (reply,), response),
    ensures
        response == Some((kind, color)),
        sequence@ == "\x1b]"@ + (if kind is Foreground {
            "10"@
        } else {
            "11"@
        }) + ";rgb:"@ + text::hex_byte(color.r) + seq!['/'] + text::hex_byte(color.g) + seq!['/']
            + text::hex_byte(color.b) + "\x1b\\"@,
{
    lemma_set_sequence_reads_back(kind, color);
    reveal_strlit(";");
    reveal_strlit("rgb:");
    reveal_strlit(";rgb:");
    assert(";rgb:"@ =~= ";"@ + "rgb:"@);
    assert(sequence@ =~= "\x1b]"@ + (if kind is Foreground {
        "10"@
    } else {
        "11"@
    }) + ";rgb:"@ + text::hex_byte(color.r) + seq!['/'] + text::hex_byte(color.g) + seq!['/']
        + text::hex_byte(color.b) + "\x1b\\"@);
}

/// A palette reply is read as its entry and its color, in either notation.
pub proof fn lemma_palette_color_is_read(
    index: u8,
    color: RgbColor,
    value: Seq<char>,
    terminator: Seq<char>,
    reply: &str,
    response: Option<(u8, RgbColor)>,
)
    requires
        terminator == seq!['\x1b', '\\'] || terminator == seq!['\u{7}'],
        value == "rgb:"@ + text::hex_byte(color.r) + seq!['/'] + text::hex_byte(color.g) + seq!['/']
            + text::hex_byte(color.b) || value == seq!['#'] + text::hex_byte(color.r)
            + text::hex_byte(color.g) + text::hex_byte(color.b),
        reply@ == "\x1b]4;"@ + text::decimal(index as nat) + seq![';'] + value + terminator,
        call_ensures(parse_palette_color_response, (reply,), response),
    ensures
        response == Some((index, color)),
{
    let number = text::decimal(index as nat);
    text::lemma_decimal_reads_back(index as nat, 255);
    assert(!number.contains(';')) by {
        assert forall|i: int| 0 <= i < number.len() implies number[i] != ';' by {
            assert(text::decimal_digit(number[i]) is Some);
        }
    }
    lemma_palette_value_is_read(number, value, terminator);
    lemma_hash_notation_reads_back(color);
    lemma_byte_component(color.r);
    lemma_byte_component(color.g);
    lemma_byte_component(color.b);
    text::lemma_hex_byte(color.r);
    text::lemma_hex_byte(color.g);
    text::lemma_hex_byte(color.b);
    lemma_slashed_components_are_the_color(
        text::hex_byte(color.r),
        text::hex_byte(color.g),
        text::hex_byte(color.b),
        color,
    );
}

/// What is read of a color are its components' nearest steps, in the order red,
/// green, blue, in either notation.
pub proof fn lemma_color_is_read_by_component(
    value: &str,
    r: Seq<char>,
    g: Seq<char>,
    b: Seq<char>,
    read: Option<RgbColor>,
    color: RgbColor,
)
    requires
        call_ensures(parse_rgb_color, (value,), read),
        ({
            ||| value@ == seq!['#'] + r + g + b && r.len() == g.len() == b.len()
            ||| value@ == "rgb:"@ + r + seq!['/'] + g + seq!['/'] + b && !r.contains('/')
                && !g.contains('/') && !b.contains('/')
        }),
    ensures
        read == Some(color) <==> hex_component(r) == Some(color.r) && hex_component(g) == Some(
            color.g,
        ) && hex_component(b) == Some(color.b),
{
    if value@ == seq!['#'] + r + g + b && r.len() == g.len() == b.len() {
        lemma_hashed_components_are_the_color(r, g, b, color);
    } else {
        lemma_slashed_components_are_the_color(r, g, b, color);
    }
}

/// What is asked for of the palette comes after what is always asked for.
pub proof fn lemma_palette_is_asked_for_last(plain: String, full: String)
    requires
        call_ensures(host_terminal_theme_query_sequence, (false,), plain),
        call_ensures(host_terminal_theme_query_sequence, (true,), full),
    ensures
        plain@ == "\x1b]10;?\x1b\\\x1b]11;?\x1b\\"@,
        full@ == plain@ + palette_queries(256),
{
}

/// A brighter color is never taken for a dark one where a dimmer one is light, and
/// where a color becomes light is a matter of its weighted brightness alone.
pub proof fn lemma_appearance_grows_with_brightness(
    dim: RgbColor,
    bright: RgbColor,
    of_dim: HostAppearance,
    of_bright: HostAppearance,
)
    requires
        dim.r <= bright.r && dim.g <= bright.g && dim.b <= bright.b,
        call_ensures(RgbColor::inferred_appearance, (dim,), of_dim),
        call_ensures(RgbColor::inferred_appearance, (bright,), of_bright),
    ensures
        of_dim is Light ==> of_bright is Light,
        of_dim is Light <==> 299 * dim.r + 587 * dim.g + 114 * dim.b >= 128_000,
{
}

/// A component that is read is the nearest step, and nothing but one to four
/// hexadecimal digits is read.
pub proof fn lemma_component_is_read(digits: &str, read: Option<u8>, step: u8)
    requires
        call_ensures(parse_hex_component, (digits,), read),
    ensures
        read is Some <==> 1 <= digits@.len() <= 4 && text::all_hex(digits@),
        read == Some(step) && digits@.len() == 2 ==> step == text::hex_value(digits@),
        read == Some(step) && digits@.len() == 1 ==> step == 17 * text::hex_value(digits@),
        read == Some(step) && digits@.len() == 3 ==> -0xfff < 2 * (step * 0xfff - text::hex_value(
            digits@,
        ) * 255) < 0xfff,
        read == Some(step) && digits@.len() == 4 ==> -0xffff < 2 * (step * 0xffff - text::hex_value(
            digits@,
        ) * 255) < 0xffff,
{
    lemma_component_is_the_nearest_step(digits@, step);
}

} // verus!
