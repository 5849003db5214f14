use vstd::prelude::*;
use vstd::string::StrSliceExecFns;
use vstd::string::StringExecFns;
use vstd::string::StringSliceAdditionalSpecFns;
use vstd::utf8::encode_utf8;
use vstd::utf8::is_char_boundary;

use crate::config::Config;
use crate::text::append_decimal;
use crate::text::append_signed_decimal;
use crate::text::chars_of;
use crate::text::decimal;
use crate::text::find_char;
use crate::text::first_index_of;
use crate::text::lemma_first_index_bounds;
use crate::text::range_equals;
use crate::text::signed_decimal;
use crate::text::slice_text;
use crate::text::strip_end_char;
use crate::text::strip_end_range;
use crate::text::strip_start_char;
use crate::text::trim;
use crate::text::trim_range;

verus! {

/// Foreground used when the theme file does not set one.
pub open spec fn default_fg() -> Seq<char> {
    seq!['#', 'd', '3', 'c', '6', 'a', 'a']
}

/// Background used when the theme file does not set one.
pub open spec fn default_bg() -> Seq<char> {
    seq!['#', '2', 'd', '3', '5', '3', 'b']
}

/// Foreground and background colors, each as the text the theme file gives.
#[derive(Clone, Debug)]
pub struct ThemeColors {
    pub foreground: String,
    pub background: String,
}

impl Default for ThemeColors {
    fn default() -> (r: Self)
        ensures
            r.foreground@ == default_fg(),
            r.background@ == default_bg(),
    {
        proof {
            reveal_strlit("#d3c6aa");
            reveal_strlit("#2d353b");
        }
        let r = ThemeColors {
            foreground: String::from_str("#d3c6aa"),
            background: String::from_str("#2d353b"),
        };
        assert(r.foreground@ =~= default_fg());
        assert(r.background@ =~= default_bg());
        r
    }
}

pub open spec fn define_color_prefix() -> Seq<char> {
    seq!['@', 'd', 'e', 'f', 'i', 'n', 'e', '-', 'c', 'o', 'l', 'o', 'r', ' ']
}

pub open spec fn foreground_name() -> Seq<char> {
    seq!['f', 'o', 'r', 'e', 'g', 'r', 'o', 'u', 'n', 'd']
}

pub open spec fn background_name() -> Seq<char> {
    seq!['b', 'a', 'c', 'k', 'g', 'r', 'o', 'u', 'n', 'd']
}

/// The colors after reading one line of the theme file: a line that, once trimmed, reads
/// `@define-color NAME VALUE` sets the color called NAME (`foreground` or `background`)
/// to VALUE, trimmed and without trailing semicolons; any other line changes nothing.
pub open spec fn apply_css_line(colors: (Seq<char>, Seq<char>), line: Seq<char>) -> (
    Seq<char>,
    Seq<char>,
) {
    let t = trim(line);
    let p = define_color_prefix();
    if t.len() >= p.len() && t.take(p.len() as int) == p {
        let rest = t.skip(p.len() as int);
        let sp = first_index_of(rest, ' ');
        if sp < rest.len() {
            let name = trim(rest.take(sp));
            let value = trim(strip_end_char(trim(rest.skip(sp + 1)), ';'));
            if name == foreground_name() {
                (value, colors.1)
            } else if name == background_name() {
                (colors.0, value)
            } else {
                colors
            }
        } else {
            colors
        }
    } else {
        colors
    }
}

/// The colors after reading the lines of `s` (split at `'\n'`) in order.
pub open spec fn parse_css_colors(s: Seq<char>, colors: (Seq<char>, Seq<char>)) -> (
    Seq<char>,
    Seq<char>,
)
    decreases s.len(),
{
    let k = first_index_of(s, '\n');
    let next = apply_css_line(colors, s.take(k));
    if 0 <= k < s.len() {
        parse_css_colors(s.skip(k + 1), next)
    } else {
        next
    }
}

/// A text without any `@` defines no color: the colors stay as they were.
pub proof fn lemma_no_definitions_keeps_colors(s: Seq<char>, colors: (Seq<char>, Seq<char>))
    requires
        forall|i: int| 0 <= i < s.len() ==> s[i] != '@',
    ensures
        parse_css_colors(s, colors) == colors,
    decreases s.len(),
{
    lemma_first_index_bounds(s, '\n');
    let k = first_index_of(s, '\n');
    let line = s.take(k);
    let t = trim(line);
    crate::text::lemma_trim_chars_from(line);
    if t.len() >= 14 && t.take(14) == define_color_prefix() {
        assert(t.take(14)[0] == '@');
        assert(t[0] == '@');
        let j = choose|j: int| 0 <= j < line.len() && line[j] == #[trigger] t[0];
        assert(line[j] == s[j]);
    }
    assert(apply_css_line(colors, line) == colors);
    if k < s.len() {
        let rest = s.skip(k + 1);
        assert forall|i: int| 0 <= i < rest.len() implies rest[i] != '@' by {
            assert(rest[i] == s[i + k + 1]);
        }
        lemma_no_definitions_keeps_colors(rest, colors);
    }
}

/// A line `@define-color NAME VALUE;` sets the color NAME (`foreground` or `background`) to
/// exactly VALUE, spaces inside it included, for any VALUE without surrounding whitespace
/// that does not end in `;`; the other color is left as it was.
pub proof fn lemma_define_color_line(colors: (Seq<char>, Seq<char>), value: Seq<char>)
    requires
        value.len() > 0 ==> !crate::text::is_ws(value[0]) && !crate::text::is_ws(value.last())
            && value.last() != ';',
    ensures
        apply_css_line(colors, "@define-color foreground "@ + value + ";"@) == (value, colors.1),
        apply_css_line(colors, "@define-color background "@ + value + ";"@) == (colors.0, value),
{
    reveal_strlit("@define-color foreground ");
    reveal_strlit("@define-color background ");
    reveal_strlit(";");
    lemma_define_line_for(colors, value, foreground_name());
    lemma_define_line_for(colors, value, background_name());
    assert("@define-color foreground "@ =~= define_color_prefix() + foreground_name() + seq![' ']);
    assert("@define-color background "@ =~= define_color_prefix() + background_name() + seq![' ']);
    assert("@define-color foreground "@ + value + ";"@ =~= define_color_prefix() + foreground_name()
        + seq![' '] + value + seq![';']);
    assert("@define-color background "@ + value + ";"@ =~= define_color_prefix() + background_name()
        + seq![' '] + value + seq![';']);
}

proof fn lemma_define_line_for(colors: (Seq<char>, Seq<char>), value: Seq<char>, name: Seq<char>)
    requires
        value.len() > 0 ==> !crate::text::is_ws(value[0]) && !crate::text::is_ws(value.last())
            && value.last() != ';',
        name == foreground_name() || name == background_name(),
    ensures
        ({
            let line = define_color_prefix() + name + seq![' '] + value + seq![';'];
            &&& name == foreground_name() ==> apply_css_line(colors, line) == (value, colors.1)
            &&& name == background_name() ==> apply_css_line(colors, line) == (colors.0, value)
        }),
{
    let p = define_color_prefix();
    let line = p + name + seq![' '] + value + seq![';'];
    assert(line[0] == '@');
    assert(line.last() == ';');
    crate::text::lemma_trim_unchanged(line);
    let t = trim(line);
    assert(t.take(14) =~= p);
    let rest = t.skip(14);
    assert(rest =~= name + seq![' '] + value + seq![';']);
    assert forall|k: int| 0 <= k < 10 implies rest[k] != ' ' by {
        assert(rest[k] == name[k]);
    }
    assert(rest[10] == ' ');
    crate::text::lemma_first_index_is(rest, ' ', 10);
    assert(rest.take(10) =~= name);
    crate::text::lemma_trim_unchanged(name);
    let after = rest.skip(11);
    assert(after =~= value.push(';'));
    crate::text::lemma_trim_unchanged(after);
    crate::text::lemma_strip_end_once(value, ';');
    crate::text::lemma_trim_unchanged(value);
    assert(foreground_name() != background_name()) by {
        assert(foreground_name()[0] != background_name()[0]);
    }
}

/// Lines are read in order: appending a line (without a line break) to a text applies
/// that line to the colors the text gives, so a later definition overrides an earlier one.
pub proof fn lemma_lines_apply_in_order(s: Seq<char>, line: Seq<char>, colors: (Seq<char>, Seq<char>))
    requires
        forall|i: int| 0 <= i < line.len() ==> line[i] != '\n',
    ensures
        parse_css_colors(s + seq!['\n'] + line, colors) == apply_css_line(parse_css_colors(s, colors), line),
    decreases s.len(),
{
    let whole = s + seq!['\n'] + line;
    lemma_first_index_bounds(s, '\n');
    let k0 = first_index_of(s, '\n');
    assert forall|j: int| 0 <= j < k0 implies whole[j] != '\n' by {
        assert(whole[j] == s[j]);
    }
    if k0 < s.len() {
        assert(whole[k0] == s[k0]);
        crate::text::lemma_first_index_is(whole, '\n', k0);
        assert(whole.take(k0) =~= s.take(k0));
        let rest = s.skip(k0 + 1);
        assert(whole.skip(k0 + 1) =~= rest + seq!['\n'] + line);
        let next = apply_css_line(colors, s.take(k0));
        lemma_lines_apply_in_order(rest, line, next);
        assert(parse_css_colors(whole, colors) == parse_css_colors(whole.skip(k0 + 1), next));
        assert(parse_css_colors(s, colors) == parse_css_colors(rest, next));
    } else {
        assert(whole[k0] == '\n');
        crate::text::lemma_first_index_is(whole, '\n', k0);
        assert(whole.take(k0) =~= s);
        assert(s.take(k0) =~= s);
        assert(whole.skip(k0 + 1) =~= line);
        crate::text::lemma_first_index_is(line, '\n', line.len() as int);
        assert(line.take(line.len() as int) =~= line);
        let next = apply_css_line(colors, s);
        assert(parse_css_colors(whole, colors) == parse_css_colors(line, next));
        assert(parse_css_colors(line, next) == apply_css_line(next, line));
        assert(parse_css_colors(s, colors) == next);
    }
}

fn apply_line(
    content: &str,
    cs: &Vec<char>,
    lo: usize,
    hi: usize,
    fg: &mut String,
    bg: &mut String,
)
    requires
        cs@ == content@,
        lo <= hi <= cs@.len(),
    ensures
        (final(fg)@, final(bg)@) == apply_css_line((old(fg)@, old(bg)@), cs@.subrange(lo as int, hi as int)),
{
    let ghost line = cs@.subrange(lo as int, hi as int);
    let (ta, tb) = trim_range(cs, lo, hi);
    let ghost t = trim(line);
    assert(t == cs@.subrange(ta as int, tb as int));
    let prefix = vec!['@', 'd', 'e', 'f', 'i', 'n', 'e', '-', 'c', 'o', 'l', 'o', 'r', ' '];
    assert(prefix@ =~= define_color_prefix());
    if tb - ta < 14 {
        return ;
    }
    let ra = ta + 14;
    assert(t.take(14) =~= cs@.subrange(ta as int, ra as int));
    if !range_equals(cs, ta, ra, &prefix) {
        return ;
    }
    let ghost rest = t.skip(14);
    assert(rest =~= cs@.subrange(ra as int, tb as int));
    let sp = find_char(cs, ra, tb, ' ');
    proof {
        lemma_first_index_bounds(rest, ' ');
    }
    if sp == tb {
        return ;
    }
    let ghost k = sp - ra;
    assert(rest.take(k) =~= cs@.subrange(ra as int, sp as int));
    assert(rest.skip(k + 1) =~= cs@.subrange(sp + 1, tb as int));
    let (na, nb) = trim_range(cs, ra, sp);
    let (va0, vb0) = trim_range(cs, sp + 1, tb);
    let vb1 = strip_end_range(cs, va0, vb0, ';');
    let (va, vb) = trim_range(cs, va0, vb1);
    let fg_name = vec!['f', 'o', 'r', 'e', 'g', 'r', 'o', 'u', 'n', 'd'];
    let bg_name = vec!['b', 'a', 'c', 'k', 'g', 'r', 'o', 'u', 'n', 'd'];
    assert(fg_name@ =~= foreground_name());
    assert(bg_name@ =~= background_name());
    if range_equals(cs, na, nb, &fg_name) {
        *fg = slice_text(content, cs, va, vb);
    } else if range_equals(cs, na, nb, &bg_name) {
        *bg = slice_text(content, cs, va, vb);
    }
}

/// Reads the `@define-color foreground ...;` and `@define-color background ...;` lines of
/// a waybar stylesheet; a color it does not set keeps its default, and a later line wins.
pub fn parse_theme(content: &str) -> (r: ThemeColors)
    ensures
        (r.foreground@, r.background@) == parse_css_colors(content@, (default_fg(), default_bg())),
{
    let cs = chars_of(content);
    let n = cs.len();
    let mut colors = ThemeColors::default();
    let mut a: usize = 0;
    assert(cs@.skip(0) =~= cs@);
    loop
        invariant_except_break
            a <= n,
            n == cs@.len(),
            cs@ == content@,
            parse_css_colors(content@, (default_fg(), default_bg())) == parse_css_colors(
                cs@.skip(a as int),
                (colors.foreground@, colors.background@),
            ),
        ensures
            (colors.foreground@, colors.background@) == parse_css_colors(
                content@,
                (default_fg(), default_bg()),
            ),
        decreases n - a,
    {
        let j = find_char(&cs, a, n, '\n');
        let ghost s = cs@.skip(a as int);
        let ghost before = (colors.foreground@, colors.background@);
        assert(cs@.subrange(a as int, n as int) =~= s);
        assert(s.take(j - a) =~= cs@.subrange(a as int, j as int));
        apply_line(content, &cs, a, j, &mut colors.foreground, &mut colors.background);
        if j == n {
            break ;
        }
        assert(s.skip(j - a + 1) =~= cs@.skip(j + 1));
        a = j + 1;
    }
    colors
}

/// Value of an ASCII hexadecimal digit byte.
pub open spec fn hex_digit_value(b: u8) -> Option<int> {
    if 48 <= b <= 57 {
        Some(b - 48)
    } else if 97 <= b <= 102 {
        Some(b - 87)
    } else if 65 <= b <= 70 {
        Some(b - 55)
    } else {
        None
    }
}

/// What base-16 `u8::from_str_radix` gives for the two-byte text `[a, b]` (an optional `+`,
/// then hexadecimal digits), with 0 where it fails.
pub open spec fn parse_hex_pair(a: u8, b: u8) -> u8 {
    if a == 43 {
        match hex_digit_value(b) {
            Some(v) => v as u8,
            None => 0,
        }
    } else {
        match (hex_digit_value(a), hex_digit_value(b)) {
            (Some(x), Some(y)) => (16 * x + y) as u8,
            _ => 0,
        }
    }
}

fn hex_digit(b: u8) -> (r: Option<u8>)
    ensures
        match hex_digit_value(b) {
            Some(v) => r == Some(v as u8) && v < 16,
            None => r is None,
        },
{
    if 48 <= b && b <= 57 {
        Some(b - 48)
    } else if 97 <= b && b <= 102 {
        Some(b - 87)
    } else if 65 <= b && b <= 70 {
        Some(b - 55)
    } else {
        None
    }
}

fn hex_pair(a: u8, b: u8) -> (r: u8)
    ensures
        r == parse_hex_pair(a, b),
{
    if a == 43 {
        match hex_digit(b) {
            Some(v) => v,
            None => 0,
        }
    } else {
        match (hex_digit(a), hex_digit(b)) {
            (Some(x), Some(y)) => 16 * x + y,
            _ => 0,
        }
    }
}

/// The UTF-8 bytes of `hex` after its leading `#` characters.
pub open spec fn hex_body(hex: Seq<char>) -> Seq<u8> {
    encode_utf8(strip_start_char(hex, '#'))
}

/// Whether `hex_to_rgb` can slice the color text: the pieces it cuts must begin and end
/// on character boundaries.
pub open spec fn hex_to_rgb_defined(hex: Seq<char>) -> bool {
    let b = hex_body(hex);
    &&& b.len() == 3 ==> is_char_boundary(b, 1) && is_char_boundary(b, 2)
    &&& b.len() == 6 ==> is_char_boundary(b, 2) && is_char_boundary(b, 4)
}

/// `#RGB` gives each digit doubled, `#RRGGBB` gives the three byte pairs, and a text of
/// any other byte length gives black; a piece that is not a number gives 0.
pub open spec fn spec_hex_to_rgb(hex: Seq<char>) -> (u8, u8, u8) {
    let b = hex_body(hex);
    if b.len() == 3 {
        (parse_hex_pair(b[0], b[0]), parse_hex_pair(b[1], b[1]), parse_hex_pair(b[2], b[2]))
    } else if b.len() == 6 {
        (parse_hex_pair(b[0], b[1]), parse_hex_pair(b[2], b[3]), parse_hex_pair(b[4], b[5]))
    } else {
        (0, 0, 0)
    }
}

/// The text of `hex` after its leading `#` characters.
fn strip_hashes(hex: &str) -> (r: &str)
    ensures
        r@ == strip_start_char(hex@, '#'),
{
    let n = hex.unicode_len();
    let mut k: usize = 0;
    assert(hex@.subrange(0, n as int) =~= hex@);
    while k < n && hex.get_char(k) == '#'
        invariant
            k <= n,
            n == hex@.len(),
            strip_start_char(hex@.subrange(k as int, n as int), '#') == strip_start_char(hex@, '#'),
        decreases n - k,
    {
        assert(hex@.subrange(k as int, n as int).drop_first() =~= hex@.subrange(k + 1, n as int));
        k = k + 1;
    }
    assert(hex@.subrange(0, n as int) =~= hex@);
    let r = hex.substring_char(k, n);
    r
}

/// Whether `hex_to_rgb` is defined on `hex`.
pub fn hex_to_rgb_is_defined(hex: &str) -> (r: bool)
    ensures
        r == hex_to_rgb_defined(hex@),
{
    let body = strip_hashes(hex);
    let len = body.as_bytes().len();
    assert(body.spec_bytes() == hex_body(hex@));
    if len == 3 {
        body.is_char_boundary(1) && body.is_char_boundary(2)
    } else if len == 6 {
        body.is_char_boundary(2) && body.is_char_boundary(4)
    } else {
        true
    }
}

/// Parse a hex color (#RRGGBB or #RGB) into (r, g, b) components
pub fn hex_to_rgb(hex: &str) -> (r: (u8, u8, u8))
    requires
        hex_to_rgb_defined(hex@),
    ensures
        r == spec_hex_to_rgb(hex@),
{
    let body = strip_hashes(hex);
    let bytes = body.as_bytes();
    let len = bytes.len();
    if len == 3 {
        (hex_pair(bytes[0], bytes[0]), hex_pair(bytes[1], bytes[1]), hex_pair(bytes[2], bytes[2]))
    } else if len == 6 {
        (hex_pair(bytes[0], bytes[1]), hex_pair(bytes[2], bytes[3]), hex_pair(bytes[4], bytes[5]))
    } else {
        (0, 0, 0)
    }
}

/// `x / 100` rounded to the nearest integer, halves away from zero (as `f64::round` does).
pub open spec fn round_hundredths(x: int) -> int {
    if x >= 0 {
        (x + 50) / 100
    } else {
        -((-x + 50) / 100)
    }
}

/// `x` brought into `0..=255`, as a float-to-`u8` cast saturates.
pub open spec fn clamp_u8(x: int) -> int {
    if x < 0 {
        0
    } else if x > 255 {
        255
    } else {
        x
    }
}

/// One channel of `fg` laid at `alpha_percent`% over `bg`: the exact weighted value,
/// rounded to the nearest integer and brought into `0..=255`.
pub open spec fn blend_channel(f: u8, b: u8, alpha_percent: int) -> int {
    clamp_u8(round_hundredths(f * alpha_percent + b * (100 - alpha_percent)))
}

fn blend_one(f: u8, b: u8, a: i32) -> (r: u8)
    ensures
        r == blend_channel(f, b, a as int),
{
    let ai = a as i64;
    proof {
        assert(-255 * 0x8000_0000 <= f * ai <= 255 * 0x8000_0000) by (nonlinear_arith)
            requires
                0 <= f <= 255,
                -0x8000_0000 <= ai <= 0x8000_0000,
        ;
        assert(-255 * 0x8000_0100 <= b * (100 - ai) <= 255 * 0x8000_0100) by (nonlinear_arith)
            requires
                0 <= b <= 255,
                -0x8000_0000 <= ai <= 0x8000_0000,
        ;
    }
    let x: i64 = f as i64 * ai + b as i64 * (100 - ai);
    let rounded: i64 = if x >= 0 {
        (x + 50) / 100
    } else {
        -((-x + 50) / 100)
    };
    if rounded < 0 {
        0
    } else if rounded > 255 {
        255
    } else {
        rounded as u8
    }
}

/// Blend a foreground color at `alpha_percent`% opacity over a background color
pub fn blend_alpha(fg: (u8, u8, u8), bg: (u8, u8, u8), alpha_percent: i32) -> (r: (u8, u8, u8))
    ensures
        r.0 == blend_channel(fg.0, bg.0, alpha_percent as int),
        r.1 == blend_channel(fg.1, bg.1, alpha_percent as int),
        r.2 == blend_channel(fg.2, bg.2, alpha_percent as int),
{
    (
        blend_one(fg.0, bg.0, alpha_percent),
        blend_one(fg.1, bg.1, alpha_percent),
        blend_one(fg.2, bg.2, alpha_percent),
    )
}

/// At 0% the background shows unchanged, at 100% the foreground; in between the result
/// lies between the two.
pub proof fn lemma_blend_bounds(f: u8, b: u8, alpha_percent: int)
    requires
        0 <= alpha_percent <= 100,
    ensures
        alpha_percent == 0 ==> blend_channel(f, b, alpha_percent) == b,
        alpha_percent == 100 ==> blend_channel(f, b, alpha_percent) == f,
        f <= b ==> f <= blend_channel(f, b, alpha_percent) <= b,
        b <= f ==> b <= blend_channel(f, b, alpha_percent) <= f,
{
    let x = f * alpha_percent + b * (100 - alpha_percent);
    if alpha_percent == 0 {
        assert(x == 100 * b) by (nonlinear_arith)
            requires
                x == f * alpha_percent + b * (100 - alpha_percent),
                alpha_percent == 0,
        ;
    }
    if alpha_percent == 100 {
        assert(x == 100 * f) by (nonlinear_arith)
            requires
                x == f * alpha_percent + b * (100 - alpha_percent),
                alpha_percent == 100,
        ;
    }
    if f <= b {
        assert(x >= 100 * f && x <= 100 * b) by (nonlinear_arith)
            requires
                x == f * alpha_percent + b * (100 - alpha_percent),
                f <= b,
                0 <= alpha_percent <= 100,
        ;
    }
    if b <= f {
        assert(x >= 100 * b && x <= 100 * f) by (nonlinear_arith)
            requires
                x == f * alpha_percent + b * (100 - alpha_percent),
                b <= f,
                0 <= alpha_percent <= 100,
        ;
    }
}

/// The sixteen hexadecimal digits, lower case.
pub open spec fn lower_hex_digits() -> Seq<char> {
    seq!['0', '1', '2', '3', '4', '5', '6', '7', '8', '9', 'a', 'b', 'c', 'd', 'e', 'f']
}

/// The sixteen hexadecimal digits, upper case.
pub open spec fn upper_hex_digits() -> Seq<char> {
    seq!['0', '1', '2', '3', '4', '5', '6', '7', '8', '9', 'A', 'B', 'C', 'D', 'E', 'F']
}

/// Every hexadecimal digit, in either case, has its value, and no other byte is a digit.
pub proof fn lemma_hex_digit_values(v: int, b: u8)
    requires
        0 <= v < 16,
    ensures
        hex_digit_value(lower_hex_digits()[v] as u8) == Some(v),
        hex_digit_value(upper_hex_digits()[v] as u8) == Some(v),
        (forall|k: int| 0 <= k < 16 ==> b != lower_hex_digits()[k] as u8 && b != upper_hex_digits()[k] as u8)
            ==> hex_digit_value(b) is None,
{
    assert(lower_hex_digits()[v] as u8 == if v < 10 { 48 + v } else { 87 + v });
    assert(upper_hex_digits()[v] as u8 == if v < 10 { 48 + v } else { 55 + v });
    if forall|k: int| 0 <= k < 16 ==> b != lower_hex_digits()[k] as u8 && b != upper_hex_digits()[k] as u8 {
        if 48 <= b <= 57 {
            assert(b == lower_hex_digits()[b - 48] as u8);
        } else if 97 <= b <= 102 {
            assert(b == lower_hex_digits()[b - 87] as u8);
        } else if 65 <= b <= 70 {
            assert(b == upper_hex_digits()[b - 55] as u8);
        }
    }
}

/// A six-digit color `#RRGGBB` (digits of either case) gives the three byte values
/// `16 * R1 + R2`, `16 * G1 + G2`, `16 * B1 + B2`.
pub proof fn lemma_six_digit_color(v: Seq<int>, upper: Seq<bool>)
    requires
        v.len() == 6,
        upper.len() == 6,
        forall|k: int| 0 <= k < 6 ==> 0 <= #[trigger] v[k] < 16,
    ensures
        ({
            let d = Seq::new(
                6,
                |k: int|
                    if upper[k] {
                        upper_hex_digits()[v[k]]
                    } else {
                        lower_hex_digits()[v[k]]
                    },
            );
            let hex = seq!['#'] + d;
            &&& hex_to_rgb_defined(hex)
            &&& spec_hex_to_rgb(hex) == (
                (16 * v[0] + v[1]) as u8,
                (16 * v[2] + v[3]) as u8,
                (16 * v[4] + v[5]) as u8,
            )
        }),
{
    let d = Seq::new(
        6,
        |k: int|
            if upper[k] {
                upper_hex_digits()[v[k]]
            } else {
                lower_hex_digits()[v[k]]
            },
    );
    let hex = seq!['#'] + d;
    assert forall|k: int| 0 <= k < 6 implies hex_digit_value(#[trigger] d[k] as u8) == Some(v[k])
        && d[k] != '#' && d[k] != '+' && '\0' <= d[k] <= '\u{7f}' by {
        lemma_hex_digit_values(v[k], 0);
    }
    assert(hex.drop_first() =~= d);
    assert(strip_start_char(hex, '#') == strip_start_char(d, '#'));
    assert(strip_start_char(d, '#') == d);
    assert(vstd::utf8::is_ascii_chars(d));
    vstd::utf8::is_ascii_chars_encode_utf8(d);
    lemma_ascii_boundaries(d);
    let e = encode_utf8(d);
    assert(e.len() == 6);
    assert forall|k: int| 0 <= k < 6 implies #[trigger] e[k] == d[k] as u8 by {}
    assert(hex_digit_value(e[0]) == Some(v[0]) && e[0] != 43);
    assert(hex_digit_value(e[1]) == Some(v[1]));
    assert(hex_digit_value(e[2]) == Some(v[2]) && e[2] != 43);
    assert(hex_digit_value(e[3]) == Some(v[3]));
    assert(hex_digit_value(e[4]) == Some(v[4]) && e[4] != 43);
    assert(hex_digit_value(e[5]) == Some(v[5]));
}

/// Whether `c` is an ASCII hexadecimal digit.
pub open spec fn is_hex_digit_char(c: char) -> bool {
    ('0' <= c && c <= '9') || ('a' <= c && c <= 'f') || ('A' <= c && c <= 'F')
}

/// The short form `#RGB` stands for `#RRGGBB`.
pub proof fn lemma_short_hex_doubles_digits(r: char, g: char, b: char)
    requires
        is_hex_digit_char(r),
        is_hex_digit_char(g),
        is_hex_digit_char(b),
    ensures
        hex_to_rgb_defined(seq!['#', r, g, b]),
        hex_to_rgb_defined(seq!['#', r, r, g, g, b, b]),
        spec_hex_to_rgb(seq!['#', r, g, b]) == spec_hex_to_rgb(seq!['#', r, r, g, g, b, b]),
{
    let short = seq!['#', r, g, b];
    let long = seq!['#', r, r, g, g, b, b];
    assert(strip_start_char(short, '#') == strip_start_char(short.drop_first(), '#'));
    assert(short.drop_first() =~= seq![r, g, b]);
    assert(strip_start_char(seq![r, g, b], '#') == seq![r, g, b]);
    assert(strip_start_char(long, '#') == strip_start_char(long.drop_first(), '#'));
    assert(long.drop_first() =~= seq![r, r, g, g, b, b]);
    assert(strip_start_char(seq![r, r, g, g, b, b], '#') == seq![r, r, g, g, b, b]);
    let s3 = seq![r, g, b];
    let s6 = seq![r, r, g, g, b, b];
    assert(vstd::utf8::is_ascii_chars(s3));
    assert(vstd::utf8::is_ascii_chars(s6));
    vstd::utf8::is_ascii_chars_encode_utf8(s3);
    vstd::utf8::is_ascii_chars_encode_utf8(s6);
    let e3 = encode_utf8(s3);
    let e6 = encode_utf8(s6);
    assert(e3.len() == 3 && e3[0] == r as u8 && e3[1] == g as u8 && e3[2] == b as u8);
    assert(e6.len() == 6 && e6[0] == r as u8 && e6[1] == r as u8 && e6[2] == g as u8);
    assert(e6[3] == g as u8 && e6[4] == b as u8 && e6[5] == b as u8);
    lemma_ascii_boundaries(s3);
    lemma_ascii_boundaries(s6);
}

/// In the UTF-8 text of ASCII characters every byte index is a character boundary.
pub proof fn lemma_ascii_boundaries(s: Seq<char>)
    requires
        vstd::utf8::is_ascii_chars(s),
    ensures
        forall|i: int| 0 <= i <= s.len() ==> is_char_boundary(encode_utf8(s), i),
    decreases s.len(),
{
    broadcast use vstd::utf8::encode_utf8_valid_utf8;

    vstd::utf8::is_ascii_chars_encode_utf8(s);
    let bytes = encode_utf8(s);
    if s.len() > 0 {
        let rest = s.drop_first();
        assert(vstd::utf8::is_ascii_chars(rest));
        lemma_ascii_boundaries(rest);
        vstd::utf8::is_ascii_chars_encode_utf8(rest);
        vstd::utf8::encode_utf8_first_scalar(s);
        assert(bytes[0] == s[0] as u8);
        assert(vstd::utf8::length_of_first_scalar(bytes) == 1);
        assert(vstd::utf8::pop_first_scalar(bytes) =~= encode_utf8(rest)) by {
            assert forall|k: int| 0 <= k < encode_utf8(rest).len() implies vstd::utf8::pop_first_scalar(
                bytes,
            )[k] == encode_utf8(rest)[k] by {
                assert(bytes[k + 1] == s[k + 1] as u8);
                assert(rest[k] == s[k + 1]);
            }
        }
        assert forall|i: int| 0 <= i <= s.len() implies is_char_boundary(bytes, i) by {
            if i > 0 {
                assert(is_char_boundary(encode_utf8(rest), i - 1));
            }
        }
    }
}

/// Opacity percentage of the highlight laid over an active row.
pub open spec fn active_alpha_percent() -> int {
    12
}

/// The stylesheet built from the colors `fg` and `bg`, the opacity text `opacity`, the
/// font, the row background `inactive` and the active row background `active`.
pub open spec fn css_text(
    fg: Seq<char>,
    bg: Seq<char>,
    opacity: Seq<char>,
    font_family: Seq<char>,
    font_size: int,
    inactive: (u8, u8, u8),
    active: (u8, u8, u8),
) -> Seq<char> {
    "window {\n  background-color: alpha("@ + bg + ", "@ + opacity + ");\n  border: 1px solid alpha("@
        + fg + ", 0.15);\n}\n.window-row {\n  color: "@ + fg
        + ";\n}\n.window-row.active {\n  background-color: alpha("@ + fg
        + ", 0.12);\n}\n.window-title {\n  color: "@ + fg + ";\n  font-family: '"@ + font_family
        + "';\n  font-size: "@ + signed_decimal(font_size)
        + "px;\n}\n.window-row .fade-left {\n  background: linear-gradient(to right, rgba("@
        + decimal(inactive.0 as nat) + ","@ + decimal(inactive.1 as nat) + ","@ + decimal(
        inactive.2 as nat,
    ) + ","@ + opacity
        + "), transparent);\n}\n.window-row .fade-right {\n  background: linear-gradient(to left, rgba("@
        + decimal(inactive.0 as nat) + ","@ + decimal(inactive.1 as nat) + ","@ + decimal(
        inactive.2 as nat,
    ) + ","@ + opacity
        + "), transparent);\n}\n.window-row.active .fade-left {\n  background: linear-gradient(to right, rgba("@
        + decimal(active.0 as nat) + ","@ + decimal(active.1 as nat) + ","@ + decimal(
        active.2 as nat,
    ) + ","@ + opacity
        + "), transparent);\n}\n.window-row.active .fade-right {\n  background: linear-gradient(to left, rgba("@
        + decimal(active.0 as nat) + ","@ + decimal(active.1 as nat) + ","@ + decimal(
        active.2 as nat,
    ) + ","@ + opacity + "), transparent);\n}\n"@
}

/// The active row background: the foreground at 12% over the background.
pub open spec fn active_background(fg: (u8, u8, u8), bg: (u8, u8, u8)) -> (u8, u8, u8) {
    (
        blend_channel(fg.0, bg.0, active_alpha_percent()) as u8,
        blend_channel(fg.1, bg.1, active_alpha_percent()) as u8,
        blend_channel(fg.2, bg.2, active_alpha_percent()) as u8,
    )
}

fn append_rgba(s: &mut String, c: (u8, u8, u8), opacity: &str)
    ensures
        final(s)@ == old(s)@ + decimal(c.0 as nat) + ","@ + decimal(c.1 as nat) + ","@ + decimal(
            c.2 as nat,
        ) + ","@ + opacity@,
{
    append_decimal(s, c.0 as u32);
    s.append(",");
    append_decimal(s, c.1 as u32);
    s.append(",");
    append_decimal(s, c.2 as u32);
    s.append(",");
    s.append(opacity);
}

/// Generate dynamic CSS using theme colors and config
pub fn generate_css(colors: &ThemeColors, config: &Config) -> (r: String)
    requires
        hex_to_rgb_defined(colors.foreground@),
        hex_to_rgb_defined(colors.background@),
    ensures
        r@ == css_text(
            colors.foreground@,
            colors.background@,
            config.opacity@,
            config.font_family@,
            config.font_size as int,
            spec_hex_to_rgb(colors.background@),
            active_background(
                spec_hex_to_rgb(colors.foreground@),
                spec_hex_to_rgb(colors.background@),
            ),
        ),
{
    let fg = colors.foreground.as_str();
    let bg = colors.background.as_str();
    let opacity = config.opacity.as_str();
    let bg_rgb = hex_to_rgb(bg);
    let fg_rgb = hex_to_rgb(fg);
    let inactive_bg = bg_rgb;
    let active_bg = blend_alpha(fg_rgb, bg_rgb, 12);
    let mut s = String::from_str("window {\n  background-color: alpha(");
    s.append(bg);
    s.append(", ");
    s.append(opacity);
    s.append(");\n  border: 1px solid alpha(");
    s.append(fg);
    s.append(", 0.15);\n}\n.window-row {\n  color: ");
    s.append(fg);
    s.append(";\n}\n.window-row.active {\n  background-color: alpha(");
    s.append(fg);
    s.append(", 0.12);\n}\n.window-title {\n  color: ");
    s.append(fg);
    s.append(";\n  font-family: '");
    s.append(config.font_family.as_str());
    s.append("';\n  font-size: ");
    append_signed_decimal(&mut s, config.font_size);
    s.append("px;\n}\n.window-row .fade-left {\n  background: linear-gradient(to right, rgba(");
    append_rgba(&mut s, inactive_bg, opacity);
    s.append("), transparent);\n}\n.window-row .fade-right {\n  background: linear-gradient(to left, rgba(");
    append_rgba(&mut s, inactive_bg, opacity);
    s.append("), transparent);\n}\n.window-row.active .fade-left {\n  background: linear-gradient(to right, rgba(");
    append_rgba(&mut s, active_bg, opacity);
    s.append("), transparent);\n}\n.window-row.active .fade-right {\n  background: linear-gradient(to left, rgba(");
    append_rgba(&mut s, active_bg, opacity);
    s.append("), transparent);\n}\n");
    s
}

} // verus!
