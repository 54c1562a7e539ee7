//! Hotkey bindings: parsing a textual binding such as `"Ctrl+K, Mouse4"` into a
//! chord sequence, its canonical spelling, and the matcher that recognises the
//! sequence in a stream of key and mouse events.
use vstd::prelude::*;

use crate::text::{
    chars_of, eq_str, lower, lower_chars, lower_char, pieces_view, push_str, split, split_chars,
    to_string, trim, trim_chars, upper_char,
};

verus! {

#[derive(Debug, Clone, Copy, PartialEq, Eq, Hash, Structural)]
pub enum MouseButtonToken {
    Left,
    Right,
    Middle,
    Button4,
    Button5,
}

#[derive(Debug, Clone, Copy, PartialEq, Eq, Hash, Structural)]
pub enum KeyToken {
    Backquote,
    Space,
    Enter,
    Tab,
    Escape,
    Char(char),
    Function(u8),
}

#[derive(Debug, Clone, Copy, PartialEq, Eq, Hash, Structural)]
pub enum TriggerInput {
    Key(KeyToken),
    Mouse(MouseButtonToken),
}

#[derive(Debug, Clone, Copy, PartialEq, Eq, Hash, Structural)]
pub struct Modifiers {
    pub ctrl: bool,
    pub shift: bool,
    pub alt: bool,
    pub meta: bool,
}

/// No modifier held.
pub open spec fn no_modifiers() -> Modifiers {
    Modifiers { ctrl: false, shift: false, alt: false, meta: false }
}

impl Default for Modifiers {
    fn default() -> (m: Self)
        ensures
            m == no_modifiers(),
    {
        Modifiers { ctrl: false, shift: false, alt: false, meta: false }
    }
}

#[derive(Debug, Clone, Copy, PartialEq, Eq, Hash, Structural)]
pub struct HotkeyStep {
    pub modifiers: Modifiers,
    pub trigger: TriggerInput,
}

#[derive(Debug, Clone)]
pub struct ParsedHotkey {
    pub normalized: String,
    pub sequence: Vec<HotkeyStep>,
}

impl ParsedHotkey {
    /// The canonical text and the chord sequence.
    pub open spec fn spec_view(&self) -> (Seq<char>, Seq<HotkeyStep>) {
        (self.normalized@, self.sequence@)
    }
}

// ---------------------------------------------------------------------------
// What a token means
// ---------------------------------------------------------------------------

/// All characters are decimal digits.
pub open spec fn all_digits(d: Seq<char>) -> bool {
    forall|i: int| 0 <= i < d.len() ==> '0' <= #[trigger] d[i] && d[i] <= '9'
}

/// The number that a string of decimal digits spells.
pub open spec fn digits_value(d: Seq<char>) -> nat
    decreases d.len(),
{
    if d.len() == 0 {
        0
    } else {
        digits_value(d.drop_last()) * 10 + ((d.last() as nat) - ('0' as nat)) as nat
    }
}

/// `str::parse::<u8>`: an optional `+`, then one or more decimal digits whose value
/// fits in a byte.
pub open spec fn parse_u8(s: Seq<char>) -> Option<u8> {
    let d = if s.len() > 0 && s[0] == '+' {
        s.drop_first()
    } else {
        s
    };
    if d.len() > 0 && all_digits(d) && digits_value(d) <= 255 {
        Some(digits_value(d) as u8)
    } else {
        None
    }
}

/// The keyboard key that a token names, compared case-insensitively after trimming:
/// `` ` ``/`backquote`/`grave`, `space`, `tab`, `enter`/`return`, `escape`/`esc`,
/// `f1` to `f24`, or any other single ASCII character. A token that starts with `f`
/// and does not continue with a byte-sized number names no key.
pub open spec fn spec_key_token(token: Seq<char>) -> Option<KeyToken> {
    let l = lower(trim(token));
    if l == "`"@ || l == "backquote"@ || l == "grave"@ {
        Some(KeyToken::Backquote)
    } else if l == "space"@ {
        Some(KeyToken::Space)
    } else if l == "tab"@ {
        Some(KeyToken::Tab)
    } else if l == "enter"@ || l == "return"@ {
        Some(KeyToken::Enter)
    } else if l == "escape"@ || l == "esc"@ {
        Some(KeyToken::Escape)
    } else if l.len() > 0 && l[0] == 'f' {
        match parse_u8(l.drop_first()) {
            None => None,
            Some(n) => if 1 <= n && n <= 24 {
                Some(KeyToken::Function(n))
            } else {
                None
            },
        }
    } else if l.len() == 1 && (l[0] as u32) < 128 {
        Some(KeyToken::Char(l[0]))
    } else {
        None
    }
}

/// The mouse button that a token names, compared case-insensitively after trimming.
pub open spec fn spec_mouse_token(token: Seq<char>) -> Option<MouseButtonToken> {
    let l = lower(trim(token));
    if l == "mouseleft"@ || l == "leftmouse"@ || l == "mouse1"@ {
        Some(MouseButtonToken::Left)
    } else if l == "mouseright"@ || l == "rightmouse"@ || l == "mouse2"@ {
        Some(MouseButtonToken::Right)
    } else if l == "mousemiddle"@ || l == "middlemouse"@ || l == "mouse3"@ {
        Some(MouseButtonToken::Middle)
    } else if l == "mouse4"@ || l == "x1"@ {
        Some(MouseButtonToken::Button4)
    } else if l == "mouse5"@ || l == "x2"@ {
        Some(MouseButtonToken::Button5)
    } else {
        None
    }
}

/// The modifiers after a lower-cased token, if the token names a modifier.
pub open spec fn spec_modifier(m: Modifiers, l: Seq<char>) -> Option<Modifiers> {
    if l == "ctrl"@ || l == "control"@ {
        Some(Modifiers { ctrl: true, ..m })
    } else if l == "shift"@ {
        Some(Modifiers { shift: true, ..m })
    } else if l == "alt"@ || l == "option"@ {
        Some(Modifiers { alt: true, ..m })
    } else if l == "meta"@ || l == "cmd"@ || l == "command"@ || l == "win"@ || l == "super"@ {
        Some(Modifiers { meta: true, ..m })
    } else {
        None
    }
}

/// The trigger that a token names: a key first, else a mouse button.
pub open spec fn spec_trigger(t: Seq<char>) -> Option<TriggerInput> {
    match spec_key_token(t) {
        Some(k) => Some(TriggerInput::Key(k)),
        None => match spec_mouse_token(t) {
            Some(b) => Some(TriggerInput::Mouse(b)),
            None => None,
        },
    }
}

/// What one `+`-separated part of a chord step does to the modifiers and trigger
/// gathered so far.
pub open spec fn spec_part(
    st: (Modifiers, Option<TriggerInput>),
    part: Seq<char>,
) -> Result<(Modifiers, Option<TriggerInput>), Seq<char>> {
    let t = trim(part);
    if t.len() == 0 {
        Err("hotkey has empty token"@)
    } else {
        match spec_modifier(st.0, lower(t)) {
            Some(m) => Ok((m, st.1)),
            None => match spec_trigger(t) {
                None => Err("unsupported token '"@ + t + "' in hotkey"@),
                Some(tr) => if st.1 is Some {
                    Err("each hotkey step can only have one trigger key/button"@)
                } else {
                    Ok((st.0, Some(tr)))
                },
            },
        }
    }
}

/// The parts `parts[i..]` applied in order, the first error winning.
pub open spec fn spec_parts_from(
    parts: Seq<Seq<char>>,
    i: int,
    st: (Modifiers, Option<TriggerInput>),
) -> Result<(Modifiers, Option<TriggerInput>), Seq<char>>
    decreases parts.len() - i,
{
    if i < 0 || i >= parts.len() {
        Ok(st)
    } else {
        match spec_part(st, parts[i]) {
            Err(e) => Err(e),
            Ok(st2) => spec_parts_from(parts, i + 1, st2),
        }
    }
}

/// One chord step: trimmed, split on `+`, one trigger and any modifiers.
pub open spec fn spec_parse_step(raw: Seq<char>) -> Result<HotkeyStep, Seq<char>> {
    let r = trim(raw);
    if r.len() == 0 {
        Err("hotkey contains an empty chord step"@)
    } else {
        match spec_parts_from(split(r, '+'), 0, (no_modifiers(), None)) {
            Err(e) => Err(e),
            Ok((m, None)) => Err("hotkey step is missing trigger key/button"@),
            Ok((m, Some(t))) => Ok(HotkeyStep { modifiers: m, trigger: t }),
        }
    }
}

/// The steps `raw[i..]` parsed in order after the already parsed `acc`.
pub open spec fn spec_steps_from(raw: Seq<Seq<char>>, i: int, acc: Seq<HotkeyStep>) -> Result<
    Seq<HotkeyStep>,
    Seq<char>,
>
    decreases raw.len() - i,
{
    if i < 0 || i >= raw.len() {
        Ok(acc)
    } else {
        match spec_parse_step(raw[i]) {
            Err(e) => Err(e),
            Ok(step) => spec_steps_from(raw, i + 1, acc.push(step)),
        }
    }
}

// ---------------------------------------------------------------------------
// Canonical spelling
// ---------------------------------------------------------------------------

/// The decimal digits of a number.
pub open spec fn decimal(n: nat) -> Seq<char>
    decreases n,
{
    if n < 10 {
        seq![(('0' as nat) + n) as char]
    } else {
        decimal(n / 10).push((('0' as nat) + n % 10) as char)
    }
}

/// The canonical name of a trigger.
pub open spec fn trigger_text(t: TriggerInput) -> Seq<char> {
    match t {
        TriggerInput::Key(KeyToken::Backquote) => "`"@,
        TriggerInput::Key(KeyToken::Space) => "Space"@,
        TriggerInput::Key(KeyToken::Enter) => "Enter"@,
        TriggerInput::Key(KeyToken::Tab) => "Tab"@,
        TriggerInput::Key(KeyToken::Escape) => "Escape"@,
        TriggerInput::Key(KeyToken::Char(c)) => seq![upper_char(c)],
        TriggerInput::Key(KeyToken::Function(n)) => "F"@ + decimal(n as nat),
        TriggerInput::Mouse(MouseButtonToken::Left) => "MouseLeft"@,
        TriggerInput::Mouse(MouseButtonToken::Right) => "MouseRight"@,
        TriggerInput::Mouse(MouseButtonToken::Middle) => "MouseMiddle"@,
        TriggerInput::Mouse(MouseButtonToken::Button4) => "Mouse4"@,
        TriggerInput::Mouse(MouseButtonToken::Button5) => "Mouse5"@,
    }
}

/// The names of the held modifiers in the order Ctrl, Shift, Alt, Meta, each followed
/// by `+`.
pub open spec fn modifiers_text(m: Modifiers) -> Seq<char> {
    (if m.ctrl {
        "Ctrl+"@
    } else {
        Seq::empty()
    }) + (if m.shift {
        "Shift+"@
    } else {
        Seq::empty()
    }) + (if m.alt {
        "Alt+"@
    } else {
        Seq::empty()
    }) + (if m.meta {
        "Meta+"@
    } else {
        Seq::empty()
    })
}

/// The canonical text of one step: the held modifiers, then the trigger, joined by `+`.
pub open spec fn step_text(s: HotkeyStep) -> Seq<char> {
    modifiers_text(s.modifiers) + trigger_text(s.trigger)
}

/// The canonical texts of the steps joined by `", "`.
pub open spec fn join_steps(steps: Seq<HotkeyStep>) -> Seq<char>
    decreases steps.len(),
{
    if steps.len() == 0 {
        Seq::empty()
    } else if steps.len() == 1 {
        step_text(steps[0])
    } else {
        join_steps(steps.drop_last()) + ", "@ + step_text(steps.last())
    }
}

/// The result of parsing a binding: its comma-separated steps in order, each of which
/// must parse, the first failure being reported; on success the canonical text of the
/// steps and the steps.
pub open spec fn spec_parse_hotkey(input: Seq<char>) -> Result<(Seq<char>, Seq<HotkeyStep>), Seq<char>> {
    match spec_steps_from(split(input, ','), 0, Seq::empty()) {
        Err(e) => Err(e),
        Ok(steps) => if steps.len() == 0 {
            Err("hotkey cannot be empty"@)
        } else {
            Ok((join_steps(steps), steps))
        },
    }
}

} // verus!

verus! {

// ---------------------------------------------------------------------------
// Parsing
// ---------------------------------------------------------------------------

proof fn lemma_digits_value_grows(d: Seq<char>, k: int)
    requires
        0 <= k <= d.len(),
        all_digits(d),
    ensures
        digits_value(d) >= digits_value(d.take(k)),
    decreases d.len(),
{
    if k < d.len() {
        assert(d.drop_last().take(k) =~= d.take(k));
        assert(all_digits(d.drop_last())) by {
            assert forall|i: int| 0 <= i < d.drop_last().len() implies '0' <= #[trigger] d.drop_last()[i]
                && d.drop_last()[i] <= '9' by {
                assert(d.drop_last()[i] == d[i]);
            }
        }
        lemma_digits_value_grows(d.drop_last(), k);
        assert('0' <= d[d.len() - 1]);
    } else {
        assert(d.take(k) =~= d);
    }
}

/// `str::parse::<u8>` on characters.
fn parse_u8_chars(s: &Vec<char>) -> (r: Option<u8>)
    ensures
        r == parse_u8(s@),
{
    let n = s.len();
    let start: usize = if n > 0 && s[0] == '+' {
        1
    } else {
        0
    };
    let ghost d = if s@.len() > 0 && s@[0] == '+' {
        s@.drop_first()
    } else {
        s@
    };
    assert(d =~= s@.subrange(start as int, n as int));
    if start >= n {
        return None;
    }
    let mut value: u32 = 0;
    let mut i: usize = start;
    assert(d.take(0) =~= Seq::<char>::empty());
    while i < n
        invariant
            start <= i <= n == s.len(),
            start < n,
            d =~= s@.subrange(start as int, n as int),
            d == (if s@.len() > 0 && s@[0] == '+' {
                s@.drop_first()
            } else {
                s@
            }),
            value <= 255,
            value == digits_value(d.take(i - start)),
            all_digits(d.take(i - start)),
        decreases n - i,
    {
        let c = s[i];
        assert(d[i - start] == c);
        if c < '0' || c > '9' {
            assert(!all_digits(d)) by {
                assert(!('0' <= d[i - start] && d[i - start] <= '9'));
            }
            return None;
        }
        let dig: u32 = (c as u32) - ('0' as u32);
        value = value * 10 + dig;
        assert(d.take(i - start + 1).drop_last() =~= d.take(i - start));
        assert(d.take(i - start + 1).last() == c);
        assert(all_digits(d.take(i - start + 1))) by {
            assert forall|k: int| 0 <= k < d.take(i - start + 1).len() implies '0'
                <= #[trigger] d.take(i - start + 1)[k] && d.take(i - start + 1)[k] <= '9' by {
                if k < i - start {
                    assert(d.take(i - start + 1)[k] == d.take(i - start)[k]);
                }
            }
        }
        assert(value == digits_value(d.take(i - start + 1)));
        if value > 255 {
            proof {
                if all_digits(d) {
                    lemma_digits_value_grows(d, i - start + 1);
                }
            }
            return None;
        }
        i += 1;
    }
    assert(d.take(n - start) =~= d);
    Some(value as u8)
}

fn parse_key_token(token: &Vec<char>) -> (r: Option<KeyToken>)
    ensures
        r == spec_key_token(token@),
{
    let t = trim_chars(token);
    let l = lower_chars(&t);
    if eq_str(&l, "`") || eq_str(&l, "backquote") || eq_str(&l, "grave") {
        Some(KeyToken::Backquote)
    } else if eq_str(&l, "space") {
        Some(KeyToken::Space)
    } else if eq_str(&l, "tab") {
        Some(KeyToken::Tab)
    } else if eq_str(&l, "enter") || eq_str(&l, "return") {
        Some(KeyToken::Enter)
    } else if eq_str(&l, "escape") || eq_str(&l, "esc") {
        Some(KeyToken::Escape)
    } else if l.len() > 0 && l[0] == 'f' {
        let rest = crate::text::copy_range(&l, 1, l.len());
        assert(rest@ =~= l@.drop_first());
        match parse_u8_chars(&rest) {
            None => None,
            Some(n) => if 1 <= n && n <= 24 {
                Some(KeyToken::Function(n))
            } else {
                None
            },
        }
    } else if l.len() == 1 && (l[0] as u32) < 128 {
        Some(KeyToken::Char(l[0]))
    } else {
        None
    }
}

fn parse_mouse_token(token: &Vec<char>) -> (r: Option<MouseButtonToken>)
    ensures
        r == spec_mouse_token(token@),
{
    let t = trim_chars(token);
    let l = lower_chars(&t);
    if eq_str(&l, "mouseleft") || eq_str(&l, "leftmouse") || eq_str(&l, "mouse1") {
        Some(MouseButtonToken::Left)
    } else if eq_str(&l, "mouseright") || eq_str(&l, "rightmouse") || eq_str(&l, "mouse2") {
        Some(MouseButtonToken::Right)
    } else if eq_str(&l, "mousemiddle") || eq_str(&l, "middlemouse") || eq_str(&l, "mouse3") {
        Some(MouseButtonToken::Middle)
    } else if eq_str(&l, "mouse4") || eq_str(&l, "x1") {
        Some(MouseButtonToken::Button4)
    } else if eq_str(&l, "mouse5") || eq_str(&l, "x2") {
        Some(MouseButtonToken::Button5)
    } else {
        None
    }
}

fn apply_modifier(m: Modifiers, l: &Vec<char>) -> (r: Option<Modifiers>)
    ensures
        r == spec_modifier(m, l@),
{
    if eq_str(l, "ctrl") || eq_str(l, "control") {
        Some(Modifiers { ctrl: true, ..m })
    } else if eq_str(l, "shift") {
        Some(Modifiers { shift: true, ..m })
    } else if eq_str(l, "alt") || eq_str(l, "option") {
        Some(Modifiers { alt: true, ..m })
    } else if eq_str(l, "meta") || eq_str(l, "cmd") || eq_str(l, "command") || eq_str(l, "win")
        || eq_str(l, "super") {
        Some(Modifiers { meta: true, ..m })
    } else {
        None
    }
}

fn parse_step(raw: &Vec<char>) -> (r: Result<HotkeyStep, String>)
    ensures
        match r {
            Ok(step) => spec_parse_step(raw@) == Ok::<HotkeyStep, Seq<char>>(step),
            Err(e) => spec_parse_step(raw@) == Err::<HotkeyStep, Seq<char>>(e@),
        },
{
    let r = trim_chars(raw);
    if r.len() == 0 {
        return Err(crate::text::string_from("hotkey contains an empty chord step"));
    }
    let parts = split_chars(&r, '+');
    let ghost pv = pieces_view(parts@);
    let mut mods = Modifiers::default();
    let mut trigger: Option<TriggerInput> = None;
    let n = parts.len();
    let mut i: usize = 0;
    while i < n
        invariant
            n == parts.len(),
            pv == pieces_view(parts@),
            pv == split(trim(raw@), '+'),
            trim(raw@).len() > 0,
            i <= n,
            spec_parts_from(pv, 0, (no_modifiers(), None)) == spec_parts_from(
                pv,
                i as int,
                (mods, trigger),
            ),
        decreases n - i,
    {
        assert(pv[i as int] == parts@[i as int]@);
        let t = trim_chars(&parts[i]);
        if t.len() == 0 {
            return Err(crate::text::string_from("hotkey has empty token"));
        }
        let l = lower_chars(&t);
        match apply_modifier(mods, &l) {
            Some(m2) => {
                mods = m2;
            },
            None => {
                let next = match parse_key_token(&t) {
                    Some(k) => Some(TriggerInput::Key(k)),
                    None => match parse_mouse_token(&t) {
                        Some(b) => Some(TriggerInput::Mouse(b)),
                        None => None,
                    },
                };
                match next {
                    None => {
                        let mut msg: Vec<char> = Vec::new();
                        push_str(&mut msg, "unsupported token '");
                        crate::text::push_chars(&mut msg, &t);
                        push_str(&mut msg, "' in hotkey");
                        return Err(to_string(&msg));
                    },
                    Some(tr) => {
                        if trigger.is_some() {
                            return Err(
                                crate::text::string_from(
                                    "each hotkey step can only have one trigger key/button",
                                ),
                            );
                        }
                        trigger = Some(tr);
                    },
                }
            },
        }
        i += 1;
    }
    match trigger {
        None => Err(crate::text::string_from("hotkey step is missing trigger key/button")),
        Some(t) => Ok(HotkeyStep { modifiers: mods, trigger: t }),
    }
}

} // verus!

verus! {

// ---------------------------------------------------------------------------
// Canonical spelling
// ---------------------------------------------------------------------------

fn digit_char(k: u8) -> (c: char)
    requires
        k < 10,
    ensures
        c == (('0' as nat) + k) as char,
{
    (48u8 + k) as char
}

/// Appends the decimal digits of a byte.
fn push_decimal(v: &mut Vec<char>, n: u8)
    ensures
        final(v)@ == old(v)@ + decimal(n as nat),
{
    if n >= 100 {
        v.push(digit_char(n / 100));
        v.push(digit_char((n / 10) % 10));
        v.push(digit_char(n % 10));
        assert(decimal(n as nat) == decimal((n / 10) as nat).push((('0' as nat) + n % 10) as char));
        assert(decimal((n / 10) as nat) == decimal((n / 100) as nat).push(
            (('0' as nat) + (n / 10) % 10) as char,
        ));
        assert(decimal((n / 100) as nat) == seq![(('0' as nat) + n / 100) as char]);
        assert(final(v)@ =~= old(v)@ + decimal(n as nat));
    } else if n >= 10 {
        v.push(digit_char(n / 10));
        v.push(digit_char(n % 10));
        assert(decimal(n as nat) == decimal((n / 10) as nat).push((('0' as nat) + n % 10) as char));
        assert(decimal((n / 10) as nat) == seq![(('0' as nat) + n / 10) as char]);
        assert(final(v)@ =~= old(v)@ + decimal(n as nat));
    } else {
        v.push(digit_char(n));
        assert(final(v)@ =~= old(v)@ + decimal(n as nat));
    }
}

fn upper_char_exec(c: char) -> (r: char)
    ensures
        r == upper_char(c),
{
    if 'a' <= c && c <= 'z' {
        let u: u8 = (c as u8) - 32;
        u as char
    } else {
        c
    }
}

fn push_modifiers_text(v: &mut Vec<char>, m: Modifiers)
    ensures
        final(v)@ == old(v)@ + modifiers_text(m),
{
    let ghost start = v@;
    if m.ctrl {
        push_str(v, "Ctrl+");
    }
    let ghost a = v@;
    if m.shift {
        push_str(v, "Shift+");
    }
    let ghost b = v@;
    if m.alt {
        push_str(v, "Alt+");
    }
    let ghost c = v@;
    if m.meta {
        push_str(v, "Meta+");
    }
    assert(v@ =~= start + modifiers_text(m));
}

fn push_trigger_text(v: &mut Vec<char>, t: TriggerInput)
    ensures
        final(v)@ == old(v)@ + trigger_text(t),
{
    let ghost start = v@;
    match t {
        TriggerInput::Key(KeyToken::Backquote) => push_str(v, "`"),
        TriggerInput::Key(KeyToken::Space) => push_str(v, "Space"),
        TriggerInput::Key(KeyToken::Enter) => push_str(v, "Enter"),
        TriggerInput::Key(KeyToken::Tab) => push_str(v, "Tab"),
        TriggerInput::Key(KeyToken::Escape) => push_str(v, "Escape"),
        TriggerInput::Key(KeyToken::Char(c)) => {
            let u = upper_char_exec(c);
            v.push(u);
            assert(v@ =~= start + seq![upper_char(c)]);
        },
        TriggerInput::Key(KeyToken::Function(n)) => {
            push_str(v, "F");
            push_decimal(v, n);
            assert(v@ =~= start + ("F"@ + decimal(n as nat)));
        },
        TriggerInput::Mouse(MouseButtonToken::Left) => push_str(v, "MouseLeft"),
        TriggerInput::Mouse(MouseButtonToken::Right) => push_str(v, "MouseRight"),
        TriggerInput::Mouse(MouseButtonToken::Middle) => push_str(v, "MouseMiddle"),
        TriggerInput::Mouse(MouseButtonToken::Button4) => push_str(v, "Mouse4"),
        TriggerInput::Mouse(MouseButtonToken::Button5) => push_str(v, "Mouse5"),
    }
}

/// Appends the canonical text of a step.
fn push_step_text(v: &mut Vec<char>, step: &HotkeyStep)
    ensures
        final(v)@ == old(v)@ + step_text(*step),
{
    let ghost start = v@;
    push_modifiers_text(v, step.modifiers);
    push_trigger_text(v, step.trigger);
    assert(v@ =~= start + step_text(*step));
}

/// The canonical text of a step.
fn normalize_step(step: &HotkeyStep) -> (r: String)
    ensures
        r@ == step_text(*step),
{
    let mut v: Vec<char> = Vec::new();
    push_step_text(&mut v, step);
    assert(v@ =~= step_text(*step));
    to_string(&v)
}

/// The canonical texts of the steps joined by `", "`.
fn normalize_sequence(steps: &Vec<HotkeyStep>) -> (r: String)
    ensures
        r@ == join_steps(steps@),
{
    let mut v: Vec<char> = Vec::new();
    let n = steps.len();
    let mut i: usize = 0;
    assert(steps@.take(0) =~= Seq::<HotkeyStep>::empty());
    while i < n
        invariant
            n == steps.len(),
            i <= n,
            v@ == join_steps(steps@.take(i as int)),
        decreases n - i,
    {
        assert(steps@.take(i + 1).drop_last() =~= steps@.take(i as int));
        if i > 0 {
            push_str(&mut v, ", ");
        }
        let ghost before = v@;
        push_step_text(&mut v, &steps[i]);
        proof {
            if i == 0 {
                assert(v@ =~= step_text(steps@[0]));
            } else {
                assert(v@ =~= before + step_text(steps@[i as int]));
            }
        }
        i += 1;
    }
    assert(steps@.take(n as int) =~= steps@);
    to_string(&v)
}

/// Parses a binding such as `"Ctrl+K, Mouse4"`: comma-separated chord steps, each a
/// `+`-separated set of modifiers and exactly one key or mouse button, case-insensitive.
/// On success the result holds the steps and their canonical text; otherwise the error
/// says what is wrong with the first step that fails.
pub fn parse_hotkey_binding(input: &str) -> (r: Result<ParsedHotkey, String>)
    ensures
        match r {
            Ok(p) => spec_parse_hotkey(input@) == Ok::<(Seq<char>, Seq<HotkeyStep>), Seq<char>>(
                p.spec_view(),
            ),
            Err(e) => spec_parse_hotkey(input@) == Err::<(Seq<char>, Seq<HotkeyStep>), Seq<char>>(
                e@,
            ),
        },
{
    let chars = chars_of(input);
    let raw_steps = split_chars(&chars, ',');
    let ghost rv = pieces_view(raw_steps@);
    let mut sequence: Vec<HotkeyStep> = Vec::new();
    let n = raw_steps.len();
    let mut i: usize = 0;
    while i < n
        invariant
            n == raw_steps.len(),
            rv == pieces_view(raw_steps@),
            rv == split(input@, ','),
            i <= n,
            spec_steps_from(rv, 0, Seq::empty()) == spec_steps_from(rv, i as int, sequence@),
        decreases n - i,
    {
        assert(rv[i as int] == raw_steps@[i as int]@);
        match parse_step(&raw_steps[i]) {
            Ok(step) => {
                sequence.push(step);
            },
            Err(e) => {
                return Err(e);
            },
        }
        i += 1;
    }
    if sequence.len() == 0 {
        return Err(crate::text::string_from("hotkey cannot be empty"));
    }
    let normalized = normalize_sequence(&sequence);
    Ok(ParsedHotkey { normalized, sequence })
}

impl Default for ParsedHotkey {
    /// The binding `Ctrl+`` `.
    fn default() -> (p: Self)
        ensures
            p.normalized@ == "Ctrl+`"@,
            p.sequence@ == seq![
                HotkeyStep {
                    modifiers: Modifiers { ctrl: true, ..no_modifiers() },
                    trigger: TriggerInput::Key(KeyToken::Backquote),
                },
            ],
    {
        let ghost step = HotkeyStep {
            modifiers: Modifiers { ctrl: true, ..no_modifiers() },
            trigger: TriggerInput::Key(KeyToken::Backquote),
        };
        proof {
            reveal_strlit("Ctrl+`");
            reveal_strlit("Ctrl+");
            reveal_strlit("`");
            crate::canonical::lemma_join_reads_back(seq![step]);
            assert(join_steps(seq![step]) =~= "Ctrl+`"@);
        }
        match parse_hotkey_binding("Ctrl+`") {
            Ok(p) => p,
            Err(_) => ParsedHotkey { normalized: crate::text::string_from("Ctrl+`"), sequence: Vec::new() },
        }
    }
}

} // verus!

verus! {

// ---------------------------------------------------------------------------
// Matching a chord sequence
// ---------------------------------------------------------------------------

/// Shortest timeout between two steps of a sequence, in milliseconds.
pub const MIN_STEP_TIMEOUT_MS: u64 = 100;

/// Recognises a chord sequence in a stream of inputs. Times are milliseconds on a
/// monotonic clock.
#[derive(Debug)]
pub struct HotkeyMatcher {
    sequence: Vec<HotkeyStep>,
    timeout_ms: u64,
    index: usize,
    last_match_at: Option<u64>,
}

/// The state of a matcher: the sequence, the longest pause allowed between two steps,
/// how many steps of the sequence have been seen, and when the last of them was.
pub struct MatcherView {
    pub sequence: Seq<HotkeyStep>,
    pub timeout_ms: u64,
    pub index: nat,
    pub last_match_at: Option<u64>,
}

/// The step that an input is.
pub open spec fn input_step(modifiers: Modifiers, trigger: TriggerInput) -> HotkeyStep {
    HotkeyStep { modifiers, trigger }
}

/// The partial match is older than the timeout. A clock that went backwards counts as no
/// time having passed.
pub open spec fn is_stale(s: MatcherView, now: u64) -> bool {
    match s.last_match_at {
        Some(t) => now > t && now - t > s.timeout_ms,
        None => false,
    }
}

/// The matcher back at the start of its sequence.
pub open spec fn idle(s: MatcherView) -> MatcherView {
    MatcherView { index: 0, last_match_at: None, ..s }
}

/// One input given to the matcher: the next state and whether the input completed the
/// sequence. A stale partial match is dropped first. An input equal to the expected step
/// advances the match, and completes it at the last step; any other input starts the
/// match over, at its first step if it equals the first step of the sequence.
pub open spec fn spec_register(
    s: MatcherView,
    modifiers: Modifiers,
    trigger: TriggerInput,
    now: u64,
) -> (MatcherView, bool) {
    if s.sequence.len() == 0 {
        (s, false)
    } else {
        let s1 = if is_stale(s, now) {
            idle(s)
        } else {
            s
        };
        let input = input_step(modifiers, trigger);
        if s1.sequence[s1.index as int] == input {
            if s1.index + 1 >= s1.sequence.len() {
                (idle(s1), true)
            } else {
                (MatcherView { index: s1.index + 1, last_match_at: Some(now), ..s1 }, false)
            }
        } else if s1.sequence[0] == input {
            (MatcherView { index: 1, last_match_at: Some(now), ..s1 }, s1.sequence.len() == 1)
        } else {
            (idle(s1), false)
        }
    }
}

/// A reachable matcher state: the position is a step of the sequence, or the start of
/// an empty one.
pub open spec fn matcher_wf(s: MatcherView) -> bool {
    &&& s.index < s.sequence.len() || (s.sequence.len() == 0 && s.index == 0)
    &&& s.timeout_ms >= MIN_STEP_TIMEOUT_MS
}

impl View for HotkeyMatcher {
    type V = MatcherView;

    closed spec fn view(&self) -> MatcherView {
        MatcherView {
            sequence: self.sequence@,
            timeout_ms: self.timeout_ms,
            index: self.index as nat,
            last_match_at: self.last_match_at,
        }
    }
}

impl HotkeyMatcher {
    #[verifier::type_invariant]
    spec fn inv(self) -> bool {
        matcher_wf(self@)
    }

    /// A matcher for `sequence`; the pause allowed between steps is `timeout_ms`, but at
    /// least 100 ms.
    pub fn new(sequence: Vec<HotkeyStep>, timeout_ms: u64) -> (m: Self)
        ensures
            m@ == (MatcherView {
                sequence: sequence@,
                timeout_ms: if timeout_ms < MIN_STEP_TIMEOUT_MS {
                    MIN_STEP_TIMEOUT_MS
                } else {
                    timeout_ms
                },
                index: 0,
                last_match_at: None,
            }),
            matcher_wf(m@),
    {
        let timeout = if timeout_ms < MIN_STEP_TIMEOUT_MS {
            MIN_STEP_TIMEOUT_MS
        } else {
            timeout_ms
        };
        HotkeyMatcher { sequence, timeout_ms: timeout, index: 0, last_match_at: None }
    }

    /// A copy of the sequence being recognised.
    pub fn sequence(&self) -> (r: Vec<HotkeyStep>)
        ensures
            r@ == self@.sequence,
    {
        let mut r: Vec<HotkeyStep> = Vec::new();
        let n = self.sequence.len();
        let mut i: usize = 0;
        while i < n
            invariant
                n == self.sequence.len(),
                i <= n,
                r@ == self.sequence@.take(i as int),
            decreases n - i,
        {
            r.push(self.sequence[i]);
            assert(self.sequence@.take(i + 1) =~= self.sequence@.take(i as int).push(self.sequence@[i as int]));
            i += 1;
        }
        assert(self.sequence@.take(n as int) =~= self.sequence@);
        r
    }

    /// Feeds one input observed at `now_ms`; true when it completes the sequence.
    pub fn register_trigger(&mut self, modifiers: Modifiers, trigger: TriggerInput, now_ms: u64) -> (r:
        bool)
        ensures
            (final(self)@, r) == spec_register(old(self)@, modifiers, trigger, now_ms),
            matcher_wf(final(self)@),
    {
        proof {
            use_type_invariant(&*self);
        }
        if self.sequence.len() == 0 {
            return false;
        }
        if let Some(last) = self.last_match_at {
            if now_ms > last && now_ms - last > self.timeout_ms {
                self.index = 0;
                self.last_match_at = None;
            }
        }
        let expected = self.sequence[self.index];
        if expected.modifiers == modifiers && expected.trigger == trigger {
            if self.index + 1 >= self.sequence.len() {
                self.index = 0;
                self.last_match_at = None;
                return true;
            }
            self.index = self.index + 1;
            self.last_match_at = Some(now_ms);
            return false;
        }
        let first = self.sequence[0];
        if first.modifiers == modifiers && first.trigger == trigger {
            self.index = 1;
            self.last_match_at = Some(now_ms);
            return self.sequence.len() == 1;
        }
        self.index = 0;
        self.last_match_at = None;
        false
    }
}

impl Clone for HotkeyMatcher {
    fn clone(&self) -> (m: Self)
        ensures
            m@ == self@,
    {
        proof {
            use_type_invariant(self);
        }
        HotkeyMatcher {
            sequence: self.sequence(),
            timeout_ms: self.timeout_ms,
            index: self.index,
            last_match_at: self.last_match_at,
        }
    }
}

} // verus!

verus! {

// ---------------------------------------------------------------------------
// Laws of the matcher
// ---------------------------------------------------------------------------

/// The matcher's states and outputs as it is fed timed inputs in order.
pub open spec fn feed(s: MatcherView, inputs: Seq<(HotkeyStep, u64)>) -> (MatcherView, Seq<bool>)
    decreases inputs.len(),
{
    if inputs.len() == 0 {
        (s, Seq::empty())
    } else {
        let (s2, fired) = spec_register(
            s,
            inputs[0].0.modifiers,
            inputs[0].0.trigger,
            inputs[0].1,
        );
        let rest = feed(s2, inputs.drop_first());
        (rest.0, seq![fired] + rest.1)
    }
}

/// The steps of a sequence paired with the times at which they are played.
pub open spec fn played(steps: Seq<HotkeyStep>, times: Seq<u64>) -> Seq<(HotkeyStep, u64)> {
    Seq::new(steps.len(), |i: int| (steps[i], times[i]))
}

/// No pause between consecutive times is longer than the timeout.
pub open spec fn pauses_within(times: Seq<u64>, timeout_ms: u64) -> bool {
    forall|i: int|
        #![trigger times[i]]
        0 < i < times.len() ==> times[i] <= times[i - 1] || times[i] - times[i - 1] <= timeout_ms
}

proof fn lemma_completes_from(s: MatcherView, times: Seq<u64>, k: int, sk: MatcherView)
    requires
        matcher_wf(s),
        s.sequence.len() > 0,
        times.len() == s.sequence.len(),
        pauses_within(times, s.timeout_ms),
        0 <= k < s.sequence.len(),
        sk.sequence == s.sequence,
        sk.timeout_ms == s.timeout_ms,
        sk.index == k,
        k > 0 ==> sk.last_match_at == Some(times[k - 1]),
    ensures
        ({
            let (fin, fired) = feed(
                sk,
                played(s.sequence, times).subrange(k, s.sequence.len() as int),
            );
            &&& fired.len() == s.sequence.len() - k
            &&& fired[fired.len() - 1]
            &&& forall|i: int| 0 <= i < fired.len() - 1 ==> !fired[i]
            &&& fin == idle(s)
        }),
    decreases s.sequence.len() - k,
{
    let n = s.sequence.len() as int;
    let inputs = played(s.sequence, times).subrange(k, n);
    assert(inputs[0] == (s.sequence[k], times[k]));
    if k > 0 {
        assert(times[k] <= times[k - 1] || times[k] - times[k - 1] <= s.timeout_ms);
    }
    let (s2, fired0) = spec_register(sk, s.sequence[k].modifiers, s.sequence[k].trigger, times[k]);
    assert(input_step(s.sequence[k].modifiers, s.sequence[k].trigger) == s.sequence[k]);
    assert(feed(sk, inputs) == (feed(s2, inputs.drop_first()).0, seq![fired0] + feed(
        s2,
        inputs.drop_first(),
    ).1));
    if k + 1 >= n {
        assert(inputs.drop_first().len() == 0);
        assert(fired0);
        assert(s2 == idle(s));
        assert(feed(s2, inputs.drop_first()) == (s2, Seq::<bool>::empty()));
        assert(seq![fired0] + Seq::<bool>::empty() =~= seq![fired0]);
    } else {
        assert(inputs.drop_first() =~= played(s.sequence, times).subrange(k + 1, n));
        lemma_completes_from(s, times, k + 1, s2);
        let rest = feed(s2, inputs.drop_first());
        assert(!fired0);
        let fired = seq![fired0] + rest.1;
        assert forall|i: int| 0 <= i < fired.len() - 1 implies !fired[i] by {
            if i > 0 {
                assert(fired[i] == rest.1[i - 1]);
            }
        }
    }
}

/// Law: playing the whole sequence from the start, with no pause longer than the
/// timeout, fires exactly once, on the last step, and leaves the matcher at the start.
pub proof fn law_sequence_completes(s: MatcherView, times: Seq<u64>)
    requires
        matcher_wf(s),
        s.index == 0,
        s.sequence.len() > 0,
        times.len() == s.sequence.len(),
        pauses_within(times, s.timeout_ms),
    ensures
        ({
            let (fin, fired) = feed(s, played(s.sequence, times));
            &&& fired.len() == s.sequence.len()
            &&& fired[fired.len() - 1]
            &&& forall|i: int| 0 <= i < fired.len() - 1 ==> !fired[i]
            &&& fin == idle(s)
        }),
{
    assert(played(s.sequence, times).subrange(0, s.sequence.len() as int) =~= played(
        s.sequence,
        times,
    ));
    lemma_completes_from(s, times, 0, s);
}

/// Law: a partial match older than the timeout is forgotten: the input is handled as if
/// the matcher were at the start of its sequence.
pub proof fn law_stale_match_is_dropped(
    s: MatcherView,
    modifiers: Modifiers,
    trigger: TriggerInput,
    now: u64,
)
    requires
        matcher_wf(s),
        s.sequence.len() > 0,
        is_stale(s, now),
    ensures
        spec_register(s, modifiers, trigger, now) == spec_register(idle(s), modifiers, trigger, now),
{
}

/// Law: an input that is neither the expected step nor the first step of the sequence
/// fires nothing and sends the matcher back to the start.
pub proof fn law_other_input_resets(
    s: MatcherView,
    modifiers: Modifiers,
    trigger: TriggerInput,
    now: u64,
)
    requires
        matcher_wf(s),
        s.sequence.len() > 0,
        !s.sequence.contains(input_step(modifiers, trigger)),
    ensures
        spec_register(s, modifiers, trigger, now) == (idle(s), false),
{
    let s1 = if is_stale(s, now) {
        idle(s)
    } else {
        s
    };
    assert(s.sequence[s1.index as int] != input_step(modifiers, trigger));
    assert(s.sequence[0] != input_step(modifiers, trigger));
}

/// Law: a partial match is timed by the input that made it: whenever an input leaves the
/// matcher part-way through its sequence, the time of the match is the time of that
/// input.
pub proof fn law_partial_match_is_timed(
    s: MatcherView,
    modifiers: Modifiers,
    trigger: TriggerInput,
    now: u64,
)
    requires
        matcher_wf(s),
    ensures
        spec_register(s, modifiers, trigger, now).0.index > 0 ==> spec_register(
            s,
            modifiers,
            trigger,
            now,
        ).0.last_match_at == Some(now),
{
}

/// Law: a partial match followed by a pause longer than the timeout never completes a
/// sequence of two or more steps: the next input can at best start it over.
pub proof fn law_late_step_does_not_complete(
    s: MatcherView,
    modifiers: Modifiers,
    trigger: TriggerInput,
    t: u64,
    now: u64,
)
    requires
        matcher_wf(s),
        s.sequence.len() >= 2,
        s.last_match_at == Some(t),
        now > t,
        now - t > s.timeout_ms,
    ensures
        !spec_register(s, modifiers, trigger, now).1,
        spec_register(s, modifiers, trigger, now).0.index <= 1,
{
}

/// Law: a matcher with an empty sequence never fires and never changes.
pub proof fn law_empty_sequence_never_fires(
    s: MatcherView,
    modifiers: Modifiers,
    trigger: TriggerInput,
    now: u64,
)
    requires
        s.sequence.len() == 0,
    ensures
        spec_register(s, modifiers, trigger, now) == (s, false),
{
}

} // verus!

verus! {

// ---------------------------------------------------------------------------
// The recording toggle key
// ---------------------------------------------------------------------------

/// What the global key listener sees of the toggle key.
#[derive(Debug, Clone, Copy, PartialEq, Eq, Structural)]
pub enum ToggleKeyEvent {
    Pressed,
    Released,
}

/// What a key event asks of the recorder.
#[derive(Debug, Clone, Copy, PartialEq, Eq, Structural)]
pub enum ToggleAction {
    Nothing,
    StartRecording,
    StopRecording,
}

/// The listener's decision for one event of the toggle key: a press toggles recording
/// once until the key is released (held keys repeat presses), and does nothing while the
/// model is not ready; the result is the new "held" flag and the action.
pub open spec fn spec_toggle(held: bool, event: ToggleKeyEvent, model_ready: bool, recording: bool) -> (bool, ToggleAction) {
    match event {
        ToggleKeyEvent::Released => (false, ToggleAction::Nothing),
        ToggleKeyEvent::Pressed => if held || !model_ready {
            (true, ToggleAction::Nothing)
        } else if recording {
            (true, ToggleAction::StopRecording)
        } else {
            (true, ToggleAction::StartRecording)
        },
    }
}

/// Decides what an event of the toggle key does.
pub fn on_toggle_key(held: &mut bool, event: ToggleKeyEvent, model_ready: bool, recording: bool) -> (a:
    ToggleAction)
    ensures
        (*final(held), a) == spec_toggle(*old(held), event, model_ready, recording),
{
    match event {
        ToggleKeyEvent::Released => {
            *held = false;
            ToggleAction::Nothing
        },
        ToggleKeyEvent::Pressed => {
            if *held || !model_ready {
                *held = true;
                ToggleAction::Nothing
            } else {
                *held = true;
                if recording {
                    ToggleAction::StopRecording
                } else {
                    ToggleAction::StartRecording
                }
            }
        },
    }
}

/// Law: holding the toggle key down toggles recording at most once: every press after the
/// first, until a release, does nothing.
pub proof fn law_held_key_toggles_once(model_ready: bool, recording: bool)
    ensures
        spec_toggle(true, ToggleKeyEvent::Pressed, model_ready, recording) == (
            true,
            ToggleAction::Nothing,
        ),
        spec_toggle(false, ToggleKeyEvent::Pressed, model_ready, recording).0,
{
}

} // verus!
