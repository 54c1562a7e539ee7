//! Laws of the hotkey binding parser: the canonical text of a binding reads back as the
//! same binding; the letter case of a binding does not matter; and a space written
//! beside a `,` or a `+` changes nothing.
use vstd::prelude::*;

use crate::hotkey::{
    all_digits, decimal, digits_value, join_steps, modifiers_text, no_modifiers, parse_u8,
    spec_key_token, spec_modifier, spec_mouse_token, spec_part, spec_parse_hotkey,
    spec_parse_step, spec_parts_from, spec_steps_from, spec_trigger, step_text, trigger_text,
    HotkeyStep, KeyToken, Modifiers, MouseButtonToken, TriggerInput,
};
use crate::text::{
    free_of, is_ascii_lower, is_ascii_upper, is_white, lemma_split_around, lemma_split_nonempty,
    lemma_split_pieces_free, lemma_split_pieces_keep_free, lemma_split_whole, lemma_trim_ends, lemma_trim_free,
    lemma_trim_keeps, lower, lower_char, split, trim, upper_char, all_white, lemma_split_concat,
    lemma_split_lower, lemma_lower_trim, lemma_trim_white_around, lemma_trim_decompose,
    lemma_trim_nonempty,
};

verus! {

/// A trigger that the parser can return: a character key is a lower-case ASCII character
/// other than white space, `,`, `+`, `` ` `` and `f`; a function key is F1 to F24.
pub open spec fn parsable_trigger(t: TriggerInput) -> bool {
    match t {
        TriggerInput::Key(KeyToken::Char(c)) => {
            &&& (c as u32) < 128
            &&& !is_ascii_upper(c)
            &&& !is_white(c)
            &&& c != ','
            &&& c != '+'
            &&& c != '`'
            &&& c != 'f'
        },
        TriggerInput::Key(KeyToken::Function(n)) => 1 <= n && n <= 24,
        _ => true,
    }
}

// ---------------------------------------------------------------------------
// Function keys: the digits of a number read back as the number
// ---------------------------------------------------------------------------

proof fn lemma_decimal_digits(n: nat)
    ensures
        decimal(n).len() > 0,
        all_digits(decimal(n)),
        digits_value(decimal(n)) == n,
    decreases n,
{
    let d = decimal(n);
    if n >= 10 {
        lemma_decimal_digits(n / 10);
        assert(d.drop_last() =~= decimal(n / 10));
        assert(d.last() == (('0' as nat) + n % 10) as char);
        assert((d.last() as nat) - ('0' as nat) == n % 10);
        assert(digits_value(d) == digits_value(decimal(n / 10)) * 10 + n % 10);
        assert((n / 10) * 10 + n % 10 == n);
        assert(digits_value(d) == n);
        assert forall|i: int| 0 <= i < d.len() implies '0' <= #[trigger] d[i] && d[i] <= '9' by {
            if i < d.len() - 1 {
                assert(d[i] == decimal(n / 10)[i]);
            }
        }
    } else {
        assert(d.drop_last() =~= Seq::<char>::empty());
        assert((d.last() as nat) - ('0' as nat) == n);
        assert(digits_value(d.drop_last()) == 0);
        assert(digits_value(d) == n);
    }
}

proof fn lemma_parse_u8_decimal(n: u8)
    ensures
        parse_u8(decimal(n as nat)) == Some(n),
        lower(decimal(n as nat)) == decimal(n as nat),
{
    lemma_decimal_digits(n as nat);
    let d = decimal(n as nat);
    assert(d[0] != '+');
    assert(lower(d) =~= d) by {
        assert forall|i: int| 0 <= i < d.len() implies #[trigger] lower(d)[i] == d[i] by {
            assert('0' <= d[i] && d[i] <= '9');
        }
    }
}

// ---------------------------------------------------------------------------
// Trigger names
// ---------------------------------------------------------------------------

/// What the canonical name of a trigger is made of, and that it reads back as the trigger
/// whatever modifiers were read before it.
pub open spec fn trigger_reads_back(t: TriggerInput) -> bool {
    let tt = trigger_text(t);
    &&& tt.len() > 0
    &&& !is_white(tt[0])
    &&& !is_white(tt.last())
    &&& free_of(tt, '+')
    &&& free_of(tt, ',')
    &&& trim(tt) == tt
    &&& (forall|m: Modifiers| #[trigger] spec_modifier(m, lower(tt)) is None)
    &&& spec_trigger(tt) == Some(t)
}

proof fn lemma_no_modifier(l: Seq<char>)
    requires
        l != "ctrl"@,
        l != "control"@,
        l != "shift"@,
        l != "alt"@,
        l != "option"@,
        l != "meta"@,
        l != "cmd"@,
        l != "command"@,
        l != "win"@,
        l != "super"@,
    ensures
        forall|m: Modifiers| #[trigger] spec_modifier(m, l) is None,
{
}

proof fn lemma_reads_back_char(c: char)
    requires
        parsable_trigger(TriggerInput::Key(KeyToken::Char(c))),
    ensures
        trigger_reads_back(TriggerInput::Key(KeyToken::Char(c))),
{
    let t = TriggerInput::Key(KeyToken::Char(c));
    let tt = trigger_text(t);
    let u = upper_char(c);
    assert(tt == seq![u]);
    assert(!is_white(u));
    assert(lower_char(u) == c);
    assert(lower(tt) =~= seq![c]);
    lemma_trim_keeps(tt);
    reveal_strlit("`");
    reveal_strlit("ctrl");
    reveal_strlit("control");
    reveal_strlit("shift");
    reveal_strlit("alt");
    reveal_strlit("option");
    reveal_strlit("meta");
    reveal_strlit("cmd");
    reveal_strlit("command");
    reveal_strlit("win");
    reveal_strlit("super");
    reveal_strlit("backquote");
    reveal_strlit("grave");
    reveal_strlit("space");
    reveal_strlit("tab");
    reveal_strlit("enter");
    reveal_strlit("return");
    reveal_strlit("escape");
    reveal_strlit("esc");
    lemma_no_modifier(lower(tt));
    assert(lower(tt)[0] != "`"@[0]);
    assert(spec_key_token(tt) == Some(KeyToken::Char(c)));
}

proof fn lemma_reads_back_function(n: u8)
    requires
        1 <= n <= 24,
    ensures
        trigger_reads_back(TriggerInput::Key(KeyToken::Function(n))),
{
    let t = TriggerInput::Key(KeyToken::Function(n));
    let tt = trigger_text(t);
    let d = decimal(n as nat);
    lemma_parse_u8_decimal(n);
    lemma_decimal_digits(n as nat);
    reveal_strlit("F");
    assert(tt == "F"@ + d);
    assert(tt[0] == 'F');
    assert(tt.last() == d.last());
    assert('0' <= d[d.len() - 1] && d[d.len() - 1] <= '9');
    assert(free_of(tt, '+') && free_of(tt, ',')) by {
        assert forall|i: int| 0 <= i < tt.len() implies #[trigger] tt[i] != '+' && tt[i] != ',' by {
            if i > 0 {
                assert(tt[i] == d[i - 1]);
                assert('0' <= d[i - 1] && d[i - 1] <= '9');
            }
        }
    }
    lemma_trim_keeps(tt);
    let l = lower(tt);
    assert(l =~= seq!['f'] + d) by {
        assert forall|i: int| 0 <= i < l.len() implies #[trigger] l[i] == (seq!['f'] + d)[i] by {
            if i > 0 {
                assert(tt[i] == d[i - 1]);
                assert('0' <= d[i - 1] && d[i - 1] <= '9');
            }
        }
    }
    assert(l[0] == 'f');
    assert(l.drop_first() =~= d);
    reveal_strlit("`");
    reveal_strlit("ctrl");
    reveal_strlit("control");
    reveal_strlit("shift");
    reveal_strlit("alt");
    reveal_strlit("option");
    reveal_strlit("meta");
    reveal_strlit("cmd");
    reveal_strlit("command");
    reveal_strlit("win");
    reveal_strlit("super");
    reveal_strlit("backquote");
    reveal_strlit("grave");
    reveal_strlit("space");
    reveal_strlit("tab");
    reveal_strlit("enter");
    reveal_strlit("return");
    reveal_strlit("escape");
    reveal_strlit("esc");
    assert(l != "ctrl"@ && l != "control"@ && l != "cmd"@ && l != "command"@ && l != "shift"@
        && l != "super"@ && l != "alt"@ && l != "option"@ && l != "meta"@ && l != "win"@) by {
        assert("ctrl"@[0] != 'f');
        assert("control"@[0] != 'f');
        assert("cmd"@[0] != 'f');
        assert("command"@[0] != 'f');
        assert("shift"@[0] != 'f');
        assert("super"@[0] != 'f');
        assert("alt"@[0] != 'f');
        assert("option"@[0] != 'f');
        assert("meta"@[0] != 'f');
        assert("win"@[0] != 'f');
    }
    lemma_no_modifier(l);
    assert(l != "`"@ && l != "backquote"@ && l != "grave"@ && l != "space"@ && l != "tab"@
        && l != "enter"@ && l != "return"@ && l != "escape"@ && l != "esc"@) by {
        assert("`"@[0] != 'f');
        assert("backquote"@[0] != 'f');
        assert("grave"@[0] != 'f');
        assert("space"@[0] != 'f');
        assert("tab"@[0] != 'f');
        assert("enter"@[0] != 'f');
        assert("return"@[0] != 'f');
        assert("escape"@[0] != 'f');
        assert("esc"@[0] != 'f');
    }
    assert(spec_key_token(tt) == Some(KeyToken::Function(n)));
}

proof fn lemma_reads_back_backquote()
    ensures
        trigger_reads_back(TriggerInput::Key(KeyToken::Backquote)),
{
    let tt = trigger_text(TriggerInput::Key(KeyToken::Backquote));
    reveal_strlit("`");
    reveal_strlit("alt");
    reveal_strlit("backquote");
    reveal_strlit("cmd");
    reveal_strlit("command");
    reveal_strlit("control");
    reveal_strlit("ctrl");
    reveal_strlit("enter");
    reveal_strlit("esc");
    reveal_strlit("escape");
    reveal_strlit("grave");
    reveal_strlit("leftmouse");
    reveal_strlit("meta");
    reveal_strlit("middlemouse");
    reveal_strlit("mouse1");
    reveal_strlit("mouse2");
    reveal_strlit("mouse3");
    reveal_strlit("mouse4");
    reveal_strlit("mouse5");
    reveal_strlit("mouseleft");
    reveal_strlit("mousemiddle");
    reveal_strlit("mouseright");
    reveal_strlit("option");
    reveal_strlit("return");
    reveal_strlit("rightmouse");
    reveal_strlit("shift");
    reveal_strlit("space");
    reveal_strlit("super");
    reveal_strlit("tab");
    reveal_strlit("win");
    reveal_strlit("x1");
    reveal_strlit("x2");
    assert(tt == "`"@);
    assert(lower(tt) =~= "`"@);
    lemma_trim_keeps(tt);
    lemma_no_modifier(lower(tt));
}

proof fn lemma_reads_back_space()
    ensures
        trigger_reads_back(TriggerInput::Key(KeyToken::Space)),
{
    let tt = trigger_text(TriggerInput::Key(KeyToken::Space));
    reveal_strlit("Space");
    reveal_strlit("`");
    reveal_strlit("alt");
    reveal_strlit("backquote");
    reveal_strlit("cmd");
    reveal_strlit("command");
    reveal_strlit("control");
    reveal_strlit("ctrl");
    reveal_strlit("enter");
    reveal_strlit("esc");
    reveal_strlit("escape");
    reveal_strlit("grave");
    reveal_strlit("leftmouse");
    reveal_strlit("meta");
    reveal_strlit("middlemouse");
    reveal_strlit("mouse1");
    reveal_strlit("mouse2");
    reveal_strlit("mouse3");
    reveal_strlit("mouse4");
    reveal_strlit("mouse5");
    reveal_strlit("mouseleft");
    reveal_strlit("mousemiddle");
    reveal_strlit("mouseright");
    reveal_strlit("option");
    reveal_strlit("return");
    reveal_strlit("rightmouse");
    reveal_strlit("shift");
    reveal_strlit("space");
    reveal_strlit("super");
    reveal_strlit("tab");
    reveal_strlit("win");
    reveal_strlit("x1");
    reveal_strlit("x2");
    assert(tt == "Space"@);
    assert(lower(tt) =~= "space"@);
    lemma_trim_keeps(tt);
    assert(lower(tt)[1] != "shift"@[1]);
    assert(lower(tt)[1] != "super"@[1]);
    assert(lower(tt)[0] != "grave"@[0]);
    assert(lower(tt)[0] != "enter"@[0]);
    lemma_no_modifier(lower(tt));
}

proof fn lemma_reads_back_enter()
    ensures
        trigger_reads_back(TriggerInput::Key(KeyToken::Enter)),
{
    let tt = trigger_text(TriggerInput::Key(KeyToken::Enter));
    reveal_strlit("Enter");
    reveal_strlit("`");
    reveal_strlit("alt");
    reveal_strlit("backquote");
    reveal_strlit("cmd");
    reveal_strlit("command");
    reveal_strlit("control");
    reveal_strlit("ctrl");
    reveal_strlit("enter");
    reveal_strlit("esc");
    reveal_strlit("escape");
    reveal_strlit("grave");
    reveal_strlit("leftmouse");
    reveal_strlit("meta");
    reveal_strlit("middlemouse");
    reveal_strlit("mouse1");
    reveal_strlit("mouse2");
    reveal_strlit("mouse3");
    reveal_strlit("mouse4");
    reveal_strlit("mouse5");
    reveal_strlit("mouseleft");
    reveal_strlit("mousemiddle");
    reveal_strlit("mouseright");
    reveal_strlit("option");
    reveal_strlit("return");
    reveal_strlit("rightmouse");
    reveal_strlit("shift");
    reveal_strlit("space");
    reveal_strlit("super");
    reveal_strlit("tab");
    reveal_strlit("win");
    reveal_strlit("x1");
    reveal_strlit("x2");
    assert(tt == "Enter"@);
    assert(lower(tt) =~= "enter"@);
    lemma_trim_keeps(tt);
    assert(lower(tt)[0] != "shift"@[0]);
    assert(lower(tt)[0] != "super"@[0]);
    assert(lower(tt)[0] != "grave"@[0]);
    assert(lower(tt)[0] != "space"@[0]);
    lemma_no_modifier(lower(tt));
}

proof fn lemma_reads_back_tab()
    ensures
        trigger_reads_back(TriggerInput::Key(KeyToken::Tab)),
{
    let tt = trigger_text(TriggerInput::Key(KeyToken::Tab));
    reveal_strlit("Tab");
    reveal_strlit("`");
    reveal_strlit("alt");
    reveal_strlit("backquote");
    reveal_strlit("cmd");
    reveal_strlit("command");
    reveal_strlit("control");
    reveal_strlit("ctrl");
    reveal_strlit("enter");
    reveal_strlit("esc");
    reveal_strlit("escape");
    reveal_strlit("grave");
    reveal_strlit("leftmouse");
    reveal_strlit("meta");
    reveal_strlit("middlemouse");
    reveal_strlit("mouse1");
    reveal_strlit("mouse2");
    reveal_strlit("mouse3");
    reveal_strlit("mouse4");
    reveal_strlit("mouse5");
    reveal_strlit("mouseleft");
    reveal_strlit("mousemiddle");
    reveal_strlit("mouseright");
    reveal_strlit("option");
    reveal_strlit("return");
    reveal_strlit("rightmouse");
    reveal_strlit("shift");
    reveal_strlit("space");
    reveal_strlit("super");
    reveal_strlit("tab");
    reveal_strlit("win");
    reveal_strlit("x1");
    reveal_strlit("x2");
    assert(tt == "Tab"@);
    assert(lower(tt) =~= "tab"@);
    lemma_trim_keeps(tt);
    assert(lower(tt)[0] != "alt"@[0]);
    assert(lower(tt)[0] != "cmd"@[0]);
    assert(lower(tt)[0] != "win"@[0]);
    assert(lower(tt)[0] != "esc"@[0]);
    lemma_no_modifier(lower(tt));
}

proof fn lemma_reads_back_escape()
    ensures
        trigger_reads_back(TriggerInput::Key(KeyToken::Escape)),
{
    let tt = trigger_text(TriggerInput::Key(KeyToken::Escape));
    reveal_strlit("Escape");
    reveal_strlit("`");
    reveal_strlit("alt");
    reveal_strlit("backquote");
    reveal_strlit("cmd");
    reveal_strlit("command");
    reveal_strlit("control");
    reveal_strlit("ctrl");
    reveal_strlit("enter");
    reveal_strlit("esc");
    reveal_strlit("escape");
    reveal_strlit("grave");
    reveal_strlit("leftmouse");
    reveal_strlit("meta");
    reveal_strlit("middlemouse");
    reveal_strlit("mouse1");
    reveal_strlit("mouse2");
    reveal_strlit("mouse3");
    reveal_strlit("mouse4");
    reveal_strlit("mouse5");
    reveal_strlit("mouseleft");
    reveal_strlit("mousemiddle");
    reveal_strlit("mouseright");
    reveal_strlit("option");
    reveal_strlit("return");
    reveal_strlit("rightmouse");
    reveal_strlit("shift");
    reveal_strlit("space");
    reveal_strlit("super");
    reveal_strlit("tab");
    reveal_strlit("win");
    reveal_strlit("x1");
    reveal_strlit("x2");
    assert(tt == "Escape"@);
    assert(lower(tt) =~= "escape"@);
    lemma_trim_keeps(tt);
    assert(lower(tt)[0] != "option"@[0]);
    assert(lower(tt)[0] != "return"@[0]);
    assert(lower(tt)[0] != "mouse1"@[0]);
    assert(lower(tt)[0] != "mouse2"@[0]);
    assert(lower(tt)[0] != "mouse3"@[0]);
    assert(lower(tt)[0] != "mouse4"@[0]);
    assert(lower(tt)[0] != "mouse5"@[0]);
    lemma_no_modifier(lower(tt));
}

proof fn lemma_reads_back_mouseleft()
    ensures
        trigger_reads_back(TriggerInput::Mouse(MouseButtonToken::Left)),
{
    let tt = trigger_text(TriggerInput::Mouse(MouseButtonToken::Left));
    reveal_strlit("MouseLeft");
    reveal_strlit("`");
    reveal_strlit("alt");
    reveal_strlit("backquote");
    reveal_strlit("cmd");
    reveal_strlit("command");
    reveal_strlit("control");
    reveal_strlit("ctrl");
    reveal_strlit("enter");
    reveal_strlit("esc");
    reveal_strlit("escape");
    reveal_strlit("grave");
    reveal_strlit("leftmouse");
    reveal_strlit("meta");
    reveal_strlit("middlemouse");
    reveal_strlit("mouse1");
    reveal_strlit("mouse2");
    reveal_strlit("mouse3");
    reveal_strlit("mouse4");
    reveal_strlit("mouse5");
    reveal_strlit("mouseleft");
    reveal_strlit("mousemiddle");
    reveal_strlit("mouseright");
    reveal_strlit("option");
    reveal_strlit("return");
    reveal_strlit("rightmouse");
    reveal_strlit("shift");
    reveal_strlit("space");
    reveal_strlit("super");
    reveal_strlit("tab");
    reveal_strlit("win");
    reveal_strlit("x1");
    reveal_strlit("x2");
    assert(tt == "MouseLeft"@);
    assert(lower(tt) =~= "mouseleft"@);
    lemma_trim_keeps(tt);
    assert(lower(tt)[0] != "backquote"@[0]);
    assert(lower(tt)[0] != "leftmouse"@[0]);
    lemma_no_modifier(lower(tt));
}

proof fn lemma_reads_back_mouseright()
    ensures
        trigger_reads_back(TriggerInput::Mouse(MouseButtonToken::Right)),
{
    let tt = trigger_text(TriggerInput::Mouse(MouseButtonToken::Right));
    reveal_strlit("MouseRight");
    reveal_strlit("`");
    reveal_strlit("alt");
    reveal_strlit("backquote");
    reveal_strlit("cmd");
    reveal_strlit("command");
    reveal_strlit("control");
    reveal_strlit("ctrl");
    reveal_strlit("enter");
    reveal_strlit("esc");
    reveal_strlit("escape");
    reveal_strlit("grave");
    reveal_strlit("leftmouse");
    reveal_strlit("meta");
    reveal_strlit("middlemouse");
    reveal_strlit("mouse1");
    reveal_strlit("mouse2");
    reveal_strlit("mouse3");
    reveal_strlit("mouse4");
    reveal_strlit("mouse5");
    reveal_strlit("mouseleft");
    reveal_strlit("mousemiddle");
    reveal_strlit("mouseright");
    reveal_strlit("option");
    reveal_strlit("return");
    reveal_strlit("rightmouse");
    reveal_strlit("shift");
    reveal_strlit("space");
    reveal_strlit("super");
    reveal_strlit("tab");
    reveal_strlit("win");
    reveal_strlit("x1");
    reveal_strlit("x2");
    assert(tt == "MouseRight"@);
    assert(lower(tt) =~= "mouseright"@);
    lemma_trim_keeps(tt);
    assert(lower(tt)[0] != "rightmouse"@[0]);
    lemma_no_modifier(lower(tt));
}

proof fn lemma_reads_back_mousemiddle()
    ensures
        trigger_reads_back(TriggerInput::Mouse(MouseButtonToken::Middle)),
{
    let tt = trigger_text(TriggerInput::Mouse(MouseButtonToken::Middle));
    reveal_strlit("MouseMiddle");
    reveal_strlit("`");
    reveal_strlit("alt");
    reveal_strlit("backquote");
    reveal_strlit("cmd");
    reveal_strlit("command");
    reveal_strlit("control");
    reveal_strlit("ctrl");
    reveal_strlit("enter");
    reveal_strlit("esc");
    reveal_strlit("escape");
    reveal_strlit("grave");
    reveal_strlit("leftmouse");
    reveal_strlit("meta");
    reveal_strlit("middlemouse");
    reveal_strlit("mouse1");
    reveal_strlit("mouse2");
    reveal_strlit("mouse3");
    reveal_strlit("mouse4");
    reveal_strlit("mouse5");
    reveal_strlit("mouseleft");
    reveal_strlit("mousemiddle");
    reveal_strlit("mouseright");
    reveal_strlit("option");
    reveal_strlit("return");
    reveal_strlit("rightmouse");
    reveal_strlit("shift");
    reveal_strlit("space");
    reveal_strlit("super");
    reveal_strlit("tab");
    reveal_strlit("win");
    reveal_strlit("x1");
    reveal_strlit("x2");
    assert(tt == "MouseMiddle"@);
    assert(lower(tt) =~= "mousemiddle"@);
    lemma_trim_keeps(tt);
    assert(lower(tt)[1] != "middlemouse"@[1]);
    lemma_no_modifier(lower(tt));
}

proof fn lemma_reads_back_mouse4()
    ensures
        trigger_reads_back(TriggerInput::Mouse(MouseButtonToken::Button4)),
{
    let tt = trigger_text(TriggerInput::Mouse(MouseButtonToken::Button4));
    reveal_strlit("Mouse4");
    reveal_strlit("`");
    reveal_strlit("alt");
    reveal_strlit("backquote");
    reveal_strlit("cmd");
    reveal_strlit("command");
    reveal_strlit("control");
    reveal_strlit("ctrl");
    reveal_strlit("enter");
    reveal_strlit("esc");
    reveal_strlit("escape");
    reveal_strlit("grave");
    reveal_strlit("leftmouse");
    reveal_strlit("meta");
    reveal_strlit("middlemouse");
    reveal_strlit("mouse1");
    reveal_strlit("mouse2");
    reveal_strlit("mouse3");
    reveal_strlit("mouse4");
    reveal_strlit("mouse5");
    reveal_strlit("mouseleft");
    reveal_strlit("mousemiddle");
    reveal_strlit("mouseright");
    reveal_strlit("option");
    reveal_strlit("return");
    reveal_strlit("rightmouse");
    reveal_strlit("shift");
    reveal_strlit("space");
    reveal_strlit("super");
    reveal_strlit("tab");
    reveal_strlit("win");
    reveal_strlit("x1");
    reveal_strlit("x2");
    assert(tt == "Mouse4"@);
    assert(lower(tt) =~= "mouse4"@);
    lemma_trim_keeps(tt);
    assert(lower(tt)[0] != "option"@[0]);
    assert(lower(tt)[0] != "return"@[0]);
    assert(lower(tt)[0] != "escape"@[0]);
    assert(lower(tt)[5] != "mouse1"@[5]);
    assert(lower(tt)[5] != "mouse2"@[5]);
    assert(lower(tt)[5] != "mouse3"@[5]);
    assert(lower(tt)[5] != "mouse5"@[5]);
    lemma_no_modifier(lower(tt));
}

proof fn lemma_reads_back_mouse5()
    ensures
        trigger_reads_back(TriggerInput::Mouse(MouseButtonToken::Button5)),
{
    let tt = trigger_text(TriggerInput::Mouse(MouseButtonToken::Button5));
    reveal_strlit("Mouse5");
    reveal_strlit("`");
    reveal_strlit("alt");
    reveal_strlit("backquote");
    reveal_strlit("cmd");
    reveal_strlit("command");
    reveal_strlit("control");
    reveal_strlit("ctrl");
    reveal_strlit("enter");
    reveal_strlit("esc");
    reveal_strlit("escape");
    reveal_strlit("grave");
    reveal_strlit("leftmouse");
    reveal_strlit("meta");
    reveal_strlit("middlemouse");
    reveal_strlit("mouse1");
    reveal_strlit("mouse2");
    reveal_strlit("mouse3");
    reveal_strlit("mouse4");
    reveal_strlit("mouse5");
    reveal_strlit("mouseleft");
    reveal_strlit("mousemiddle");
    reveal_strlit("mouseright");
    reveal_strlit("option");
    reveal_strlit("return");
    reveal_strlit("rightmouse");
    reveal_strlit("shift");
    reveal_strlit("space");
    reveal_strlit("super");
    reveal_strlit("tab");
    reveal_strlit("win");
    reveal_strlit("x1");
    reveal_strlit("x2");
    assert(tt == "Mouse5"@);
    assert(lower(tt) =~= "mouse5"@);
    lemma_trim_keeps(tt);
    assert(lower(tt)[0] != "option"@[0]);
    assert(lower(tt)[0] != "return"@[0]);
    assert(lower(tt)[0] != "escape"@[0]);
    assert(lower(tt)[5] != "mouse1"@[5]);
    assert(lower(tt)[5] != "mouse2"@[5]);
    assert(lower(tt)[5] != "mouse3"@[5]);
    assert(lower(tt)[5] != "mouse4"@[5]);
    lemma_no_modifier(lower(tt));
}

/// Every trigger that the parser can return reads back from its canonical name.
pub proof fn lemma_trigger_reads_back(t: TriggerInput)
    requires
        parsable_trigger(t),
    ensures
        trigger_reads_back(t),
{
    match t {
        TriggerInput::Key(KeyToken::Char(c)) => lemma_reads_back_char(c),
        TriggerInput::Key(KeyToken::Function(n)) => lemma_reads_back_function(n),
        TriggerInput::Key(KeyToken::Backquote) => lemma_reads_back_backquote(),
        TriggerInput::Key(KeyToken::Space) => lemma_reads_back_space(),
        TriggerInput::Key(KeyToken::Enter) => lemma_reads_back_enter(),
        TriggerInput::Key(KeyToken::Tab) => lemma_reads_back_tab(),
        TriggerInput::Key(KeyToken::Escape) => lemma_reads_back_escape(),
        TriggerInput::Mouse(MouseButtonToken::Left) => lemma_reads_back_mouseleft(),
        TriggerInput::Mouse(MouseButtonToken::Right) => lemma_reads_back_mouseright(),
        TriggerInput::Mouse(MouseButtonToken::Middle) => lemma_reads_back_mousemiddle(),
        TriggerInput::Mouse(MouseButtonToken::Button4) => lemma_reads_back_mouse4(),
        TriggerInput::Mouse(MouseButtonToken::Button5) => lemma_reads_back_mouse5(),
    }
}

// ---------------------------------------------------------------------------
// Modifier names and the parts of a step
// ---------------------------------------------------------------------------

proof fn lemma_modifier_names(st: (Modifiers, Option<TriggerInput>))
    ensures
        spec_part(st, "Ctrl"@) == Ok::<(Modifiers, Option<TriggerInput>), Seq<char>>(
            (Modifiers { ctrl: true, ..st.0 }, st.1),
        ),
        spec_part(st, "Shift"@) == Ok::<(Modifiers, Option<TriggerInput>), Seq<char>>(
            (Modifiers { shift: true, ..st.0 }, st.1),
        ),
        spec_part(st, "Alt"@) == Ok::<(Modifiers, Option<TriggerInput>), Seq<char>>(
            (Modifiers { alt: true, ..st.0 }, st.1),
        ),
        spec_part(st, "Meta"@) == Ok::<(Modifiers, Option<TriggerInput>), Seq<char>>(
            (Modifiers { meta: true, ..st.0 }, st.1),
        ),
        free_of("Ctrl"@, '+'),
        free_of("Shift"@, '+'),
        free_of("Alt"@, '+'),
        free_of("Meta"@, '+'),
        "Ctrl+"@ =~= "Ctrl"@ + seq!['+'],
        "Shift+"@ =~= "Shift"@ + seq!['+'],
        "Alt+"@ =~= "Alt"@ + seq!['+'],
        "Meta+"@ =~= "Meta"@ + seq!['+'],
{
    reveal_strlit("Ctrl");
    reveal_strlit("Shift");
    reveal_strlit("Alt");
    reveal_strlit("Meta");
    reveal_strlit("Ctrl+");
    reveal_strlit("Shift+");
    reveal_strlit("Alt+");
    reveal_strlit("Meta+");
    reveal_strlit("ctrl");
    reveal_strlit("control");
    reveal_strlit("shift");
    reveal_strlit("alt");
    reveal_strlit("option");
    reveal_strlit("meta");
    lemma_trim_keeps("Ctrl"@);
    lemma_trim_keeps("Shift"@);
    lemma_trim_keeps("Alt"@);
    lemma_trim_keeps("Meta"@);
    assert(lower("Ctrl"@) =~= "ctrl"@);
    assert(lower("Shift"@) =~= "shift"@);
    assert(lower("Alt"@) =~= "alt"@);
    assert(lower("Meta"@) =~= "meta"@);
    assert("meta"@[0] != "ctrl"@[0]);
}

proof fn lemma_parts_shift(
    x: Seq<Seq<char>>,
    y: Seq<Seq<char>>,
    j: int,
    st: (Modifiers, Option<TriggerInput>),
)
    requires
        0 <= j,
    ensures
        spec_parts_from(x + y, x.len() + j, st) == spec_parts_from(y, j, st),
    decreases y.len() - j,
{
    if j < y.len() {
        assert((x + y)[x.len() + j] == y[j]);
        match spec_part(st, y[j]) {
            Err(e) => {},
            Ok(st2) => {
                lemma_parts_shift(x, y, j + 1, st2);
            },
        }
    }
}

/// One modifier name, when the flag is set, in front of the rest of a step.
proof fn lemma_layer(
    flag: bool,
    name: Seq<char>,
    rest: Seq<char>,
    parts: Seq<Seq<char>>,
    st: (Modifiers, Option<TriggerInput>),
    st2: (Modifiers, Option<TriggerInput>),
)
    requires
        free_of(name, '+'),
        split(rest, '+') == parts,
        flag ==> spec_part(st, name) == Ok::<(Modifiers, Option<TriggerInput>), Seq<char>>(st2),
        !flag ==> st2 == st,
    ensures
        split((if flag { name + seq!['+'] } else { Seq::empty() }) + rest, '+') == (if flag {
            seq![name]
        } else {
            Seq::empty()
        }) + parts,
        spec_parts_from(
            (if flag {
                seq![name]
            } else {
                Seq::empty()
            }) + parts,
            0,
            st,
        ) == spec_parts_from(parts, 0, st2),
{
    if flag {
        assert(name + seq!['+'] + rest =~= name + seq!['+'] + rest);
        lemma_split_around(name, rest, '+');
        lemma_split_whole(name, '+');
        lemma_parts_shift(seq![name], parts, 0, st2);
        assert((seq![name] + parts)[0] == name);
    } else {
        assert(Seq::<char>::empty() + rest =~= rest);
        assert(Seq::<Seq<char>>::empty() + parts =~= parts);
    }
}

proof fn lemma_free_concat(a: Seq<char>, b: Seq<char>, c: char)
    requires
        free_of(a, c),
        free_of(b, c),
    ensures
        free_of(a + b, c),
{
    assert forall|i: int| 0 <= i < (a + b).len() implies #[trigger] (a + b)[i] != c by {
        if i < a.len() {
            assert((a + b)[i] == a[i]);
        } else {
            assert((a + b)[i] == b[i - a.len()]);
        }
    }
}

/// The text of a modifier in a step, when its flag is set: its name and `+`.
pub open spec fn modifier_piece(flag: bool, name: Seq<char>) -> Seq<char> {
    if flag {
        name + seq!['+']
    } else {
        Seq::empty()
    }
}

proof fn lemma_piece_free(flag: bool, name: Seq<char>)
    requires
        free_of(name, ','),
        name.len() > 0,
    ensures
        free_of(modifier_piece(flag, name), ','),
        flag ==> modifier_piece(flag, name)[0] == name[0],
        !flag ==> modifier_piece(flag, name).len() == 0,
{
    if flag {
        lemma_free_concat(name, seq!['+'], ',');
    }
}

proof fn lemma_step_text_pieces(s: HotkeyStep)
    ensures
        step_text(s) =~= modifier_piece(s.modifiers.ctrl, "Ctrl"@) + (modifier_piece(
            s.modifiers.shift,
            "Shift"@,
        ) + (modifier_piece(s.modifiers.alt, "Alt"@) + (modifier_piece(s.modifiers.meta, "Meta"@)
            + trigger_text(s.trigger)))),
{
    lemma_modifier_names((no_modifiers(), None));
}

/// The canonical text of a step the parser can return reads back as that step, also
/// after the space that follows a comma; it holds no comma and is not blank at either
/// end.
pub proof fn lemma_step_reads_back(s: HotkeyStep)
    requires
        parsable_trigger(s.trigger),
    ensures
        step_text(s).len() > 0,
        !is_white(step_text(s)[0]),
        !is_white(step_text(s).last()),
        free_of(step_text(s), ','),
        spec_parse_step(step_text(s)) == Ok::<HotkeyStep, Seq<char>>(s),
        spec_parse_step(" "@ + step_text(s)) == Ok::<HotkeyStep, Seq<char>>(s),
{
    let m = s.modifiers;
    let t = s.trigger;
    let tt = trigger_text(t);
    lemma_trigger_reads_back(t);
    reveal_strlit("Ctrl");
    reveal_strlit("Shift");
    reveal_strlit("Alt");
    reveal_strlit("Meta");
    let cp = modifier_piece(m.ctrl, "Ctrl"@);
    let sp = modifier_piece(m.shift, "Shift"@);
    let ap = modifier_piece(m.alt, "Alt"@);
    let mp = modifier_piece(m.meta, "Meta"@);
    let rest2 = mp + tt;
    let rest1 = ap + rest2;
    let rest0 = sp + rest1;
    let all = cp + rest0;
    lemma_step_text_pieces(s);
    assert(step_text(s) == all);

    let s0: (Modifiers, Option<TriggerInput>) = (no_modifiers(), None);
    let s1: (Modifiers, Option<TriggerInput>) = (
        Modifiers { ctrl: m.ctrl, shift: false, alt: false, meta: false },
        None,
    );
    let s2: (Modifiers, Option<TriggerInput>) = (
        Modifiers { ctrl: m.ctrl, shift: m.shift, alt: false, meta: false },
        None,
    );
    let s3: (Modifiers, Option<TriggerInput>) = (
        Modifiers { ctrl: m.ctrl, shift: m.shift, alt: m.alt, meta: false },
        None,
    );
    let s4: (Modifiers, Option<TriggerInput>) = (m, None);
    lemma_modifier_names(s0);
    lemma_modifier_names(s1);
    lemma_modifier_names(s2);
    lemma_modifier_names(s3);

    lemma_split_whole(tt, '+');
    let p3 = seq![tt];
    lemma_layer(m.meta, "Meta"@, tt, p3, s3, s4);
    let p2 = (if m.meta { seq!["Meta"@] } else { Seq::empty() }) + p3;
    lemma_layer(m.alt, "Alt"@, rest2, p2, s2, s3);
    let p1 = (if m.alt { seq!["Alt"@] } else { Seq::empty() }) + p2;
    lemma_layer(m.shift, "Shift"@, rest1, p1, s1, s2);
    let p0 = (if m.shift { seq!["Shift"@] } else { Seq::empty() }) + p1;
    lemma_layer(m.ctrl, "Ctrl"@, rest0, p0, s0, s1);
    let pall = (if m.ctrl { seq!["Ctrl"@] } else { Seq::empty() }) + p0;
    assert(split(all, '+') == pall);

    assert(spec_modifier(m, lower(tt)) is None);
    assert(spec_part(s4, tt) == Ok::<(Modifiers, Option<TriggerInput>), Seq<char>>((m, Some(t))));
    assert(spec_parts_from(p3, 1, (m, Some(t))) == Ok::<(Modifiers, Option<TriggerInput>), Seq<char>>((m, Some(t))));
    assert(spec_parts_from(pall, 0, s0) == Ok::<(Modifiers, Option<TriggerInput>), Seq<char>>((m, Some(t))));

    assert(all.len() > 0);
    assert(!is_white(all[0])) by {
        if m.ctrl {
            assert(all[0] == 'C');
        } else if m.shift {
            assert(all[0] == 'S');
        } else if m.alt {
            assert(all[0] == 'A');
        } else if m.meta {
            assert(all[0] == 'M');
        } else {
            assert(all[0] == tt[0]);
        }
    }
    assert(all.last() == tt.last());
    lemma_trim_keeps(all);

    assert(free_of("Ctrl"@, ','));
    assert(free_of("Shift"@, ','));
    assert(free_of("Alt"@, ','));
    assert(free_of("Meta"@, ','));
    lemma_piece_free(m.ctrl, "Ctrl"@);
    lemma_piece_free(m.shift, "Shift"@);
    lemma_piece_free(m.alt, "Alt"@);
    lemma_piece_free(m.meta, "Meta"@);
    lemma_free_concat(mp, tt, ',');
    lemma_free_concat(ap, rest2, ',');
    lemma_free_concat(sp, rest1, ',');
    lemma_free_concat(cp, rest0, ',');
}

// ---------------------------------------------------------------------------
// Whole bindings
// ---------------------------------------------------------------------------

/// The comma-separated pieces of a canonical text: the first step's text, then each
/// further step's text after a space.
pub open spec fn canonical_pieces(steps: Seq<HotkeyStep>) -> Seq<Seq<char>> {
    Seq::new(
        steps.len(),
        |i: int|
            if i == 0 {
                step_text(steps[0])
            } else {
                " "@ + step_text(steps[i])
            },
    )
}

proof fn lemma_split_join(steps: Seq<HotkeyStep>)
    requires
        steps.len() >= 1,
        forall|i: int| 0 <= i < steps.len() ==> free_of(#[trigger] step_text(steps[i]), ','),
    ensures
        split(join_steps(steps), ',') =~= canonical_pieces(steps),
    decreases steps.len(),
{
    reveal_strlit(" ");
    reveal_strlit(", ");
    if steps.len() == 1 {
        assert(free_of(step_text(steps[0]), ','));
        lemma_split_whole(step_text(steps[0]), ',');
    } else {
        let init = steps.drop_last();
        assert forall|i: int| 0 <= i < init.len() implies free_of(#[trigger] step_text(init[i]), ',') by {
            assert(init[i] == steps[i]);
            assert(free_of(step_text(steps[i]), ','));
        }
        lemma_split_join(init);
        let last = step_text(steps.last());
        assert(free_of(step_text(steps[steps.len() - 1]), ','));
        assert(join_steps(steps) =~= join_steps(init) + seq![','] + (" "@ + last));
        lemma_split_around(join_steps(init), " "@ + last, ',');
        assert(free_of(" "@ + last, ',')) by {
            assert forall|i: int| 0 <= i < (" "@ + last).len() implies #[trigger] (" "@ + last)[i] != ',' by {
                if i > 0 {
                    assert((" "@ + last)[i] == last[i - 1]);
                }
            }
        }
        lemma_split_whole(" "@ + last, ',');
        assert forall|i: int| 0 <= i < init.len() implies #[trigger] canonical_pieces(init)[i] == canonical_pieces(steps)[i] by {
            assert(init[i] == steps[i]);
        }
    }
}

proof fn lemma_steps_from_reads(raw: Seq<Seq<char>>, steps: Seq<HotkeyStep>, i: int)
    requires
        raw.len() == steps.len(),
        0 <= i <= raw.len(),
        forall|j: int| 0 <= j < raw.len() ==> spec_parse_step(#[trigger] raw[j]) == Ok::<HotkeyStep, Seq<char>>(steps[j]),
    ensures
        spec_steps_from(raw, i, steps.take(i)) == Ok::<Seq<HotkeyStep>, Seq<char>>(steps),
    decreases raw.len() - i,
{
    if i == raw.len() {
        assert(steps.take(i) =~= steps);
    } else {
        assert(spec_parse_step(raw[i]) == Ok::<HotkeyStep, Seq<char>>(steps[i]));
        assert(steps.take(i).push(steps[i]) =~= steps.take(i + 1));
        lemma_steps_from_reads(raw, steps, i + 1);
    }
}

/// Steps that the parser can return, joined canonically, read back as themselves.
pub proof fn lemma_join_reads_back(steps: Seq<HotkeyStep>)
    requires
        steps.len() >= 1,
        forall|i: int| 0 <= i < steps.len() ==> parsable_trigger(#[trigger] steps[i].trigger),
    ensures
        spec_parse_hotkey(join_steps(steps)) == Ok::<(Seq<char>, Seq<HotkeyStep>), Seq<char>>(
            (join_steps(steps), steps),
        ),
{
    assert forall|i: int| 0 <= i < steps.len() implies free_of(#[trigger] step_text(steps[i]), ',') by {
        assert(parsable_trigger(steps[i].trigger));
        lemma_step_reads_back(steps[i]);
    }
    lemma_split_join(steps);
    let raw = split(join_steps(steps), ',');
    assert forall|j: int| 0 <= j < raw.len() implies spec_parse_step(#[trigger] raw[j]) == Ok::<HotkeyStep, Seq<char>>(steps[j]) by {
        assert(parsable_trigger(steps[j].trigger));
        lemma_step_reads_back(steps[j]);
        assert(raw[j] == canonical_pieces(steps)[j]);
    }
    lemma_steps_from_reads(raw, steps, 0);
    assert(steps.take(0) =~= Seq::<HotkeyStep>::empty());
}

// ---------------------------------------------------------------------------
// What the parser returns
// ---------------------------------------------------------------------------

proof fn lemma_trigger_parsable(p: Seq<char>, t: TriggerInput)
    requires
        free_of(p, ','),
        free_of(p, '+'),
        spec_trigger(trim(p)) == Some(t),
    ensures
        parsable_trigger(t),
{
    let x = trim(p);
    lemma_trim_free(p, ',');
    lemma_trim_free(p, '+');
    let y = trim(x);
    lemma_trim_free(x, ',');
    lemma_trim_free(x, '+');
    lemma_trim_ends(x);
    let l = lower(y);
    match t {
        TriggerInput::Key(KeyToken::Char(c)) => {
            reveal_strlit("`");
            assert(spec_key_token(x) == Some(KeyToken::Char(c)));
            assert(l.len() == 1);
            assert(c == l[0]);
            assert(c == lower_char(y[0]));
            assert(y[0] != ',' && y[0] != '+');
            assert(!is_white(y[0]));
            assert(l != "`"@);
            assert(c != '`') by {
                if c == '`' {
                    assert(l =~= "`"@);
                }
            }
        },
        _ => {},
    }
}

proof fn lemma_parts_trigger(
    parts: Seq<Seq<char>>,
    i: int,
    st: (Modifiers, Option<TriggerInput>),
    res: (Modifiers, Option<TriggerInput>),
    t: TriggerInput,
)
    requires
        0 <= i,
        spec_parts_from(parts, i, st) == Ok::<(Modifiers, Option<TriggerInput>), Seq<char>>(res),
        res.1 == Some(t),
    ensures
        st.1 == Some(t) || exists|j: int| i <= j < parts.len() && spec_trigger(trim(#[trigger] parts[j])) == Some(t),
    decreases parts.len() - i,
{
    if i < parts.len() {
        match spec_part(st, parts[i]) {
            Err(e) => {},
            Ok(st2) => {
                lemma_parts_trigger(parts, i + 1, st2, res, t);
                if st2.1 == Some(t) && st.1 != Some(t) {
                    assert(spec_trigger(trim(parts[i])) == Some(t));
                }
            },
        }
    }
}

proof fn lemma_step_parsable(raw: Seq<char>, s: HotkeyStep)
    requires
        free_of(raw, ','),
        spec_parse_step(raw) == Ok::<HotkeyStep, Seq<char>>(s),
    ensures
        parsable_trigger(s.trigger),
{
    let r = trim(raw);
    lemma_trim_free(raw, ',');
    let parts = split(r, '+');
    lemma_split_pieces_free(r, '+');
    lemma_split_pieces_keep_free(r, '+', ',');
    let res = spec_parts_from(parts, 0, (no_modifiers(), None));
    assert(res matches Ok((m, Some(t))) && m == s.modifiers && t == s.trigger);
    let st_end = res->Ok_0;
    lemma_parts_trigger(parts, 0, (no_modifiers(), None), st_end, s.trigger);
    let j = choose|j: int| 0 <= j < parts.len() && spec_trigger(trim(#[trigger] parts[j])) == Some(s.trigger);
    lemma_trigger_parsable(parts[j], s.trigger);
}

proof fn lemma_steps_from_ok(raw: Seq<Seq<char>>, i: int, acc: Seq<HotkeyStep>, res: Seq<HotkeyStep>)
    requires
        0 <= i <= raw.len(),
        spec_steps_from(raw, i, acc) == Ok::<Seq<HotkeyStep>, Seq<char>>(res),
    ensures
        res.len() == acc.len() + raw.len() - i,
        forall|k: int| 0 <= k < acc.len() ==> res[k] == acc[k],
        forall|j: int| i <= j < raw.len() ==> spec_parse_step(#[trigger] raw[j]) == Ok::<HotkeyStep, Seq<char>>(res[acc.len() + j - i]),
    decreases raw.len() - i,
{
    if i < raw.len() {
        match spec_parse_step(raw[i]) {
            Err(e) => {},
            Ok(step) => {
                lemma_steps_from_ok(raw, i + 1, acc.push(step), res);
                assert(res[acc.len() as int] == acc.push(step)[acc.len() as int]);
                assert forall|k: int| 0 <= k < acc.len() implies res[k] == acc[k] by {
                    assert(res[k] == acc.push(step)[k]);
                }
            },
        }
    }
}

/// Law: the normalized text of a binding reads back as the same binding. Parsing the
/// text that a successful parse returns succeeds, with that text and the same steps.
pub proof fn law_normalized_binding_reads_back(
    input: Seq<char>,
    normalized: Seq<char>,
    steps: Seq<HotkeyStep>,
)
    requires
        spec_parse_hotkey(input) == Ok::<(Seq<char>, Seq<HotkeyStep>), Seq<char>>(
            (normalized, steps),
        ),
    ensures
        spec_parse_hotkey(normalized) == Ok::<(Seq<char>, Seq<HotkeyStep>), Seq<char>>(
            (normalized, steps),
        ),
{
    let raw = split(input, ',');
    lemma_split_nonempty(input, ',');
    lemma_split_pieces_free(input, ',');
    let parsed = spec_steps_from(raw, 0, Seq::empty());
    assert(parsed == Ok::<Seq<HotkeyStep>, Seq<char>>(steps));
    lemma_steps_from_ok(raw, 0, Seq::empty(), steps);
    assert forall|i: int| 0 <= i < steps.len() implies parsable_trigger(#[trigger] steps[i].trigger) by {
        assert(spec_parse_step(raw[i]) == Ok::<HotkeyStep, Seq<char>>(steps[i]));
        lemma_step_parsable(raw[i], steps[i]);
    }
    lemma_join_reads_back(steps);
}

// ---------------------------------------------------------------------------
// Letter case does not matter
// ---------------------------------------------------------------------------

/// Two results of the parser agree: both succeed with the same value, or both fail.
pub open spec fn same_outcome<T>(a: Result<T, Seq<char>>, b: Result<T, Seq<char>>) -> bool {
    &&& (a is Ok <==> b is Ok)
    &&& (a is Ok ==> a == b)
}

proof fn lemma_part_case(st: (Modifiers, Option<TriggerInput>), p1: Seq<char>, p2: Seq<char>)
    requires
        lower(p1) == lower(p2),
    ensures
        same_outcome(spec_part(st, p1), spec_part(st, p2)),
{
    let t1 = trim(p1);
    let t2 = trim(p2);
    lemma_lower_trim(p1);
    lemma_lower_trim(p2);
    assert(lower(t1) == lower(t2));
    assert(t1.len() == lower(t1).len());
    assert(t2.len() == lower(t2).len());
    lemma_lower_trim(t1);
    lemma_lower_trim(t2);
    assert(lower(trim(t1)) == lower(trim(t2)));
    assert(spec_key_token(t1) == spec_key_token(t2));
    assert(spec_mouse_token(t1) == spec_mouse_token(t2));
    assert(spec_trigger(t1) == spec_trigger(t2));
}

proof fn lemma_parts_case(
    a: Seq<Seq<char>>,
    b: Seq<Seq<char>>,
    i: int,
    st: (Modifiers, Option<TriggerInput>),
)
    requires
        a.len() == b.len(),
        0 <= i,
        forall|j: int| 0 <= j < a.len() ==> lower(#[trigger] a[j]) == lower(b[j]),
    ensures
        same_outcome(spec_parts_from(a, i, st), spec_parts_from(b, i, st)),
    decreases a.len() - i,
{
    if i < a.len() {
        assert(lower(a[i]) == lower(b[i]));
        lemma_part_case(st, a[i], b[i]);
        match spec_part(st, a[i]) {
            Err(e) => {},
            Ok(st2) => {
                lemma_parts_case(a, b, i + 1, st2);
            },
        }
    }
}

proof fn lemma_step_case(r1: Seq<char>, r2: Seq<char>)
    requires
        lower(r1) == lower(r2),
    ensures
        same_outcome(spec_parse_step(r1), spec_parse_step(r2)),
{
    let t1 = trim(r1);
    let t2 = trim(r2);
    lemma_lower_trim(r1);
    lemma_lower_trim(r2);
    assert(lower(t1) == lower(t2));
    assert(t1.len() == lower(t1).len());
    assert(t2.len() == lower(t2).len());
    lemma_split_lower(t1, '+');
    lemma_split_lower(t2, '+');
    let a = split(t1, '+');
    let b = split(t2, '+');
    assert(a.map_values(|p: Seq<char>| lower(p)) == b.map_values(|p: Seq<char>| lower(p)));
    assert(a.len() == b.len()) by {
        assert(a.map_values(|p: Seq<char>| lower(p)).len() == a.len());
        assert(b.map_values(|p: Seq<char>| lower(p)).len() == b.len());
    }
    assert forall|j: int| 0 <= j < a.len() implies lower(#[trigger] a[j]) == lower(b[j]) by {
        assert(a.map_values(|p: Seq<char>| lower(p))[j] == lower(a[j]));
        assert(b.map_values(|p: Seq<char>| lower(p))[j] == lower(b[j]));
    }
    lemma_parts_case(a, b, 0, (no_modifiers(), None));
}

proof fn lemma_steps_case(a: Seq<Seq<char>>, b: Seq<Seq<char>>, i: int, acc: Seq<HotkeyStep>)
    requires
        a.len() == b.len(),
        0 <= i,
        forall|j: int| 0 <= j < a.len() ==> lower(#[trigger] a[j]) == lower(b[j]),
    ensures
        same_outcome(spec_steps_from(a, i, acc), spec_steps_from(b, i, acc)),
    decreases a.len() - i,
{
    if i < a.len() {
        assert(lower(a[i]) == lower(b[i]));
        lemma_step_case(a[i], b[i]);
        match spec_parse_step(a[i]) {
            Err(e) => {},
            Ok(step) => {
                lemma_steps_case(a, b, i + 1, acc.push(step));
            },
        }
    }
}

/// Law: letter case does not matter. Two bindings that differ only in the case of ASCII
/// letters both parse or both fail, and when they parse they give the same canonical
/// text and the same steps. (Only the token quoted in an error message keeps its case.)
pub proof fn law_letter_case_is_ignored(s1: Seq<char>, s2: Seq<char>)
    requires
        lower(s1) == lower(s2),
    ensures
        same_outcome(spec_parse_hotkey(s1), spec_parse_hotkey(s2)),
{
    lemma_split_lower(s1, ',');
    lemma_split_lower(s2, ',');
    let a = split(s1, ',');
    let b = split(s2, ',');
    assert(a.map_values(|p: Seq<char>| lower(p)) == b.map_values(|p: Seq<char>| lower(p)));
    assert(a.len() == b.len()) by {
        assert(a.map_values(|p: Seq<char>| lower(p)).len() == a.len());
        assert(b.map_values(|p: Seq<char>| lower(p)).len() == b.len());
    }
    assert forall|j: int| 0 <= j < a.len() implies lower(#[trigger] a[j]) == lower(b[j]) by {
        assert(a.map_values(|p: Seq<char>| lower(p))[j] == lower(a[j]));
        assert(b.map_values(|p: Seq<char>| lower(p))[j] == lower(b[j]));
    }
    lemma_steps_case(a, b, 0, Seq::empty());
}

/// `str::to_ascii_uppercase`, character by character.
pub open spec fn upper(s: Seq<char>) -> Seq<char> {
    s.map_values(|c: char| upper_char(c))
}

/// Law: a binding written in upper case parses as it does in its own case.
pub proof fn law_upper_case_binding(s: Seq<char>)
    ensures
        same_outcome(spec_parse_hotkey(upper(s)), spec_parse_hotkey(s)),
{
    assert(lower(upper(s)) =~= lower(s));
    law_letter_case_is_ignored(upper(s), s);
}

// ---------------------------------------------------------------------------
// Spaces beside a separator do not matter
// ---------------------------------------------------------------------------

/// The pieces are pairwise the same once trimmed.
pub open spec fn same_trimmed(a: Seq<Seq<char>>, b: Seq<Seq<char>>) -> bool {
    &&& a.len() == b.len()
    &&& forall|j: int| 0 <= j < a.len() ==> trim(#[trigger] a[j]) == trim(b[j])
}

proof fn lemma_white_free(w: Seq<char>, sep: char)
    requires
        all_white(w),
        !is_white(sep),
    ensures
        free_of(w, sep),
{
    assert forall|i: int| 0 <= i < w.len() implies #[trigger] w[i] != sep by {
        assert(is_white(w[i]));
    }
}

proof fn lemma_white_prefix_pieces(w: Seq<char>, t: Seq<char>, sep: char)
    requires
        all_white(w),
        !is_white(sep),
    ensures
        same_trimmed(split(w + t, sep), split(t, sep)),
{
    lemma_white_free(w, sep);
    lemma_split_whole(w, sep);
    lemma_split_concat(w, t, sep);
    let st = split(t, sep);
    assert(split(w + t, sep) =~= seq![w + st[0]] + st.drop_first());
    assert(all_white(Seq::<char>::empty()));
    lemma_trim_white_around(w, st[0], Seq::<char>::empty());
    assert(w + st[0] + Seq::<char>::empty() =~= w + st[0]);
    assert forall|j: int| 0 <= j < st.len() implies trim(#[trigger] split(w + t, sep)[j]) == trim(st[j]) by {
        if j > 0 {
            assert(split(w + t, sep)[j] == st[j]);
        }
    }
}

proof fn lemma_white_suffix_pieces(t: Seq<char>, w: Seq<char>, sep: char)
    requires
        all_white(w),
        !is_white(sep),
    ensures
        same_trimmed(split(t + w, sep), split(t, sep)),
{
    lemma_white_free(w, sep);
    lemma_split_whole(w, sep);
    lemma_split_concat(t, w, sep);
    let st = split(t, sep);
    assert(split(t + w, sep) =~= st.drop_last() + seq![st.last() + w]);
    assert(all_white(Seq::<char>::empty()));
    lemma_trim_white_around(Seq::<char>::empty(), st.last(), w);
    assert(Seq::<char>::empty() + st.last() + w =~= st.last() + w);
    assert forall|j: int| 0 <= j < st.len() implies trim(#[trigger] split(t + w, sep)[j]) == trim(st[j]) by {
        if j < st.len() - 1 {
            assert(split(t + w, sep)[j] == st[j]);
        }
    }
}

proof fn lemma_parts_trimmed(a: Seq<Seq<char>>, b: Seq<Seq<char>>, i: int, st: (Modifiers, Option<TriggerInput>))
    requires
        same_trimmed(a, b),
        0 <= i,
    ensures
        spec_parts_from(a, i, st) == spec_parts_from(b, i, st),
    decreases a.len() - i,
{
    if i < a.len() {
        assert(trim(a[i]) == trim(b[i]));
        assert(spec_part(st, a[i]) == spec_part(st, b[i]));
        match spec_part(st, a[i]) {
            Err(e) => {},
            Ok(st2) => {
                lemma_parts_trimmed(a, b, i + 1, st2);
            },
        }
    }
}

/// A step that is not blank reads the same from its `+`-pieces as from those of its trim.
proof fn lemma_step_untrimmed(raw: Seq<char>)
    requires
        trim(raw).len() > 0,
    ensures
        spec_parts_from(split(trim(raw), '+'), 0, (no_modifiers(), None)) == spec_parts_from(
            split(raw, '+'),
            0,
            (no_modifiers(), None),
        ),
{
    lemma_trim_decompose(raw);
    let (w1, w2) = choose|w1: Seq<char>, w2: Seq<char>|
        all_white(w1) && all_white(w2) && raw == w1 + #[trigger] trim(raw) + w2;
    let t = trim(raw);
    lemma_white_prefix_pieces(w1, t, '+');
    lemma_white_suffix_pieces(w1 + t, w2, '+');
    let a = split(raw, '+');
    let m = split(w1 + t, '+');
    let b = split(t, '+');
    assert(same_trimmed(a, b)) by {
        assert forall|j: int| 0 <= j < a.len() implies trim(#[trigger] a[j]) == trim(b[j]) by {
            assert(trim(a[j]) == trim(m[j]));
            assert(trim(m[j]) == trim(b[j]));
        }
    }
    lemma_parts_trimmed(a, b, 0, (no_modifiers(), None));
}

proof fn lemma_trimmed_concat(x: Seq<Seq<char>>, a: Seq<Seq<char>>, b: Seq<Seq<char>>, y: Seq<Seq<char>>)
    requires
        same_trimmed(a, b),
    ensures
        same_trimmed(x + a + y, x + b + y),
{
    assert forall|j: int| 0 <= j < (x + a + y).len() implies trim(#[trigger] (x + a + y)[j]) == trim((x + b + y)[j]) by {
        if j < x.len() {
        } else if j < x.len() + a.len() {
            assert((x + a + y)[j] == a[j - x.len()]);
            assert((x + b + y)[j] == b[j - x.len()]);
        } else {
            assert((x + a + y)[j] == y[j - x.len() - a.len()]);
            assert((x + b + y)[j] == y[j - x.len() - b.len()]);
        }
    }
}

/// A space written next to a `+`, or at either end of a step, leaves the step's reading
/// unchanged.
proof fn lemma_step_space(l: Seq<char>, f: Seq<char>)
    requires
        l.len() == 0 || f.len() == 0 || (l.len() > 0 && l.last() == '+') || (f.len() > 0 && f[0]
            == '+'),
    ensures
        spec_parse_step(l + seq![' '] + f) == spec_parse_step(l + f),
{
    let p = l + f;
    let q = l + seq![' '] + f;
    assert(all_white(seq![' ']));
    assert(all_white(Seq::<char>::empty()));
    if l.len() == 0 {
        lemma_trim_white_around(seq![' '], f, Seq::<char>::empty());
        assert(q =~= seq![' '] + f + Seq::<char>::empty());
        assert(p =~= f);
    } else if f.len() == 0 {
        lemma_trim_white_around(Seq::<char>::empty(), l, seq![' ']);
        assert(q =~= Seq::<char>::empty() + l + seq![' ']);
        assert(p =~= l);
    } else {
        let k: int = if l.last() == '+' { l.len() - 1 } else { l.len() as int };
        assert(p[k] == '+');
        let kq: int = if l.last() == '+' { k } else { k + 1 };
        assert(q[kq] == '+');
        lemma_trim_nonempty(p, k);
        lemma_trim_nonempty(q, kq);
        lemma_step_untrimmed(p);
        lemma_step_untrimmed(q);
        if l.last() == '+' {
            let l0 = l.drop_last();
            assert(p =~= l0 + seq!['+'] + f);
            assert(q =~= l0 + seq!['+'] + (seq![' '] + f));
            lemma_split_around(l0, f, '+');
            lemma_split_around(l0, seq![' '] + f, '+');
            lemma_white_prefix_pieces(seq![' '], f, '+');
            lemma_trimmed_concat(split(l0, '+'), split(seq![' '] + f, '+'), split(f, '+'), Seq::empty());
            assert(split(l0, '+') + split(seq![' '] + f, '+') + Seq::<Seq<char>>::empty() =~= split(q, '+'));
            assert(split(l0, '+') + split(f, '+') + Seq::<Seq<char>>::empty() =~= split(p, '+'));
            lemma_parts_trimmed(split(q, '+'), split(p, '+'), 0, (no_modifiers(), None));
        } else {
            let f0 = f.drop_first();
            assert(p =~= l + seq!['+'] + f0);
            assert(q =~= (l + seq![' ']) + seq!['+'] + f0);
            lemma_split_around(l, f0, '+');
            lemma_split_around(l + seq![' '], f0, '+');
            lemma_white_suffix_pieces(l, seq![' '], '+');
            lemma_trimmed_concat(Seq::empty(), split(l + seq![' '], '+'), split(l, '+'), split(f0, '+'));
            assert(Seq::<Seq<char>>::empty() + split(l + seq![' '], '+') + split(f0, '+') =~= split(q, '+'));
            assert(Seq::<Seq<char>>::empty() + split(l, '+') + split(f0, '+') =~= split(p, '+'));
            lemma_parts_trimmed(split(q, '+'), split(p, '+'), 0, (no_modifiers(), None));
        }
    }
}

proof fn lemma_steps_same(a: Seq<Seq<char>>, b: Seq<Seq<char>>, i: int, acc: Seq<HotkeyStep>)
    requires
        a.len() == b.len(),
        0 <= i,
        forall|j: int| 0 <= j < a.len() ==> spec_parse_step(#[trigger] a[j]) == spec_parse_step(b[j]),
    ensures
        spec_steps_from(a, i, acc) == spec_steps_from(b, i, acc),
    decreases a.len() - i,
{
    if i < a.len() {
        assert(spec_parse_step(a[i]) == spec_parse_step(b[i]));
        match spec_parse_step(a[i]) {
            Err(e) => {},
            Ok(step) => {
                lemma_steps_same(a, b, i + 1, acc.push(step));
            },
        }
    }
}

/// A space written right after `a` and right before `b`, where one of them ends or starts
/// with a separator.
pub open spec fn beside_separator(a: Seq<char>, b: Seq<char>) -> bool {
    ||| (a.len() > 0 && (a.last() == ',' || a.last() == '+'))
    ||| (b.len() > 0 && (b[0] == ',' || b[0] == '+'))
}

/// Law: a space written before or after a `,` or a `+` changes nothing: the binding
/// parses to the same result, or fails with the same error.
pub proof fn law_space_beside_separator_is_ignored(a: Seq<char>, b: Seq<char>)
    requires
        beside_separator(a, b),
    ensures
        spec_parse_hotkey(a + seq![' '] + b) == spec_parse_hotkey(a + b),
{
    let x = a + b;
    let y = a + seq![' '] + b;
    lemma_split_concat(a, b, ',');
    lemma_split_concat(a, seq![' '] + b, ',');
    lemma_split_concat(seq![' '], b, ',');
    lemma_split_whole(seq![' '], ',');
    assert(y =~= a + (seq![' '] + b));
    let sa = split(a, ',');
    let sb = split(b, ',');
    let lp = sa.last();
    let fp = sb[0];
    assert(split(seq![' '] + b, ',') =~= seq![seq![' '] + fp] + sb.drop_first());
    let px = split(x, ',');
    let py = split(y, ',');
    assert(px =~= sa.drop_last() + seq![lp + fp] + sb.drop_first());
    assert(py =~= sa.drop_last() + seq![lp + (seq![' '] + fp)] + sb.drop_first());
    let k = sa.len() - 1;
    assert(lp + (seq![' '] + fp) =~= lp + seq![' '] + fp);
    assert(lp.len() == 0 || fp.len() == 0 || (lp.len() > 0 && lp.last() == '+') || (fp.len() > 0
        && fp[0] == '+')) by {
        if a.len() > 0 && (a.last() == ',' || a.last() == '+') {
            lemma_split_nonempty(a.drop_last(), ',');
            assert(a.drop_last().push(a.last()) =~= a);
        } else {
            let b0 = b.drop_first();
            if b[0] == ',' {
                lemma_split_around(Seq::empty(), b0, ',');
                assert(Seq::<char>::empty() + seq![','] + b0 =~= b);
            } else {
                lemma_split_concat(seq!['+'], b0, ',');
                lemma_split_whole(seq!['+'], ',');
                assert(seq!['+'] + b0 =~= b);
            }
        }
    }
    lemma_step_space(lp, fp);
    assert forall|j: int| 0 <= j < py.len() implies spec_parse_step(#[trigger] py[j]) == spec_parse_step(px[j]) by {
        if j == k {
            assert(py[j] == lp + seq![' '] + fp);
            assert(px[j] == lp + fp);
        } else if j < k {
            assert(py[j] == px[j]);
        } else {
            assert(py[j] == sb.drop_first()[j - k - 1]);
            assert(px[j] == sb.drop_first()[j - k - 1]);
        }
    }
    lemma_steps_same(py, px, 0, Seq::empty());
}

// ---------------------------------------------------------------------------
// Mouse button names
// ---------------------------------------------------------------------------

proof fn lemma_alias_mouseleft(t: Seq<char>)
    requires
        lower(trim(t)) == "mouseleft"@,
    ensures
        spec_trigger(t) == Some(TriggerInput::Mouse(MouseButtonToken::Left)),
        forall|m: Modifiers| #[trigger] spec_modifier(m, lower(trim(t))) is None,
        free_of("mouseleft"@, ','),
        free_of("mouseleft"@, '+'),
{
    let l = lower(trim(t));
    reveal_strlit("`");
    reveal_strlit("ctrl");
    reveal_strlit("control");
    reveal_strlit("shift");
    reveal_strlit("alt");
    reveal_strlit("option");
    reveal_strlit("meta");
    reveal_strlit("cmd");
    reveal_strlit("command");
    reveal_strlit("win");
    reveal_strlit("super");
    reveal_strlit("backquote");
    reveal_strlit("grave");
    reveal_strlit("space");
    reveal_strlit("tab");
    reveal_strlit("enter");
    reveal_strlit("return");
    reveal_strlit("escape");
    reveal_strlit("esc");
    reveal_strlit("mouseleft");
    reveal_strlit("leftmouse");
    reveal_strlit("mouse1");
    reveal_strlit("mouseright");
    reveal_strlit("rightmouse");
    reveal_strlit("mouse2");
    reveal_strlit("mousemiddle");
    reveal_strlit("middlemouse");
    reveal_strlit("mouse3");
    reveal_strlit("mouse4");
    reveal_strlit("x1");
    reveal_strlit("mouse5");
    reveal_strlit("x2");
    assert(l[0] != "backquote"@[0]);
    assert(l[0] != "leftmouse"@[0]);
    assert(l[0] != 'f');
    lemma_no_modifier(l);
}

proof fn lemma_alias_leftmouse(t: Seq<char>)
    requires
        lower(trim(t)) == "leftmouse"@,
    ensures
        spec_trigger(t) == Some(TriggerInput::Mouse(MouseButtonToken::Left)),
        forall|m: Modifiers| #[trigger] spec_modifier(m, lower(trim(t))) is None,
        free_of("leftmouse"@, ','),
        free_of("leftmouse"@, '+'),
{
    let l = lower(trim(t));
    reveal_strlit("`");
    reveal_strlit("ctrl");
    reveal_strlit("control");
    reveal_strlit("shift");
    reveal_strlit("alt");
    reveal_strlit("option");
    reveal_strlit("meta");
    reveal_strlit("cmd");
    reveal_strlit("command");
    reveal_strlit("win");
    reveal_strlit("super");
    reveal_strlit("backquote");
    reveal_strlit("grave");
    reveal_strlit("space");
    reveal_strlit("tab");
    reveal_strlit("enter");
    reveal_strlit("return");
    reveal_strlit("escape");
    reveal_strlit("esc");
    reveal_strlit("mouseleft");
    reveal_strlit("leftmouse");
    reveal_strlit("mouse1");
    reveal_strlit("mouseright");
    reveal_strlit("rightmouse");
    reveal_strlit("mouse2");
    reveal_strlit("mousemiddle");
    reveal_strlit("middlemouse");
    reveal_strlit("mouse3");
    reveal_strlit("mouse4");
    reveal_strlit("x1");
    reveal_strlit("mouse5");
    reveal_strlit("x2");
    assert(l[0] != "backquote"@[0]);
    assert(l[0] != "mouseleft"@[0]);
    assert(l[0] != 'f');
    lemma_no_modifier(l);
}

proof fn lemma_alias_mouse1(t: Seq<char>)
    requires
        lower(trim(t)) == "mouse1"@,
    ensures
        spec_trigger(t) == Some(TriggerInput::Mouse(MouseButtonToken::Left)),
        forall|m: Modifiers| #[trigger] spec_modifier(m, lower(trim(t))) is None,
        free_of("mouse1"@, ','),
        free_of("mouse1"@, '+'),
{
    let l = lower(trim(t));
    reveal_strlit("`");
    reveal_strlit("ctrl");
    reveal_strlit("control");
    reveal_strlit("shift");
    reveal_strlit("alt");
    reveal_strlit("option");
    reveal_strlit("meta");
    reveal_strlit("cmd");
    reveal_strlit("command");
    reveal_strlit("win");
    reveal_strlit("super");
    reveal_strlit("backquote");
    reveal_strlit("grave");
    reveal_strlit("space");
    reveal_strlit("tab");
    reveal_strlit("enter");
    reveal_strlit("return");
    reveal_strlit("escape");
    reveal_strlit("esc");
    reveal_strlit("mouseleft");
    reveal_strlit("leftmouse");
    reveal_strlit("mouse1");
    reveal_strlit("mouseright");
    reveal_strlit("rightmouse");
    reveal_strlit("mouse2");
    reveal_strlit("mousemiddle");
    reveal_strlit("middlemouse");
    reveal_strlit("mouse3");
    reveal_strlit("mouse4");
    reveal_strlit("x1");
    reveal_strlit("mouse5");
    reveal_strlit("x2");
    assert(l[0] != "option"@[0]);
    assert(l[0] != "return"@[0]);
    assert(l[0] != "escape"@[0]);
    assert(l[5] != "mouse2"@[5]);
    assert(l[5] != "mouse3"@[5]);
    assert(l[5] != "mouse4"@[5]);
    assert(l[5] != "mouse5"@[5]);
    assert(l[0] != 'f');
    lemma_no_modifier(l);
}

proof fn lemma_alias_mouseright(t: Seq<char>)
    requires
        lower(trim(t)) == "mouseright"@,
    ensures
        spec_trigger(t) == Some(TriggerInput::Mouse(MouseButtonToken::Right)),
        forall|m: Modifiers| #[trigger] spec_modifier(m, lower(trim(t))) is None,
        free_of("mouseright"@, ','),
        free_of("mouseright"@, '+'),
{
    let l = lower(trim(t));
    reveal_strlit("`");
    reveal_strlit("ctrl");
    reveal_strlit("control");
    reveal_strlit("shift");
    reveal_strlit("alt");
    reveal_strlit("option");
    reveal_strlit("meta");
    reveal_strlit("cmd");
    reveal_strlit("command");
    reveal_strlit("win");
    reveal_strlit("super");
    reveal_strlit("backquote");
    reveal_strlit("grave");
    reveal_strlit("space");
    reveal_strlit("tab");
    reveal_strlit("enter");
    reveal_strlit("return");
    reveal_strlit("escape");
    reveal_strlit("esc");
    reveal_strlit("mouseleft");
    reveal_strlit("leftmouse");
    reveal_strlit("mouse1");
    reveal_strlit("mouseright");
    reveal_strlit("rightmouse");
    reveal_strlit("mouse2");
    reveal_strlit("mousemiddle");
    reveal_strlit("middlemouse");
    reveal_strlit("mouse3");
    reveal_strlit("mouse4");
    reveal_strlit("x1");
    reveal_strlit("mouse5");
    reveal_strlit("x2");
    assert(l[0] != "rightmouse"@[0]);
    assert(l[0] != 'f');
    lemma_no_modifier(l);
}

proof fn lemma_alias_rightmouse(t: Seq<char>)
    requires
        lower(trim(t)) == "rightmouse"@,
    ensures
        spec_trigger(t) == Some(TriggerInput::Mouse(MouseButtonToken::Right)),
        forall|m: Modifiers| #[trigger] spec_modifier(m, lower(trim(t))) is None,
        free_of("rightmouse"@, ','),
        free_of("rightmouse"@, '+'),
{
    let l = lower(trim(t));
    reveal_strlit("`");
    reveal_strlit("ctrl");
    reveal_strlit("control");
    reveal_strlit("shift");
    reveal_strlit("alt");
    reveal_strlit("option");
    reveal_strlit("meta");
    reveal_strlit("cmd");
    reveal_strlit("command");
    reveal_strlit("win");
    reveal_strlit("super");
    reveal_strlit("backquote");
    reveal_strlit("grave");
    reveal_strlit("space");
    reveal_strlit("tab");
    reveal_strlit("enter");
    reveal_strlit("return");
    reveal_strlit("escape");
    reveal_strlit("esc");
    reveal_strlit("mouseleft");
    reveal_strlit("leftmouse");
    reveal_strlit("mouse1");
    reveal_strlit("mouseright");
    reveal_strlit("rightmouse");
    reveal_strlit("mouse2");
    reveal_strlit("mousemiddle");
    reveal_strlit("middlemouse");
    reveal_strlit("mouse3");
    reveal_strlit("mouse4");
    reveal_strlit("x1");
    reveal_strlit("mouse5");
    reveal_strlit("x2");
    assert(l[0] != "mouseright"@[0]);
    assert(l[0] != 'f');
    lemma_no_modifier(l);
}

proof fn lemma_alias_mouse2(t: Seq<char>)
    requires
        lower(trim(t)) == "mouse2"@,
    ensures
        spec_trigger(t) == Some(TriggerInput::Mouse(MouseButtonToken::Right)),
        forall|m: Modifiers| #[trigger] spec_modifier(m, lower(trim(t))) is None,
        free_of("mouse2"@, ','),
        free_of("mouse2"@, '+'),
{
    let l = lower(trim(t));
    reveal_strlit("`");
    reveal_strlit("ctrl");
    reveal_strlit("control");
    reveal_strlit("shift");
    reveal_strlit("alt");
    reveal_strlit("option");
    reveal_strlit("meta");
    reveal_strlit("cmd");
    reveal_strlit("command");
    reveal_strlit("win");
    reveal_strlit("super");
    reveal_strlit("backquote");
    reveal_strlit("grave");
    reveal_strlit("space");
    reveal_strlit("tab");
    reveal_strlit("enter");
    reveal_strlit("return");
    reveal_strlit("escape");
    reveal_strlit("esc");
    reveal_strlit("mouseleft");
    reveal_strlit("leftmouse");
    reveal_strlit("mouse1");
    reveal_strlit("mouseright");
    reveal_strlit("rightmouse");
    reveal_strlit("mouse2");
    reveal_strlit("mousemiddle");
    reveal_strlit("middlemouse");
    reveal_strlit("mouse3");
    reveal_strlit("mouse4");
    reveal_strlit("x1");
    reveal_strlit("mouse5");
    reveal_strlit("x2");
    assert(l[0] != "option"@[0]);
    assert(l[0] != "return"@[0]);
    assert(l[0] != "escape"@[0]);
    assert(l[5] != "mouse1"@[5]);
    assert(l[5] != "mouse3"@[5]);
    assert(l[5] != "mouse4"@[5]);
    assert(l[5] != "mouse5"@[5]);
    assert(l[0] != 'f');
    lemma_no_modifier(l);
}

proof fn lemma_alias_mousemiddle(t: Seq<char>)
    requires
        lower(trim(t)) == "mousemiddle"@,
    ensures
        spec_trigger(t) == Some(TriggerInput::Mouse(MouseButtonToken::Middle)),
        forall|m: Modifiers| #[trigger] spec_modifier(m, lower(trim(t))) is None,
        free_of("mousemiddle"@, ','),
        free_of("mousemiddle"@, '+'),
{
    let l = lower(trim(t));
    reveal_strlit("`");
    reveal_strlit("ctrl");
    reveal_strlit("control");
    reveal_strlit("shift");
    reveal_strlit("alt");
    reveal_strlit("option");
    reveal_strlit("meta");
    reveal_strlit("cmd");
    reveal_strlit("command");
    reveal_strlit("win");
    reveal_strlit("super");
    reveal_strlit("backquote");
    reveal_strlit("grave");
    reveal_strlit("space");
    reveal_strlit("tab");
    reveal_strlit("enter");
    reveal_strlit("return");
    reveal_strlit("escape");
    reveal_strlit("esc");
    reveal_strlit("mouseleft");
    reveal_strlit("leftmouse");
    reveal_strlit("mouse1");
    reveal_strlit("mouseright");
    reveal_strlit("rightmouse");
    reveal_strlit("mouse2");
    reveal_strlit("mousemiddle");
    reveal_strlit("middlemouse");
    reveal_strlit("mouse3");
    reveal_strlit("mouse4");
    reveal_strlit("x1");
    reveal_strlit("mouse5");
    reveal_strlit("x2");
    assert(l[1] != "middlemouse"@[1]);
    assert(l[0] != 'f');
    lemma_no_modifier(l);
}

proof fn lemma_alias_middlemouse(t: Seq<char>)
    requires
        lower(trim(t)) == "middlemouse"@,
    ensures
        spec_trigger(t) == Some(TriggerInput::Mouse(MouseButtonToken::Middle)),
        forall|m: Modifiers| #[trigger] spec_modifier(m, lower(trim(t))) is None,
        free_of("middlemouse"@, ','),
        free_of("middlemouse"@, '+'),
{
    let l = lower(trim(t));
    reveal_strlit("`");
    reveal_strlit("ctrl");
    reveal_strlit("control");
    reveal_strlit("shift");
    reveal_strlit("alt");
    reveal_strlit("option");
    reveal_strlit("meta");
    reveal_strlit("cmd");
    reveal_strlit("command");
    reveal_strlit("win");
    reveal_strlit("super");
    reveal_strlit("backquote");
    reveal_strlit("grave");
    reveal_strlit("space");
    reveal_strlit("tab");
    reveal_strlit("enter");
    reveal_strlit("return");
    reveal_strlit("escape");
    reveal_strlit("esc");
    reveal_strlit("mouseleft");
    reveal_strlit("leftmouse");
    reveal_strlit("mouse1");
    reveal_strlit("mouseright");
    reveal_strlit("rightmouse");
    reveal_strlit("mouse2");
    reveal_strlit("mousemiddle");
    reveal_strlit("middlemouse");
    reveal_strlit("mouse3");
    reveal_strlit("mouse4");
    reveal_strlit("x1");
    reveal_strlit("mouse5");
    reveal_strlit("x2");
    assert(l[1] != "mousemiddle"@[1]);
    assert(l[0] != 'f');
    lemma_no_modifier(l);
}

proof fn lemma_alias_mouse3(t: Seq<char>)
    requires
        lower(trim(t)) == "mouse3"@,
    ensures
        spec_trigger(t) == Some(TriggerInput::Mouse(MouseButtonToken::Middle)),
        forall|m: Modifiers| #[trigger] spec_modifier(m, lower(trim(t))) is None,
        free_of("mouse3"@, ','),
        free_of("mouse3"@, '+'),
{
    let l = lower(trim(t));
    reveal_strlit("`");
    reveal_strlit("ctrl");
    reveal_strlit("control");
    reveal_strlit("shift");
    reveal_strlit("alt");
    reveal_strlit("option");
    reveal_strlit("meta");
    reveal_strlit("cmd");
    reveal_strlit("command");
    reveal_strlit("win");
    reveal_strlit("super");
    reveal_strlit("backquote");
    reveal_strlit("grave");
    reveal_strlit("space");
    reveal_strlit("tab");
    reveal_strlit("enter");
    reveal_strlit("return");
    reveal_strlit("escape");
    reveal_strlit("esc");
    reveal_strlit("mouseleft");
    reveal_strlit("leftmouse");
    reveal_strlit("mouse1");
    reveal_strlit("mouseright");
    reveal_strlit("rightmouse");
    reveal_strlit("mouse2");
    reveal_strlit("mousemiddle");
    reveal_strlit("middlemouse");
    reveal_strlit("mouse3");
    reveal_strlit("mouse4");
    reveal_strlit("x1");
    reveal_strlit("mouse5");
    reveal_strlit("x2");
    assert(l[0] != "option"@[0]);
    assert(l[0] != "return"@[0]);
    assert(l[0] != "escape"@[0]);
    assert(l[5] != "mouse1"@[5]);
    assert(l[5] != "mouse2"@[5]);
    assert(l[5] != "mouse4"@[5]);
    assert(l[5] != "mouse5"@[5]);
    assert(l[0] != 'f');
    lemma_no_modifier(l);
}

proof fn lemma_alias_mouse4(t: Seq<char>)
    requires
        lower(trim(t)) == "mouse4"@,
    ensures
        spec_trigger(t) == Some(TriggerInput::Mouse(MouseButtonToken::Button4)),
        forall|m: Modifiers| #[trigger] spec_modifier(m, lower(trim(t))) is None,
        free_of("mouse4"@, ','),
        free_of("mouse4"@, '+'),
{
    let l = lower(trim(t));
    reveal_strlit("`");
    reveal_strlit("ctrl");
    reveal_strlit("control");
    reveal_strlit("shift");
    reveal_strlit("alt");
    reveal_strlit("option");
    reveal_strlit("meta");
    reveal_strlit("cmd");
    reveal_strlit("command");
    reveal_strlit("win");
    reveal_strlit("super");
    reveal_strlit("backquote");
    reveal_strlit("grave");
    reveal_strlit("space");
    reveal_strlit("tab");
    reveal_strlit("enter");
    reveal_strlit("return");
    reveal_strlit("escape");
    reveal_strlit("esc");
    reveal_strlit("mouseleft");
    reveal_strlit("leftmouse");
    reveal_strlit("mouse1");
    reveal_strlit("mouseright");
    reveal_strlit("rightmouse");
    reveal_strlit("mouse2");
    reveal_strlit("mousemiddle");
    reveal_strlit("middlemouse");
    reveal_strlit("mouse3");
    reveal_strlit("mouse4");
    reveal_strlit("x1");
    reveal_strlit("mouse5");
    reveal_strlit("x2");
    assert(l[0] != "option"@[0]);
    assert(l[0] != "return"@[0]);
    assert(l[0] != "escape"@[0]);
    assert(l[5] != "mouse1"@[5]);
    assert(l[5] != "mouse2"@[5]);
    assert(l[5] != "mouse3"@[5]);
    assert(l[5] != "mouse5"@[5]);
    assert(l[0] != 'f');
    lemma_no_modifier(l);
}

proof fn lemma_alias_x1(t: Seq<char>)
    requires
        lower(trim(t)) == "x1"@,
    ensures
        spec_trigger(t) == Some(TriggerInput::Mouse(MouseButtonToken::Button4)),
        forall|m: Modifiers| #[trigger] spec_modifier(m, lower(trim(t))) is None,
        free_of("x1"@, ','),
        free_of("x1"@, '+'),
{
    let l = lower(trim(t));
    reveal_strlit("`");
    reveal_strlit("ctrl");
    reveal_strlit("control");
    reveal_strlit("shift");
    reveal_strlit("alt");
    reveal_strlit("option");
    reveal_strlit("meta");
    reveal_strlit("cmd");
    reveal_strlit("command");
    reveal_strlit("win");
    reveal_strlit("super");
    reveal_strlit("backquote");
    reveal_strlit("grave");
    reveal_strlit("space");
    reveal_strlit("tab");
    reveal_strlit("enter");
    reveal_strlit("return");
    reveal_strlit("escape");
    reveal_strlit("esc");
    reveal_strlit("mouseleft");
    reveal_strlit("leftmouse");
    reveal_strlit("mouse1");
    reveal_strlit("mouseright");
    reveal_strlit("rightmouse");
    reveal_strlit("mouse2");
    reveal_strlit("mousemiddle");
    reveal_strlit("middlemouse");
    reveal_strlit("mouse3");
    reveal_strlit("mouse4");
    reveal_strlit("x1");
    reveal_strlit("mouse5");
    reveal_strlit("x2");
    assert(l[1] != "x2"@[1]);
    assert(l[0] != 'f');
    lemma_no_modifier(l);
}

proof fn lemma_alias_mouse5(t: Seq<char>)
    requires
        lower(trim(t)) == "mouse5"@,
    ensures
        spec_trigger(t) == Some(TriggerInput::Mouse(MouseButtonToken::Button5)),
        forall|m: Modifiers| #[trigger] spec_modifier(m, lower(trim(t))) is None,
        free_of("mouse5"@, ','),
        free_of("mouse5"@, '+'),
{
    let l = lower(trim(t));
    reveal_strlit("`");
    reveal_strlit("ctrl");
    reveal_strlit("control");
    reveal_strlit("shift");
    reveal_strlit("alt");
    reveal_strlit("option");
    reveal_strlit("meta");
    reveal_strlit("cmd");
    reveal_strlit("command");
    reveal_strlit("win");
    reveal_strlit("super");
    reveal_strlit("backquote");
    reveal_strlit("grave");
    reveal_strlit("space");
    reveal_strlit("tab");
    reveal_strlit("enter");
    reveal_strlit("return");
    reveal_strlit("escape");
    reveal_strlit("esc");
    reveal_strlit("mouseleft");
    reveal_strlit("leftmouse");
    reveal_strlit("mouse1");
    reveal_strlit("mouseright");
    reveal_strlit("rightmouse");
    reveal_strlit("mouse2");
    reveal_strlit("mousemiddle");
    reveal_strlit("middlemouse");
    reveal_strlit("mouse3");
    reveal_strlit("mouse4");
    reveal_strlit("x1");
    reveal_strlit("mouse5");
    reveal_strlit("x2");
    assert(l[0] != "option"@[0]);
    assert(l[0] != "return"@[0]);
    assert(l[0] != "escape"@[0]);
    assert(l[5] != "mouse1"@[5]);
    assert(l[5] != "mouse2"@[5]);
    assert(l[5] != "mouse3"@[5]);
    assert(l[5] != "mouse4"@[5]);
    assert(l[0] != 'f');
    lemma_no_modifier(l);
}

proof fn lemma_alias_x2(t: Seq<char>)
    requires
        lower(trim(t)) == "x2"@,
    ensures
        spec_trigger(t) == Some(TriggerInput::Mouse(MouseButtonToken::Button5)),
        forall|m: Modifiers| #[trigger] spec_modifier(m, lower(trim(t))) is None,
        free_of("x2"@, ','),
        free_of("x2"@, '+'),
{
    let l = lower(trim(t));
    reveal_strlit("`");
    reveal_strlit("ctrl");
    reveal_strlit("control");
    reveal_strlit("shift");
    reveal_strlit("alt");
    reveal_strlit("option");
    reveal_strlit("meta");
    reveal_strlit("cmd");
    reveal_strlit("command");
    reveal_strlit("win");
    reveal_strlit("super");
    reveal_strlit("backquote");
    reveal_strlit("grave");
    reveal_strlit("space");
    reveal_strlit("tab");
    reveal_strlit("enter");
    reveal_strlit("return");
    reveal_strlit("escape");
    reveal_strlit("esc");
    reveal_strlit("mouseleft");
    reveal_strlit("leftmouse");
    reveal_strlit("mouse1");
    reveal_strlit("mouseright");
    reveal_strlit("rightmouse");
    reveal_strlit("mouse2");
    reveal_strlit("mousemiddle");
    reveal_strlit("middlemouse");
    reveal_strlit("mouse3");
    reveal_strlit("mouse4");
    reveal_strlit("x1");
    reveal_strlit("mouse5");
    reveal_strlit("x2");
    assert(l[1] != "x1"@[1]);
    assert(l[0] != 'f');
    lemma_no_modifier(l);
}

/// Law: each name of a mouse button names that button. A token that, trimmed and
/// lower-cased, is `mouseleft`, `leftmouse` or `mouse1` is the left button;
/// `mouseright`, `rightmouse` or `mouse2` the right one; `mousemiddle`, `middlemouse` or
/// `mouse3` the middle one; `mouse4` or `x1` the fourth; `mouse5` or `x2` the fifth.
pub proof fn law_mouse_button_names(t: Seq<char>)
    ensures
        (lower(trim(t)) == "mouseleft"@ || lower(trim(t)) == "leftmouse"@ || lower(trim(t)) == "mouse1"@) ==> spec_trigger(t) == Some(TriggerInput::Mouse(MouseButtonToken::Left)),
        (lower(trim(t)) == "mouseright"@ || lower(trim(t)) == "rightmouse"@ || lower(trim(t)) == "mouse2"@) ==> spec_trigger(t) == Some(TriggerInput::Mouse(MouseButtonToken::Right)),
        (lower(trim(t)) == "mousemiddle"@ || lower(trim(t)) == "middlemouse"@ || lower(trim(t)) == "mouse3"@) ==> spec_trigger(t) == Some(TriggerInput::Mouse(MouseButtonToken::Middle)),
        (lower(trim(t)) == "mouse4"@ || lower(trim(t)) == "x1"@) ==> spec_trigger(t) == Some(TriggerInput::Mouse(MouseButtonToken::Button4)),
        (lower(trim(t)) == "mouse5"@ || lower(trim(t)) == "x2"@) ==> spec_trigger(t) == Some(TriggerInput::Mouse(MouseButtonToken::Button5)),
{
    if lower(trim(t)) == "mouseleft"@ {
        lemma_alias_mouseleft(t);
    }
    if lower(trim(t)) == "leftmouse"@ {
        lemma_alias_leftmouse(t);
    }
    if lower(trim(t)) == "mouse1"@ {
        lemma_alias_mouse1(t);
    }
    if lower(trim(t)) == "mouseright"@ {
        lemma_alias_mouseright(t);
    }
    if lower(trim(t)) == "rightmouse"@ {
        lemma_alias_rightmouse(t);
    }
    if lower(trim(t)) == "mouse2"@ {
        lemma_alias_mouse2(t);
    }
    if lower(trim(t)) == "mousemiddle"@ {
        lemma_alias_mousemiddle(t);
    }
    if lower(trim(t)) == "middlemouse"@ {
        lemma_alias_middlemouse(t);
    }
    if lower(trim(t)) == "mouse3"@ {
        lemma_alias_mouse3(t);
    }
    if lower(trim(t)) == "mouse4"@ {
        lemma_alias_mouse4(t);
    }
    if lower(trim(t)) == "x1"@ {
        lemma_alias_x1(t);
    }
    if lower(trim(t)) == "mouse5"@ {
        lemma_alias_mouse5(t);
    }
    if lower(trim(t)) == "x2"@ {
        lemma_alias_x2(t);
    }
}

proof fn lemma_free_from_lower_trim(s: Seq<char>, a: Seq<char>, c: char)
    requires
        lower(trim(s)) == a,
        free_of(a, c),
        !is_ascii_upper(c),
        !is_white(c),
    ensures
        free_of(s, c),
{
    lemma_trim_decompose(s);
    let (w1, w2) = choose|w1: Seq<char>, w2: Seq<char>|
        all_white(w1) && all_white(w2) && s == w1 + #[trigger] trim(s) + w2;
    let t = trim(s);
    lemma_white_free(w1, c);
    lemma_white_free(w2, c);
    assert(free_of(t, c)) by {
        assert forall|i: int| 0 <= i < t.len() implies #[trigger] t[i] != c by {
            assert(lower(t)[i] == lower_char(t[i]));
            assert(a[i] != c);
        }
    }
    lemma_free_concat(w1, t, c);
    lemma_free_concat(w1 + t, w2, c);
}

/// A binding that is a single trigger token reads as that trigger alone.
proof fn lemma_single_token_binding(s: Seq<char>, tr: TriggerInput)
    requires
        free_of(s, ','),
        free_of(s, '+'),
        trim(s).len() > 0,
        forall|m: Modifiers| #[trigger] spec_modifier(m, lower(trim(s))) is None,
        spec_trigger(s) == Some(tr),
    ensures
        spec_parse_hotkey(s) == Ok::<(Seq<char>, Seq<HotkeyStep>), Seq<char>>(
            (trigger_text(tr), seq![HotkeyStep { modifiers: no_modifiers(), trigger: tr }]),
        ),
{
    let r = trim(s);
    lemma_trim_ends(s);
    lemma_trim_keeps(r);
    assert(trim(r) == r);
    assert(spec_trigger(r) == spec_trigger(s));
    lemma_trim_free(s, '+');
    lemma_split_whole(r, '+');
    lemma_split_whole(s, ',');
    assert(spec_modifier(no_modifiers(), lower(r)) is None);
    let step = HotkeyStep { modifiers: no_modifiers(), trigger: tr };
    assert(spec_part((no_modifiers(), None), r) == Ok::<(Modifiers, Option<TriggerInput>), Seq<char>>(
        (no_modifiers(), Some(tr)),
    ));
    assert(spec_parts_from(seq![r], 1, (no_modifiers(), Some(tr))) == Ok::<(Modifiers, Option<TriggerInput>), Seq<char>>(
        (no_modifiers(), Some(tr)),
    ));
    assert(spec_parse_step(s) == Ok::<HotkeyStep, Seq<char>>(step));
    assert(Seq::<HotkeyStep>::empty().push(step) =~= seq![step]);
    assert(spec_steps_from(seq![s], 1, seq![step]) == Ok::<Seq<HotkeyStep>, Seq<char>>(seq![step]));
    assert(modifiers_text(no_modifiers()) =~= Seq::<char>::empty());
    assert(join_steps(seq![step]) =~= trigger_text(tr));
}

/// Law: a binding that is just the name of a mouse button, written in any case and with
/// any white space around it, parses to that button alone, with no modifier, and its
/// canonical text is the button's canonical name.
pub proof fn law_mouse_button_binding(s: Seq<char>)
    ensures
        (lower(trim(s)) == "mouseleft"@ || lower(trim(s)) == "leftmouse"@ || lower(trim(s)) == "mouse1"@) ==> spec_parse_hotkey(s) == Ok::<(Seq<char>, Seq<HotkeyStep>), Seq<char>>(
            ("MouseLeft"@, seq![HotkeyStep { modifiers: no_modifiers(), trigger: TriggerInput::Mouse(MouseButtonToken::Left) }]),
        ),
        (lower(trim(s)) == "mouseright"@ || lower(trim(s)) == "rightmouse"@ || lower(trim(s)) == "mouse2"@) ==> spec_parse_hotkey(s) == Ok::<(Seq<char>, Seq<HotkeyStep>), Seq<char>>(
            ("MouseRight"@, seq![HotkeyStep { modifiers: no_modifiers(), trigger: TriggerInput::Mouse(MouseButtonToken::Right) }]),
        ),
        (lower(trim(s)) == "mousemiddle"@ || lower(trim(s)) == "middlemouse"@ || lower(trim(s)) == "mouse3"@) ==> spec_parse_hotkey(s) == Ok::<(Seq<char>, Seq<HotkeyStep>), Seq<char>>(
            ("MouseMiddle"@, seq![HotkeyStep { modifiers: no_modifiers(), trigger: TriggerInput::Mouse(MouseButtonToken::Middle) }]),
        ),
        (lower(trim(s)) == "mouse4"@ || lower(trim(s)) == "x1"@) ==> spec_parse_hotkey(s) == Ok::<(Seq<char>, Seq<HotkeyStep>), Seq<char>>(
            ("Mouse4"@, seq![HotkeyStep { modifiers: no_modifiers(), trigger: TriggerInput::Mouse(MouseButtonToken::Button4) }]),
        ),
        (lower(trim(s)) == "mouse5"@ || lower(trim(s)) == "x2"@) ==> spec_parse_hotkey(s) == Ok::<(Seq<char>, Seq<HotkeyStep>), Seq<char>>(
            ("Mouse5"@, seq![HotkeyStep { modifiers: no_modifiers(), trigger: TriggerInput::Mouse(MouseButtonToken::Button5) }]),
        ),
{
    reveal_strlit("MouseLeft");
    reveal_strlit("MouseRight");
    reveal_strlit("MouseMiddle");
    reveal_strlit("Mouse4");
    reveal_strlit("Mouse5");
    assert(lower(trim(s)).len() == trim(s).len());
    reveal_strlit("mouseleft");
    reveal_strlit("leftmouse");
    reveal_strlit("mouse1");
    reveal_strlit("mouseright");
    reveal_strlit("rightmouse");
    reveal_strlit("mouse2");
    reveal_strlit("mousemiddle");
    reveal_strlit("middlemouse");
    reveal_strlit("mouse3");
    reveal_strlit("mouse4");
    reveal_strlit("x1");
    reveal_strlit("mouse5");
    reveal_strlit("x2");
    if lower(trim(s)) == "mouseleft"@ {
        lemma_alias_mouseleft(s);
        lemma_free_from_lower_trim(s, "mouseleft"@, ',');
        lemma_free_from_lower_trim(s, "mouseleft"@, '+');
        lemma_single_token_binding(s, TriggerInput::Mouse(MouseButtonToken::Left));
    }
    if lower(trim(s)) == "leftmouse"@ {
        lemma_alias_leftmouse(s);
        lemma_free_from_lower_trim(s, "leftmouse"@, ',');
        lemma_free_from_lower_trim(s, "leftmouse"@, '+');
        lemma_single_token_binding(s, TriggerInput::Mouse(MouseButtonToken::Left));
    }
    if lower(trim(s)) == "mouse1"@ {
        lemma_alias_mouse1(s);
        lemma_free_from_lower_trim(s, "mouse1"@, ',');
        lemma_free_from_lower_trim(s, "mouse1"@, '+');
        lemma_single_token_binding(s, TriggerInput::Mouse(MouseButtonToken::Left));
    }
    if lower(trim(s)) == "mouseright"@ {
        lemma_alias_mouseright(s);
        lemma_free_from_lower_trim(s, "mouseright"@, ',');
        lemma_free_from_lower_trim(s, "mouseright"@, '+');
        lemma_single_token_binding(s, TriggerInput::Mouse(MouseButtonToken::Right));
    }
    if lower(trim(s)) == "rightmouse"@ {
        lemma_alias_rightmouse(s);
        lemma_free_from_lower_trim(s, "rightmouse"@, ',');
        lemma_free_from_lower_trim(s, "rightmouse"@, '+');
        lemma_single_token_binding(s, TriggerInput::Mouse(MouseButtonToken::Right));
    }
    if lower(trim(s)) == "mouse2"@ {
        lemma_alias_mouse2(s);
        lemma_free_from_lower_trim(s, "mouse2"@, ',');
        lemma_free_from_lower_trim(s, "mouse2"@, '+');
        lemma_single_token_binding(s, TriggerInput::Mouse(MouseButtonToken::Right));
    }
    if lower(trim(s)) == "mousemiddle"@ {
        lemma_alias_mousemiddle(s);
        lemma_free_from_lower_trim(s, "mousemiddle"@, ',');
        lemma_free_from_lower_trim(s, "mousemiddle"@, '+');
        lemma_single_token_binding(s, TriggerInput::Mouse(MouseButtonToken::Middle));
    }
    if lower(trim(s)) == "middlemouse"@ {
        lemma_alias_middlemouse(s);
        lemma_free_from_lower_trim(s, "middlemouse"@, ',');
        lemma_free_from_lower_trim(s, "middlemouse"@, '+');
        lemma_single_token_binding(s, TriggerInput::Mouse(MouseButtonToken::Middle));
    }
    if lower(trim(s)) == "mouse3"@ {
        lemma_alias_mouse3(s);
        lemma_free_from_lower_trim(s, "mouse3"@, ',');
        lemma_free_from_lower_trim(s, "mouse3"@, '+');
        lemma_single_token_binding(s, TriggerInput::Mouse(MouseButtonToken::Middle));
    }
    if lower(trim(s)) == "mouse4"@ {
        lemma_alias_mouse4(s);
        lemma_free_from_lower_trim(s, "mouse4"@, ',');
        lemma_free_from_lower_trim(s, "mouse4"@, '+');
        lemma_single_token_binding(s, TriggerInput::Mouse(MouseButtonToken::Button4));
    }
    if lower(trim(s)) == "x1"@ {
        lemma_alias_x1(s);
        lemma_free_from_lower_trim(s, "x1"@, ',');
        lemma_free_from_lower_trim(s, "x1"@, '+');
        lemma_single_token_binding(s, TriggerInput::Mouse(MouseButtonToken::Button4));
    }
    if lower(trim(s)) == "mouse5"@ {
        lemma_alias_mouse5(s);
        lemma_free_from_lower_trim(s, "mouse5"@, ',');
        lemma_free_from_lower_trim(s, "mouse5"@, '+');
        lemma_single_token_binding(s, TriggerInput::Mouse(MouseButtonToken::Button5));
    }
    if lower(trim(s)) == "x2"@ {
        lemma_alias_x2(s);
        lemma_free_from_lower_trim(s, "x2"@, ',');
        lemma_free_from_lower_trim(s, "x2"@, '+');
        lemma_single_token_binding(s, TriggerInput::Mouse(MouseButtonToken::Button5));
    }
}

} // verus!
