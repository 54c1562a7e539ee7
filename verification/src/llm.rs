//! Optional LLM reformatting of a transcript: deciding whether the model is called, the
//! request that is sent to an OpenAI-compatible endpoint, and how its reply is taken.
use vstd::prelude::*;

use crate::settings::{opt_view, TranscriptReformattingLevel, TranscriptionSettings};
use crate::text::{chars_of, push_chars, push_str, string_from, to_string, trim, trim_chars};

verus! {

/// What the model needs to know about the endpoint and the rewrite.
#[derive(Debug)]
pub struct LlmPostProcessorConfig {
    pub api_key: Option<String>,
    pub base_url: String,
    pub model_name: String,
    pub custom_prompt: String,
    pub system_prompt: String,
    pub reformatting_level: String,
}

/// The application that has the focus when the transcript is pasted.
#[derive(Debug)]
pub struct LlmAppContext {
    pub window_title: String,
    pub application_name: Option<String>,
    pub application_description: Option<String>,
}

/// The focused window and, where it could be found out, its application.
#[derive(Debug)]
pub struct ActiveApplicationInfo {
    pub window_title: String,
    pub application_name: Option<String>,
    pub application_description: Option<String>,
}

/// The chat request that is sent to the endpoint.
#[derive(Debug)]
pub struct LlmRequest {
    pub api_base: String,
    pub api_key: Option<String>,
    pub model: String,
    pub system_message: Option<String>,
    pub user_message: String,
}

/// What becomes of a transcript after the dictionary.
#[derive(Debug)]
pub enum PostProcessPlan {
    /// Reformatting is off: the transcript is used as it is.
    Passthrough(String),
    /// Reformatting is on but the endpoint, the model or the prompt is blank.
    MissingModelSettings,
    /// The model is asked to rewrite the transcript.
    CallLlm(LlmPostProcessorConfig, LlmAppContext),
}

/// The name of a reformatting level in the settings file and in the prompt.
pub open spec fn level_label(level: TranscriptReformattingLevel) -> Seq<char> {
    match level {
        TranscriptReformattingLevel::Disabled => "none"@,
        TranscriptReformattingLevel::Minimal => "minimal"@,
        TranscriptReformattingLevel::Normal => "normal"@,
        TranscriptReformattingLevel::Freeform => "freeform"@,
    }
}

/// The name of a reformatting level.
pub fn reformatting_level_label(level: &TranscriptReformattingLevel) -> (r: &'static str)
    ensures
        r@ == level_label(*level),
{
    match level {
        TranscriptReformattingLevel::Disabled => "none",
        TranscriptReformattingLevel::Minimal => "minimal",
        TranscriptReformattingLevel::Normal => "normal",
        TranscriptReformattingLevel::Freeform => "freeform",
    }
}

/// The text is blank: empty or white space only.
pub open spec fn is_blank(s: Seq<char>) -> bool {
    trim(s).len() == 0
}

fn blank(s: &String) -> (r: bool)
    ensures
        r == is_blank(s@),
{
    let v = chars_of(s.as_str());
    let t = trim_chars(&v);
    t.len() == 0
}

fn copy_opt(s: &Option<String>) -> (r: Option<String>)
    ensures
        opt_view(r) == opt_view(*s),
{
    match s {
        Some(x) => Some(x.clone()),
        None => None,
    }
}

/// Decides what to do with a transcript under the given settings: nothing when
/// reformatting is off; refuse when reformatting is on and the endpoint, the model name
/// or the custom prompt is blank; otherwise ask the model, with the settings and the
/// focused application as context.
pub fn post_process_transcript(
    transcript_text: &str,
    active_app_info: &ActiveApplicationInfo,
    cfg: &TranscriptionSettings,
) -> (r: PostProcessPlan)
    ensures
        match r {
            PostProcessPlan::Passthrough(t) => cfg.transcript_reformatting_level
                == TranscriptReformattingLevel::Disabled && t@ == transcript_text@,
            PostProcessPlan::MissingModelSettings => cfg.transcript_reformatting_level
                != TranscriptReformattingLevel::Disabled && (is_blank(cfg.llm_base_url@)
                || is_blank(cfg.llm_model_name@) || is_blank(cfg.llm_custom_prompt@)),
            PostProcessPlan::CallLlm(c, ctx) => {
                &&& cfg.transcript_reformatting_level != TranscriptReformattingLevel::Disabled
                &&& !is_blank(cfg.llm_base_url@)
                &&& !is_blank(cfg.llm_model_name@)
                &&& !is_blank(cfg.llm_custom_prompt@)
                &&& opt_view(c.api_key) == opt_view(cfg.llm_api_key)
                &&& c.base_url@ == cfg.llm_base_url@
                &&& c.model_name@ == cfg.llm_model_name@
                &&& c.custom_prompt@ == cfg.llm_custom_prompt@
                &&& c.system_prompt@ == cfg.llm_system_prompt@
                &&& c.reformatting_level@ == level_label(cfg.transcript_reformatting_level)
                &&& ctx.window_title@ == active_app_info.window_title@
                &&& opt_view(ctx.application_name) == opt_view(active_app_info.application_name)
                &&& opt_view(ctx.application_description) == opt_view(
                    active_app_info.application_description,
                )
            },
        },
{
    if cfg.transcript_reformatting_level == TranscriptReformattingLevel::Disabled {
        return PostProcessPlan::Passthrough(string_from(transcript_text));
    }
    if blank(&cfg.llm_base_url) || blank(&cfg.llm_model_name) || blank(&cfg.llm_custom_prompt) {
        return PostProcessPlan::MissingModelSettings;
    }
    let config = LlmPostProcessorConfig {
        api_key: copy_opt(&cfg.llm_api_key),
        base_url: cfg.llm_base_url.clone(),
        model_name: cfg.llm_model_name.clone(),
        custom_prompt: cfg.llm_custom_prompt.clone(),
        system_prompt: cfg.llm_system_prompt.clone(),
        reformatting_level: string_from(reformatting_level_label(&cfg.transcript_reformatting_level)),
    };
    let context = LlmAppContext {
        window_title: active_app_info.window_title.clone(),
        application_name: copy_opt(&active_app_info.application_name),
        application_description: copy_opt(&active_app_info.application_description),
    };
    PostProcessPlan::CallLlm(config, context)
}

/// The text of an optional string, empty when there is none.
pub open spec fn or_empty(s: Option<String>) -> Seq<char> {
    match s {
        Some(x) => x@,
        None => Seq::empty(),
    }
}

/// The user message: the custom prompt, the instruction to return only the transcript,
/// the reformatting level, the application context and the transcript.
pub open spec fn user_prompt(cfg: LlmPostProcessorConfig, transcript: Seq<char>, ctx: LlmAppContext) -> Seq<char> {
    cfg.custom_prompt@
        + "\n\nReturn only the final transcript text. No explanation, no labels, no markdown.\n\nReformatting level: "@
        + cfg.reformatting_level@ + "\n\nApp context:\n- Window title: "@ + ctx.window_title@
        + "\n- Application name: "@ + or_empty(ctx.application_name)
        + "\n- Application description: "@ + or_empty(ctx.application_description)
        + "\n\nTranscript:\n"@ + transcript
}

/// Law: the user message carries the transcript. It ends with the line `Transcript:`
/// after a blank line, followed by exactly the transcript, and what comes before the
/// transcript does not depend on it; it starts with the custom prompt.
pub proof fn law_user_message_carries_transcript(
    cfg: LlmPostProcessorConfig,
    ctx: LlmAppContext,
    t1: Seq<char>,
    t2: Seq<char>,
)
    ensures
        ({
            let u1 = user_prompt(cfg, t1, ctx);
            let u2 = user_prompt(cfg, t2, ctx);
            let h = "\n\nTranscript:\n"@;
            &&& u1.len() >= cfg.custom_prompt@.len() + h.len() + t1.len()
            &&& u1.skip(u1.len() - t1.len()) == t1
            &&& u1.subrange(u1.len() - t1.len() - h.len(), u1.len() - t1.len()) == h
            &&& u1.take(u1.len() - t1.len()) == u2.take(u2.len() - t2.len())
            &&& u1.take(cfg.custom_prompt@.len() as int) == cfg.custom_prompt@
        }),
{
    let h = "\n\nTranscript:\n"@;
    let u1 = user_prompt(cfg, t1, ctx);
    let u2 = user_prompt(cfg, t2, ctx);
    let pre = cfg.custom_prompt@
        + "\n\nReturn only the final transcript text. No explanation, no labels, no markdown.\n\nReformatting level: "@
        + cfg.reformatting_level@ + "\n\nApp context:\n- Window title: "@ + ctx.window_title@
        + "\n- Application name: "@ + or_empty(ctx.application_name)
        + "\n- Application description: "@ + or_empty(ctx.application_description);
    assert(u1 =~= pre + h + t1);
    assert(u2 =~= pre + h + t2);
    assert(u1.skip(u1.len() - t1.len()) =~= t1);
    assert(u1.subrange(u1.len() - t1.len() - h.len(), u1.len() - t1.len()) =~= h);
    assert(u1.take(u1.len() - t1.len()) =~= pre + h);
    assert(u2.take(u2.len() - t2.len()) =~= pre + h);
    assert(u1.take(cfg.custom_prompt@.len() as int) =~= cfg.custom_prompt@);
}

fn push_opt(v: &mut Vec<char>, s: &Option<String>)
    ensures
        final(v)@ == old(v)@ + or_empty(*s),
{
    match s {
        Some(x) => {
            let c = chars_of(x.as_str());
            push_chars(v, &c);
        },
        None => {
            assert(old(v)@ + Seq::<char>::empty() =~= old(v)@);
        },
    }
}

/// The request for a transcript: the configured endpoint and model, the API key only when
/// it is not blank, the system prompt as a system message only when it is not blank, and
/// the user message that carries the transcript and its context.
pub fn build_llm_request(cfg: &LlmPostProcessorConfig, transcript_text: &str, app_context: &LlmAppContext) -> (r:
    LlmRequest)
    ensures
        r.api_base@ == cfg.base_url@,
        r.model@ == cfg.model_name@,
        match cfg.api_key {
            Some(k) => if is_blank(k@) {
                r.api_key is None
            } else {
                r.api_key matches Some(rk) && rk@ == k@
            },
            None => r.api_key is None,
        },
        if is_blank(cfg.system_prompt@) {
            r.system_message is None
        } else {
            r.system_message matches Some(m) && m@ == cfg.system_prompt@
        },
        r.user_message@ == user_prompt(*cfg, transcript_text@, *app_context),
{
    let api_key = match &cfg.api_key {
        Some(k) => if blank(k) {
            None
        } else {
            Some(k.clone())
        },
        None => None,
    };
    let system_message = if blank(&cfg.system_prompt) {
        None
    } else {
        Some(cfg.system_prompt.clone())
    };
    let mut v: Vec<char> = chars_of(cfg.custom_prompt.as_str());
    push_str(
        &mut v,
        "\n\nReturn only the final transcript text. No explanation, no labels, no markdown.\n\nReformatting level: ",
    );
    let level = chars_of(cfg.reformatting_level.as_str());
    push_chars(&mut v, &level);
    push_str(&mut v, "\n\nApp context:\n- Window title: ");
    let title = chars_of(app_context.window_title.as_str());
    push_chars(&mut v, &title);
    push_str(&mut v, "\n- Application name: ");
    push_opt(&mut v, &app_context.application_name);
    push_str(&mut v, "\n- Application description: ");
    push_opt(&mut v, &app_context.application_description);
    push_str(&mut v, "\n\nTranscript:\n");
    let t = chars_of(transcript_text);
    push_chars(&mut v, &t);
    LlmRequest {
        api_base: cfg.base_url.clone(),
        api_key,
        model: cfg.model_name.clone(),
        system_message,
        user_message: to_string(&v),
    }
}

/// Takes the content of the model's first choice: trimmed, and refused when there is none
/// or it is blank.
pub fn accept_llm_reply(content: Option<&str>) -> (r: Result<String, ()>)
    ensures
        match content {
            Some(c) => if is_blank(c@) {
                r is Err
            } else {
                r matches Ok(t) && t@ == trim(c@)
            },
            None => r is Err,
        },
{
    match content {
        None => Err(()),
        Some(c) => {
            let v = chars_of(c);
            let t = trim_chars(&v);
            if t.len() == 0 {
                Err(())
            } else {
                Ok(to_string(&t))
            }
        },
    }
}

} // verus!

verus! {

/// The first piece from `i` on that is not blank.
pub open spec fn first_nonblank(pieces: Seq<Seq<char>>, i: int) -> Option<Seq<char>>
    decreases pieces.len() - i,
{
    if i < 0 || i >= pieces.len() {
        None
    } else if !is_blank(pieces[i]) {
        Some(pieces[i])
    } else {
        first_nonblank(pieces, i + 1)
    }
}

/// A trimmed text, or nothing when it is blank.
pub open spec fn nonblank_trimmed(s: Seq<char>) -> Option<Seq<char>> {
    if is_blank(s) {
        None
    } else {
        Some(trim(s))
    }
}

/// The application name and description that a helper command printed: on its first
/// non-blank line, the text before the first tab and the text after it, each trimmed and
/// dropped when blank. Nothing when the command failed or printed only blank lines.
pub open spec fn spec_app_metadata(succeeded: bool, stdout: Seq<char>) -> (Option<Seq<char>>, Option<Seq<char>>) {
    if !succeeded {
        (None, None)
    } else {
        match first_nonblank(crate::text::split(stdout, '\n'), 0) {
            None => (None, None),
            Some(line) => match crate::text::find(line, "\t"@) {
                Some(k) => (nonblank_trimmed(line.take(k)), nonblank_trimmed(line.skip(k + 1))),
                None => (nonblank_trimmed(line), None),
            },
        }
    }
}

fn nonblank_trimmed_exec(v: &Vec<char>) -> (r: Option<String>)
    ensures
        crate::bridge::opt_chars(r) == nonblank_trimmed(v@),
{
    let t = trim_chars(v);
    if t.len() == 0 {
        None
    } else {
        Some(to_string(&t))
    }
}

/// Reads the application name and description from a helper command's output.
pub fn parse_app_metadata_from_tsv_output(succeeded: bool, stdout: &str) -> (r: (
    Option<String>,
    Option<String>,
))
    ensures
        (crate::bridge::opt_chars(r.0), crate::bridge::opt_chars(r.1)) == spec_app_metadata(
            succeeded,
            stdout@,
        ),
{
    if !succeeded {
        return (None, None);
    }
    let text = chars_of(stdout);
    let lines = crate::text::split_chars(&text, '\n');
    let ghost lv = crate::text::pieces_view(lines@);
    let n = lines.len();
    let mut i: usize = 0;
    while i < n
        invariant
            n == lines.len(),
            lv == crate::text::pieces_view(lines@),
            lv == crate::text::split(stdout@, '\n'),
            succeeded,
            i <= n,
            first_nonblank(lv, 0) == first_nonblank(lv, i as int),
        decreases n - i,
    {
        assert(lv[i as int] == lines@[i as int]@);
        let t = trim_chars(&lines[i]);
        if t.len() > 0 {
            let line = &lines[i];
            let tab = chars_of("\t");
            proof {
                reveal_strlit("\t");
                crate::text::lemma_find_from_bounds_text(line@, tab@, 0);
            }
            match crate::text::find_chars(line, &tab, 0) {
                Some(k) => {
                    assert(crate::text::matches_at(line@, tab@, k as int));
                    let a = crate::text::copy_range(line, 0, k);
                    let b = crate::text::copy_range(line, k + 1, line.len());
                    assert(a@ =~= line@.take(k as int));
                    assert(b@ =~= line@.skip(k + 1));
                    return (nonblank_trimmed_exec(&a), nonblank_trimmed_exec(&b));
                },
                None => {
                    return (nonblank_trimmed_exec(line), None);
                },
            }
        }
        i += 1;
    }
    (None, None)
}

/// The text with every `'` doubled, as PowerShell reads it inside single quotes.
pub open spec fn doubled_quotes(s: Seq<char>) -> Seq<char>
    decreases s.len(),
{
    if s.len() == 0 {
        Seq::empty()
    } else {
        doubled_quotes(s.drop_last()) + if s.last() == '\'' {
            seq!['\'', '\'']
        } else {
            seq![s.last()]
        }
    }
}

/// The PowerShell command that prints the process name and file description of the
/// process whose main window has the given title.
pub open spec fn spec_windows_app_query(title: Seq<char>) -> Seq<char> {
    "$p = Get-Process | Where-Object {$_.MainWindowTitle -eq '"@ + doubled_quotes(title)
        + "' } | Select-Object -First 1; if ($null -ne $p) { $desc = $p.MainModule.FileVersionInfo.FileDescription; Write-Output ($p.ProcessName + \"`t\" + $desc) }"@
}

/// The command that asks Windows which application owns the focused window; none for a
/// window without a title.
pub fn windows_app_query(window_title: &str) -> (r: Option<String>)
    ensures
        match r {
            None => window_title@.len() == 0,
            Some(q) => window_title@.len() > 0 && q@ == spec_windows_app_query(window_title@),
        },
{
    let t = chars_of(window_title);
    if t.len() == 0 {
        return None;
    }
    let mut v: Vec<char> = Vec::new();
    push_str(&mut v, "$p = Get-Process | Where-Object {$_.MainWindowTitle -eq '");
    let ghost head = v@;
    let mut i: usize = 0;
    assert(t@.take(0) =~= Seq::<char>::empty());
    assert(head + doubled_quotes(t@.take(0)) =~= head);
    while i < t.len()
        invariant
            i <= t.len(),
            t@ == window_title@,
            v@ == head + doubled_quotes(t@.take(i as int)),
        decreases t.len() - i,
    {
        let c = t[i];
        assert(t@.take(i + 1).drop_last() =~= t@.take(i as int));
        if c == '\'' {
            v.push('\'');
            v.push('\'');
        } else {
            v.push(c);
        }
        assert(v@ =~= head + doubled_quotes(t@.take(i + 1)));
        i += 1;
    }
    assert(t@.take(t.len() as int) =~= t@);
    push_str(
        &mut v,
        "' } | Select-Object -First 1; if ($null -ne $p) { $desc = $p.MainModule.FileVersionInfo.FileDescription; Write-Output ($p.ProcessName + \"`t\" + $desc) }",
    );
    Some(to_string(&v))
}

/// The transcript that is copied and pasted once post-processing is over, and whether
/// an error is signalled. `model_reply` is `None` when no model was asked, the model's
/// outcome otherwise (a refusal for missing settings counts as a failed call). A
/// rewrite that came back is used; when post-processing failed, the local transcript is
/// used so that the clipboard and paste still happen, and the error is signalled.
pub fn transcript_to_deliver(local: &str, model_reply: Option<Result<String, ()>>) -> (r: (
    String,
    bool,
))
    ensures
        match model_reply {
            None => r.0@ == local@ && !r.1,
            Some(Ok(t)) => r.0@ == t@ && !r.1,
            Some(Err(())) => r.0@ == local@ && r.1,
        },
{
    match model_reply {
        None => (string_from(local), false),
        Some(Ok(t)) => (t, false),
        Some(Err(())) => (string_from(local), true),
    }
}

/// The last piece that is neither empty nor `.`.
pub open spec fn last_named(pieces: Seq<Seq<char>>) -> Option<Seq<char>>
    decreases pieces.len(),
{
    if pieces.len() == 0 {
        None
    } else if pieces.last().len() == 0 || pieces.last() == "."@ {
        last_named(pieces.drop_last())
    } else {
        Some(pieces.last())
    }
}

/// `Path::file_name` of a POSIX path: its last component, skipping empty and `.`
/// components; none when there is no component or it is `..`.
pub open spec fn spec_file_name(path: Seq<char>) -> Option<Seq<char>> {
    match last_named(crate::text::split(path, '/')) {
        Some(n) => if n == ".."@ {
            None
        } else {
            Some(n)
        },
        None => None,
    }
}

/// Where a character last occurs.
pub open spec fn last_index_of(s: Seq<char>, c: char) -> Option<int>
    decreases s.len(),
{
    if s.len() == 0 {
        None
    } else if s.last() == c {
        Some(s.len() - 1)
    } else {
        last_index_of(s.drop_last(), c)
    }
}

/// `Path::file_stem` of a file name: the text before its last `.`, or the whole name
/// when it has no `.` or its last `.` is its first character.
pub open spec fn stem(name: Seq<char>) -> Seq<char> {
    match last_index_of(name, '.') {
        Some(k) => if k == 0 {
            name
        } else {
            name.take(k)
        },
        None => name,
    }
}

/// The description of a macOS application from the path of its bundle: the bundle's
/// file stem, as `Path::file_stem` gives it; none when the path names no file.
pub fn macos_app_description(app_path: &str) -> (r: Option<String>)
    ensures
        crate::bridge::opt_chars(r) == match spec_file_name(app_path@) {
            Some(n) => Some(stem(n)),
            None => None,
        },
{
    proof {
        reveal_strlit(".");
        reveal_strlit("..");
    }
    let v = chars_of(app_path);
    let pieces = crate::text::split_chars(&v, '/');
    let ghost pv = crate::text::pieces_view(pieces@);
    let mut i: usize = pieces.len();
    assert(pv.len() == pieces@.len());
    assert(pv.take(i as int) =~= pv);
    while i > 0
        invariant
            i <= pieces@.len(),
            pv == crate::text::pieces_view(pieces@),
            pv == crate::text::split(app_path@, '/'),
            last_named(pv) == last_named(pv.take(i as int)),
        decreases i,
    {
        proof {
            reveal_strlit(".");
            reveal_strlit("..");
        }
        let p = &pieces[i - 1];
        assert(pv[i - 1] == p@);
        assert(pv.take(i as int).drop_last() =~= pv.take(i - 1));
        assert(pv.take(i as int).last() == p@);
        if p.len() == 0 || (p.len() == 1 && p[0] == '.') {
            assert(p@.len() == 1 ==> (p@ == "."@ <==> p@[0] == '.')) by {
                if p@.len() == 1 && p@[0] == '.' {
                    assert(p@ =~= "."@);
                }
            }
            i -= 1;
        } else {
            assert(p@ != "."@) by {
                if p@ == "."@ {
                    assert(p@.len() == 1 && p@[0] == '.');
                }
            }
            let name = p;
            assert(last_named(pv) == Some(name@));
            if name.len() == 2 && name[0] == '.' && name[1] == '.' {
                assert(name@ =~= ".."@);
                return None;
            }
            assert(name@ != ".."@) by {
                if name@ == ".."@ {
                    assert(name@.len() == 2 && name@[0] == '.' && name@[1] == '.');
                }
            }
            let n = name.len();
            let mut k: usize = n;
            assert(name@.take(n as int) =~= name@);
            while k > 0 && name[k - 1] != '.'
                invariant
                    k <= n == name@.len(),
                    last_index_of(name@, '.') == last_index_of(name@.take(k as int), '.'),
                decreases k,
            {
                assert(name@.take(k as int).drop_last() =~= name@.take(k - 1));
                k -= 1;
            }
            if k == 0 {
                assert(name@.take(0) =~= Seq::<char>::empty());
                return Some(to_string(name));
            }
            assert(name@.take(k as int).last() == '.');
            assert(last_index_of(name@, '.') == Some(k - 1));
            if k == 1 {
                return Some(to_string(name));
            }
            let st = crate::text::copy_range(name, 0, k - 1);
            assert(st@ =~= name@.take(k - 1));
            return Some(to_string(&st));
        }
    }
    assert(pv.take(0) =~= Seq::<Seq<char>>::empty());
    None
}

} // verus!
