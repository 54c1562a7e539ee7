//! The local speech model: where its files come from, when a download is complete and
//! sane, how long a loaded model is kept, and how download progress is reported.
use vstd::prelude::*;

pub use crate::paths::{model_dir_path, model_success_flag_path};
use crate::text::{chars_of, eq_str, lower, lower_chars, push_str, to_string};

verus! {

/// The directory, under `models/`, that holds the model.
pub const MODEL_DIR_NAME: &'static str = "parakeet-tdt-0.6b-v3-int8";

/// The file that marks a completed download.
pub const MODEL_SUCCESS_FLAG: &'static str = "download.success.flag";

/// The encoder network.
pub const MODEL_FILE_ENCODER: &'static str = "encoder-model.int8.onnx";

/// The decoder and joint network.
pub const MODEL_FILE_DECODER: &'static str = "decoder_joint-model.int8.onnx";

/// The feature extractor.
pub const MODEL_FILE_PREPROCESSOR: &'static str = "nemo128.onnx";

/// The vocabulary.
pub const MODEL_FILE_VOCAB: &'static str = "vocab.txt";

/// Smallest size of a real network file, in bytes.
pub const MIN_ONNX_FILE_BYTES: u64 = 1024;

/// The files of the model, in download order.
pub fn model_files() -> (r: Vec<&'static str>)
    ensures
        r@.len() == 4,
        r@[0]@ == MODEL_FILE_ENCODER@,
        r@[1]@ == MODEL_FILE_DECODER@,
        r@[2]@ == MODEL_FILE_PREPROCESSOR@,
        r@[3]@ == MODEL_FILE_VOCAB@,
{
    let mut r: Vec<&'static str> = Vec::new();
    r.push(MODEL_FILE_ENCODER);
    r.push(MODEL_FILE_DECODER);
    r.push(MODEL_FILE_PREPROCESSOR);
    r.push(MODEL_FILE_VOCAB);
    r
}

/// Where a model file is downloaded from.
pub open spec fn spec_model_file_url(filename: Seq<char>) -> Seq<char> {
    "https://huggingface.co/istupakov/parakeet-tdt-0.6b-v3-onnx/resolve/main/"@ + filename
        + "?download=true"@
}

/// Where a model file is downloaded from.
pub fn model_file_url(filename: &str) -> (r: String)
    ensures
        r@ == spec_model_file_url(filename@),
{
    let mut v: Vec<char> = Vec::new();
    push_str(&mut v, "https://huggingface.co/istupakov/parakeet-tdt-0.6b-v3-onnx/resolve/main/");
    push_str(&mut v, filename);
    push_str(&mut v, "?download=true");
    to_string(&v)
}

/// A loaded model is dropped once it has not been used for `ttl`; a clock that went
/// backwards counts as no time having passed.
pub fn is_cache_entry_expired(last_used_at_ms: u64, now_ms: u64, ttl_ms: u64) -> (r: bool)
    ensures
        r == ((if now_ms >= last_used_at_ms {
            now_ms - last_used_at_ms
        } else {
            0
        }) >= ttl_ms),
{
    now_ms.saturating_sub(last_used_at_ms) >= ttl_ms
}

/// The decimal digits of a text are all digits.
pub open spec fn all_digits(d: Seq<char>) -> bool {
    forall|i: int| 0 <= i < d.len() ==> '0' <= #[trigger] d[i] && d[i] <= '9'
}

/// `str::parse::<u64>`: an optional `+`, then one or more decimal digits whose value fits.
pub open spec fn parse_u64(s: Seq<char>) -> Option<u64> {
    let d = if s.len() > 0 && s[0] == '+' {
        s.drop_first()
    } else {
        s
    };
    if d.len() > 0 && all_digits(d) && crate::hotkey::digits_value(d) <= u64::MAX {
        Some(crate::hotkey::digits_value(d) as u64)
    } else {
        None
    }
}

proof fn lemma_digits_value_grows(d: Seq<char>, k: int)
    requires
        0 <= k <= d.len(),
        all_digits(d),
    ensures
        crate::hotkey::digits_value(d) >= crate::hotkey::digits_value(d.take(k)),
    decreases d.len(),
{
    if k < d.len() {
        assert(d.drop_last().take(k) =~= d.take(k));
        assert(all_digits(d.drop_last())) by {
            assert forall|i: int| 0 <= i < d.drop_last().len() implies '0' <= #[trigger] d.drop_last()[i]
                && d.drop_last()[i] <= '9' by {
                assert(d.drop_last()[i] == d[i]);
            }
        }
        lemma_digits_value_grows(d.drop_last(), k);
        assert('0' <= d[d.len() - 1]);
    } else {
        assert(d.take(k) =~= d);
    }
}

fn parse_u64_chars(s: &Vec<char>) -> (r: Option<u64>)
    ensures
        r == parse_u64(s@),
{
    let n = s.len();
    let start: usize = if n > 0 && s[0] == '+' {
        1
    } else {
        0
    };
    let ghost d = if s@.len() > 0 && s@[0] == '+' {
        s@.drop_first()
    } else {
        s@
    };
    assert(d =~= s@.subrange(start as int, n as int));
    if start >= n {
        return None;
    }
    let mut value: u64 = 0;
    let mut i: usize = start;
    assert(d.take(0) =~= Seq::<char>::empty());
    while i < n
        invariant
            start <= i <= n == s.len(),
            start < n,
            d =~= s@.subrange(start as int, n as int),
            d == (if s@.len() > 0 && s@[0] == '+' {
                s@.drop_first()
            } else {
                s@
            }),
            value == crate::hotkey::digits_value(d.take(i - start)),
            all_digits(d.take(i - start)),
        decreases n - i,
    {
        let c = s[i];
        assert(d[i - start] == c);
        if c < '0' || c > '9' {
            assert(!all_digits(d)) by {
                assert(!('0' <= d[i - start] && d[i - start] <= '9'));
            }
            return None;
        }
        let dig: u64 = ((c as u32) - ('0' as u32)) as u64;
        assert(d.take(i - start + 1).drop_last() =~= d.take(i - start));
        assert(d.take(i - start + 1).last() == c);
        assert(all_digits(d.take(i - start + 1))) by {
            assert forall|k: int| 0 <= k < d.take(i - start + 1).len() implies '0'
                <= #[trigger] d.take(i - start + 1)[k] && d.take(i - start + 1)[k] <= '9' by {
                if k < i - start {
                    assert(d.take(i - start + 1)[k] == d.take(i - start)[k]);
                }
            }
        }
        let ghost next = crate::hotkey::digits_value(d.take(i - start + 1));
        assert(next == value * 10 + dig);
        if value > (u64::MAX - dig) / 10 {
            assert(value * 10 + dig > u64::MAX) by (nonlinear_arith)
                requires
                    value > (u64::MAX - dig) / 10,
                    dig <= 9,
            ;
            proof {
                if all_digits(d) {
                    lemma_digits_value_grows(d, i - start + 1);
                }
            }
            return None;
        }
        assert(value * 10 + dig <= u64::MAX) by (nonlinear_arith)
            requires
                value <= (u64::MAX - dig) / 10,
                dig <= 9,
        ;
        value = value * 10 + dig;
        i += 1;
    }
    assert(d.take(n - start) =~= d);
    Some(value)
}

/// The time a loaded model is kept: the override from the environment when it is a
/// number, else the one from the settings; at least one second.
pub open spec fn spec_cache_ttl_secs(env_override: Option<Seq<char>>, settings_ttl_secs: u64) -> u64 {
    let chosen = match env_override {
        Some(v) => match parse_u64(v) {
            Some(n) => n,
            None => settings_ttl_secs,
        },
        None => settings_ttl_secs,
    };
    if chosen < 1 {
        1
    } else {
        chosen
    }
}

/// The time, in seconds, that a loaded model is kept.
pub fn resolve_cache_ttl_secs(env_override: Option<&str>, settings_ttl_secs: u64) -> (r: u64)
    ensures
        r == spec_cache_ttl_secs(crate::bridge::opt_str_chars(env_override), settings_ttl_secs),
{
    let chosen = match env_override {
        Some(v) => {
            let cv = chars_of(v);
            match parse_u64_chars(&cv) {
                Some(n) => n,
                None => settings_ttl_secs,
            }
        },
        None => settings_ttl_secs,
    };
    if chosen < 1 {
        1
    } else {
        chosen
    }
}

} // verus!

verus! {

/// `u8::to_ascii_lowercase`.
pub open spec fn lower_byte(b: u8) -> u8 {
    if 65 <= b && b <= 90 {
        (b + 32) as u8
    } else {
        b
    }
}

/// The bytes with ASCII letters lower-cased.
pub open spec fn lower_bytes(s: Seq<u8>) -> Seq<u8> {
    s.map_values(|b: u8| lower_byte(b))
}

/// `p` occurs in `s`.
pub open spec fn contains_bytes(s: Seq<u8>, p: Seq<u8>) -> bool {
    exists|k: int| 0 <= k && k + p.len() <= s.len() && #[trigger] s.subrange(k, k + p.len()) == p
}

fn contains_bytes_exec(s: &Vec<u8>, p: &[u8]) -> (r: bool)
    ensures
        r == contains_bytes(s@, p@),
{
    let n = s.len();
    let m = p.len();
    if m > n {
        assert forall|k: int| 0 <= k && k + p@.len() <= s@.len() implies #[trigger] s@.subrange(
            k,
            k + p@.len(),
        ) != p@ by {}
        return false;
    }
    let mut k: usize = 0;
    while k <= n - m
        invariant
            n == s.len(),
            m == p.len(),
            m <= n,
            k <= n - m + 1,
            forall|j: int| 0 <= j < k ==> #[trigger] s@.subrange(j, j + m) != p@,
        decreases n - m + 1 - k,
    {
        let mut t: usize = 0;
        let mut same = true;
        while t < m
            invariant
                n == s.len(),
                m == p.len(),
                k + m <= n,
                t <= m,
                same == forall|u: int| 0 <= u < t ==> s@[k + u] == p@[u],
            decreases m - t,
        {
            if s[k + t] != p[t] {
                same = false;
            }
            t += 1;
        }
        if same {
            assert(s@.subrange(k as int, k + m) =~= p@);
            return true;
        }
        proof {
            let u = choose|u: int| 0 <= u < m && s@[k + u] != p@[u];
            assert(s@.subrange(k as int, k + m)[u] != p@[u]);
        }
        if k == n - m {
            assert forall|j: int| 0 <= j && j + p@.len() <= s@.len() implies #[trigger] s@.subrange(
                j,
                j + p@.len(),
            ) != p@ by {
                assert(j < k + 1);
            }
            return false;
        }
        k += 1;
    }
    false
}

/// The start of a file says that a web page or a Git LFS pointer was saved in place of
/// the model: it contains `<html`, `<!doctype` or `git-lfs.github.com/spec/v1`, in any
/// case. A file that could not be read counts as such.
pub open spec fn spec_invalid_text_signature(head: Option<Seq<u8>>) -> bool {
    match head {
        None => true,
        Some(h) => contains_bytes(lower_bytes(h), "<html"@.map_values(|c: char| c as u8))
            || contains_bytes(lower_bytes(h), "<!doctype"@.map_values(|c: char| c as u8))
            || contains_bytes(
            lower_bytes(h),
            "git-lfs.github.com/spec/v1"@.map_values(|c: char| c as u8),
        ),
    }
}

fn ascii_bytes(s: &str) -> (r: Vec<u8>)
    requires
        forall|i: int| 0 <= i < s@.len() ==> (#[trigger] s@[i] as u32) < 128,
    ensures
        r@ == s@.map_values(|c: char| c as u8),
{
    let v = chars_of(s);
    let mut r: Vec<u8> = Vec::new();
    let mut i: usize = 0;
    while i < v.len()
        invariant
            v@ == s@,
            i <= v.len(),
            forall|j: int| 0 <= j < v@.len() ==> (#[trigger] v@[j] as u32) < 128,
            r@ =~= v@.take(i as int).map_values(|c: char| c as u8),
        decreases v.len() - i,
    {
        let c = v[i];
        let b: u8 = c as u8;
        r.push(b);
        assert(v@.take(i + 1) =~= v@.take(i as int).push(c));
        i += 1;
    }
    assert(v@.take(v.len() as int) =~= v@);
    r
}

/// Whether the start of a model file shows that something else was saved in its place.
pub fn has_invalid_text_signature(head: Option<&[u8]>) -> (r: bool)
    ensures
        r == spec_invalid_text_signature(match head {
            Some(h) => Some(h@),
            None => None,
        }),
{
    match head {
        None => true,
        Some(h) => {
            let mut low: Vec<u8> = Vec::new();
            let mut i: usize = 0;
            while i < h.len()
                invariant
                    i <= h@.len(),
                    low@ =~= lower_bytes(h@.take(i as int)),
                decreases h@.len() - i,
            {
                let b = h[i];
                let lb: u8 = if 65 <= b && b <= 90 {
                    b + 32
                } else {
                    b
                };
                low.push(lb);
                assert(h@.take(i + 1) =~= h@.take(i as int).push(b));
                i += 1;
            }
            assert(h@.take(h@.len() as int) =~= h@);
            proof {
                reveal_strlit("<html");
                reveal_strlit("<!doctype");
                reveal_strlit("git-lfs.github.com/spec/v1");
            }
            let p1 = ascii_bytes("<html");
            let p2 = ascii_bytes("<!doctype");
            let p3 = ascii_bytes("git-lfs.github.com/spec/v1");
            contains_bytes_exec(&low, p1.as_slice()) || contains_bytes_exec(&low, p2.as_slice())
                || contains_bytes_exec(&low, p3.as_slice())
        },
    }
}

/// What is known about a model file on disk.
#[derive(Debug)]
pub struct ModelFileFacts {
    /// It is a regular file.
    pub is_file: bool,
    /// Its size in bytes.
    pub size: u64,
    /// Its extension, empty when it has none.
    pub extension: String,
    /// Its first bytes, when they could be read.
    pub head: Option<Vec<u8>>,
}

/// A model file is sane when it exists, is a non-empty regular file and, for a network
/// file (extension `onnx` in any case), is at least 1024 bytes and does not start like a
/// web page or an LFS pointer.
pub open spec fn spec_model_file_sane(facts: Option<ModelFileFacts>) -> bool {
    match facts {
        None => false,
        Some(f) => f.is_file && f.size > 0 && (lower(f.extension@) == "onnx"@ ==> (f.size
            >= MIN_ONNX_FILE_BYTES && !spec_invalid_text_signature(
            match f.head {
                Some(h) => Some(h@),
                None => None,
            },
        ))),
    }
}

/// Whether a model file looks like the real thing; `None` when its metadata could not be
/// read.
pub fn is_model_file_sane(facts: &Option<ModelFileFacts>) -> (r: bool)
    ensures
        r == spec_model_file_sane(*facts),
{
    match facts {
        None => false,
        Some(f) => {
            if !f.is_file {
                return false;
            }
            if f.size == 0 {
                return false;
            }
            let ext = chars_of(f.extension.as_str());
            let low = lower_chars(&ext);
            if eq_str(&low, "onnx") {
                if f.size < MIN_ONNX_FILE_BYTES {
                    return false;
                }
                let bad = match &f.head {
                    Some(h) => has_invalid_text_signature(Some(h.as_slice())),
                    None => has_invalid_text_signature(None),
                };
                if bad {
                    return false;
                }
            }
            true
        },
    }
}

/// The model is downloaded when the success flag exists and every file is sane.
pub fn is_model_downloaded(success_flag_exists: bool, files_sane: &[bool]) -> (r: bool)
    ensures
        r == (success_flag_exists && forall|i: int| 0 <= i < files_sane@.len() ==> #[trigger] files_sane@[i]),
{
    if !success_flag_exists {
        return false;
    }
    let mut i: usize = 0;
    while i < files_sane.len()
        invariant
            i <= files_sane@.len(),
            forall|j: int| 0 <= j < i ==> #[trigger] files_sane@[j],
        decreases files_sane@.len() - i,
    {
        if !files_sane[i] {
            return false;
        }
        i += 1;
    }
    true
}

/// The download progress in percent, when the total size is known: the bytes received
/// times 100 (saturating), over the total, at most 100.
pub open spec fn spec_download_progress(downloaded: u64, total: u64) -> Option<u32> {
    if total == 0 {
        None
    } else {
        let scaled = if downloaded * 100 > u64::MAX {
            u64::MAX as int
        } else {
            downloaded * 100
        };
        let pct = scaled / (total as int);
        Some(
            if pct > 100 {
                100
            } else {
                pct as u32
            },
        )
    }
}

/// The download progress to show.
pub fn download_progress(downloaded: u64, total: u64) -> (r: Option<u32>)
    ensures
        r == spec_download_progress(downloaded, total),
{
    if total == 0 {
        return None;
    }
    let scaled: u64 = if downloaded > u64::MAX / 100 {
        u64::MAX
    } else {
        downloaded * 100
    };
    let pct = scaled / total;
    if pct > 100 {
        Some(100)
    } else {
        Some(pct as u32)
    }
}

/// `a + b`, or `u64::MAX` when that does not fit.
pub open spec fn saturating_sum(a: u64, b: u64) -> u64 {
    if a + b > u64::MAX {
        u64::MAX
    } else {
        (a + b) as u64
    }
}

/// The byte counts of a model download: the total expected and the bytes received.
#[derive(Debug, Clone, Copy, PartialEq, Eq, Structural)]
pub struct DownloadTracker {
    pub total_bytes: u64,
    pub downloaded_bytes: u64,
}

impl DownloadTracker {
    /// Nothing expected, nothing received.
    pub fn new() -> (t: Self)
        ensures
            t.total_bytes == 0,
            t.downloaded_bytes == 0,
    {
        DownloadTracker { total_bytes: 0, downloaded_bytes: 0 }
    }

    /// Adds the size that a file announced before its download (nothing when it did
    /// not).
    pub fn add_expected_size(&mut self, size: Option<u64>)
        ensures
            final(self).total_bytes == saturating_sum(
                old(self).total_bytes,
                match size {
                    Some(n) => n,
                    None => 0,
                },
            ),
            final(self).downloaded_bytes == old(self).downloaded_bytes,
    {
        let n: u64 = match size {
            Some(n) => n,
            None => 0,
        };
        self.total_bytes = self.total_bytes.saturating_add(n);
    }

    /// Takes the length of a download response as the total when no total is known yet.
    pub fn note_response_length(&mut self, length: Option<u64>)
        ensures
            final(self).total_bytes == if old(self).total_bytes == 0 {
                match length {
                    Some(n) => n,
                    None => 0,
                }
            } else {
                old(self).total_bytes
            },
            final(self).downloaded_bytes == old(self).downloaded_bytes,
    {
        if self.total_bytes == 0 {
            let n: u64 = match length {
                Some(n) => n,
                None => 0,
            };
            self.total_bytes = n;
        }
    }

    /// Counts a received chunk and gives the progress to show, when the total is known.
    pub fn record_chunk(&mut self, read: u64) -> (r: Option<u32>)
        ensures
            final(self).downloaded_bytes == saturating_sum(old(self).downloaded_bytes, read),
            final(self).total_bytes == old(self).total_bytes,
            r == spec_download_progress(final(self).downloaded_bytes, final(self).total_bytes),
    {
        self.downloaded_bytes = self.downloaded_bytes.saturating_add(read);
        download_progress(self.downloaded_bytes, self.total_bytes)
    }
}

/// Law: with the total fixed, the progress shown never goes back as more bytes arrive,
/// and it never exceeds 100 percent.
pub proof fn law_progress_never_goes_back(downloaded: u64, more: u64, total: u64)
    requires
        total > 0,
    ensures
        spec_download_progress(downloaded, total) matches Some(p) && p <= 100,
        spec_download_progress(saturating_sum(downloaded, more), total) matches Some(q)
            && spec_download_progress(downloaded, total)->Some_0 <= q,
{
    let later = saturating_sum(downloaded, more);
    let a = if downloaded * 100 > u64::MAX { u64::MAX as int } else { downloaded * 100 };
    let b = if later * 100 > u64::MAX { u64::MAX as int } else { later * 100 };
    assert(downloaded * 100 <= later * 100);
    assert(a <= b);
    vstd::arithmetic::div_mod::lemma_div_is_ordered(a, b, total as int);
}

/// The model is loaded again when it is not in the cache or its entry has expired.
pub fn should_reload_model(last_used_at_ms: Option<u64>, now_ms: u64, ttl_ms: u64) -> (r: bool)
    ensures
        r == match last_used_at_ms {
            None => true,
            Some(t) => (if now_ms >= t {
                now_ms - t
            } else {
                0
            }) >= ttl_ms,
        },
{
    match last_used_at_ms {
        None => true,
        Some(t) => is_cache_entry_expired(t, now_ms, ttl_ms),
    }
}

} // verus!
